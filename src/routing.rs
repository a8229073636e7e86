use crate::bgp_type::Ipv4Address;
use crate::buffer::{buf_contents, max_buf_len, new_buf, put_u8};
use crate::error::{ConstructIpv4NetworkError, ConvertBytesToBgpMessageError, DecodeErrorKind};
use bytes::BytesMut;
use vstd::prelude::*;

verus! {

/// The mask of octet `i` of a prefix, where `bits` is the prefix length less `8 * i`.
pub open spec fn octet_mask(bits: int) -> u8 {
    if bits <= 0 {
        0x00
    } else if bits == 1 {
        0x80
    } else if bits == 2 {
        0xc0
    } else if bits == 3 {
        0xe0
    } else if bits == 4 {
        0xf0
    } else if bits == 5 {
        0xf8
    } else if bits == 6 {
        0xfc
    } else if bits == 7 {
        0xfe
    } else {
        0xff
    }
}

/// An IPv4 prefix: an address and a prefix length in `0..=32`.
#[derive(PartialEq, Eq, Structural, Debug, Clone, Copy, Hash, PartialOrd, Ord)]
pub struct Ipv4Network {
    pub addr: Ipv4Address,
    pub prefix: u8,
}

/// Octets needed for a prefix of `prefix` bits.
pub open spec fn prefix_octets(prefix: u8) -> nat {
    ((prefix as nat) + 7) / 8
}

impl Ipv4Network {
    pub open spec fn wf(self) -> bool {
        self.prefix <= 32
    }

    /// Octet `i` of the network address: the address with the bits past the
    /// prefix cleared.
    pub open spec fn network_octet(self, i: int) -> u8 {
        self.addr.octet(i) & octet_mask(self.prefix - 8 * i)
    }

    /// The address has no bit set past the prefix.
    pub open spec fn is_network_address(self) -> bool {
        &&& self.addr.0 == self.network_octet(0)
        &&& self.addr.1 == self.network_octet(1)
        &&& self.addr.2 == self.network_octet(2)
        &&& self.addr.3 == self.network_octet(3)
    }

    /// The wire form: the prefix length, then the octets of the network
    /// address that the prefix covers.
    pub open spec fn wire_bytes(self) -> Seq<u8> {
        seq![self.prefix] + Seq::new(prefix_octets(self.prefix), |i: int| self.network_octet(i))
    }

    /// A prefix of `prefix` bits at `addr`; fails when `prefix` is above 32.
    pub fn new(addr: Ipv4Address, prefix: u8) -> (r: Result<Self, ConstructIpv4NetworkError>)
        ensures
            r is Ok <==> prefix <= 32,
            r matches Ok(n) ==> n == (Ipv4Network { addr, prefix }),
    {
        if prefix <= 32 {
            Ok(Ipv4Network { addr, prefix })
        } else {
            Err(ConstructIpv4NetworkError)
        }
    }

    pub fn prefix(&self) -> (r: u8)
        ensures
            r == self.prefix,
    {
        self.prefix
    }

    pub fn addr(&self) -> (r: Ipv4Address)
        ensures
            r == self.addr,
    {
        self.addr
    }

    /// Number of octets of the wire form: one more than the octets the prefix covers.
    pub fn bytes_len(&self) -> (r: usize)
        requires
            self.wf(),
        ensures
            r == self.wire_bytes().len(),
            r == prefix_octets(self.prefix) + 1,
            1 <= r <= 5,
    {
        (self.prefix as usize + 7) / 8 + 1
    }

    /// Octet `i` of the network address.
    fn network_octet_at(&self, i: usize) -> (r: u8)
        requires
            i < 4,
        ensures
            r == self.network_octet(i as int),
    {
        let o = if i == 0 {
            self.addr.0
        } else if i == 1 {
            self.addr.1
        } else if i == 2 {
            self.addr.2
        } else {
            self.addr.3
        };
        let start = 8 * i as u8;
        let mask: u8 = if self.prefix <= start {
            0x00
        } else {
            let bits = self.prefix - start;
            if bits == 1 {
                0x80
            } else if bits == 2 {
                0xc0
            } else if bits == 3 {
                0xe0
            } else if bits == 4 {
                0xf0
            } else if bits == 5 {
                0xf8
            } else if bits == 6 {
                0xfc
            } else if bits == 7 {
                0xfe
            } else {
                0xff
            }
        };
        o & mask
    }

    /// Appends the wire form to `buf`.
    pub fn write_bytes(&self, buf: &mut BytesMut)
        requires
            self.wf(),
            buf_contents(*old(buf)).len() + self.wire_bytes().len() <= max_buf_len(),
        ensures
            buf_contents(*final(buf)) == buf_contents(*old(buf)) + self.wire_bytes(),
    {
        let ghost start = buf_contents(*buf);
        let n = (self.prefix as usize + 7) / 8;
        put_u8(buf, self.prefix);
        let mut i: usize = 0;
        while i < n
            invariant
                self.wf(),
                n == prefix_octets(self.prefix),
                i <= n,
                start.len() + 1 + n <= max_buf_len(),
                buf_contents(*buf) == start + self.wire_bytes().take(1 + i),
            decreases n - i,
        {
            let o = self.network_octet_at(i);
            put_u8(buf, o);
            i += 1;
            assert(self.wire_bytes().take(1 + i) =~= self.wire_bytes().take(i as int).push(o));
        }
        assert(self.wire_bytes().take(1 + n) =~= self.wire_bytes());
    }

    /// The wire form as a new buffer.
    pub fn to_bytes(&self) -> (r: BytesMut)
        requires
            self.wf(),
        ensures
            buf_contents(r) == self.wire_bytes(),
    {
        let mut buf = new_buf();
        self.write_bytes(&mut buf);
        buf
    }
}


/// The octet at `1 + i` of `s` when `i < k`, else zero.
pub open spec fn octet_or_zero(s: Seq<u8>, k: nat, i: int) -> u8 {
    if i < k {
        s[1 + i]
    } else {
        0
    }
}

/// Reads one prefix from the front of `s`: the prefix and the octets it took.
pub open spec fn parse_prefix(s: Seq<u8>) -> Result<(Ipv4Network, nat), DecodeErrorKind> {
    if s.len() == 0 {
        Err(DecodeErrorKind::Truncated)
    } else if s[0] > 32 {
        Err(DecodeErrorKind::InvalidPrefixLength)
    } else if 1 + prefix_octets(s[0]) > s.len() {
        Err(DecodeErrorKind::Truncated)
    } else {
        let k = prefix_octets(s[0]);
        let addr = Ipv4Address(
            octet_or_zero(s, k, 0),
            octet_or_zero(s, k, 1),
            octet_or_zero(s, k, 2),
            octet_or_zero(s, k, 3),
        );
        Ok((Ipv4Network { addr, prefix: s[0] }, 1 + k))
    }
}

/// Reads prefixes one after another until `s` is used up.
pub open spec fn parse_prefixes(s: Seq<u8>) -> Result<Seq<Ipv4Network>, DecodeErrorKind>
    decreases s.len(),
{
    if s.len() == 0 {
        Ok(Seq::empty())
    } else {
        match parse_prefix(s) {
            Err(e) => Err(e),
            Ok((p, n)) => match parse_prefixes(s.skip(n as int)) {
                Err(e) => Err(e),
                Ok(rest) => Ok(seq![p] + rest),
            },
        }
    }
}

/// `acc` followed by what `r` holds, or the error of `r`.
pub open spec fn prepend_ok<T>(acc: Seq<T>, r: Result<Seq<T>, DecodeErrorKind>) -> Result<Seq<T>, DecodeErrorKind> {
    match r {
        Ok(rest) => Ok(acc + rest),
        Err(e) => Err(e),
    }
}

/// The wire forms of the prefixes of `s`, one for each.
pub open spec fn prefix_chunks(s: Seq<Ipv4Network>) -> Seq<Seq<u8>> {
    s.map_values(|p: Ipv4Network| p.wire_bytes())
}

/// The wire forms of the prefixes of `s`, one after another.
pub open spec fn prefixes_bytes(s: Seq<Ipv4Network>) -> Seq<u8> {
    prefix_chunks(s).flatten()
}

/// Every prefix of `s` is well formed.
pub open spec fn all_wf(s: Seq<Ipv4Network>) -> bool {
    forall|i: int| 0 <= i < s.len() ==> #[trigger] s[i].wf()
}

/// Every prefix of `s` is a network address.
pub open spec fn all_network_addresses(s: Seq<Ipv4Network>) -> bool {
    forall|i: int| 0 <= i < s.len() ==> #[trigger] s[i].is_network_address()
}

/// Sum of the wire lengths of the prefixes of `s`.
pub open spec fn prefixes_len(s: Seq<Ipv4Network>) -> nat {
    prefixes_bytes(s).len()
}

pub proof fn lemma_prefixes_bytes_push(s: Seq<Ipv4Network>, p: Ipv4Network)
    ensures
        prefixes_bytes(s.push(p)) == prefixes_bytes(s) + p.wire_bytes(),
{
    assert(prefix_chunks(s.push(p)) =~= prefix_chunks(s).push(p.wire_bytes()));
    prefix_chunks(s).lemma_flatten_push(p.wire_bytes());
}

pub proof fn lemma_prefixes_bytes_front(s: Seq<Ipv4Network>)
    requires
        s.len() > 0,
    ensures
        prefixes_bytes(s) == s[0].wire_bytes() + prefixes_bytes(s.skip(1)),
{
    assert(prefix_chunks(s).drop_first() =~= prefix_chunks(s.skip(1)));
}

proof fn lemma_and_zero(x: u8)
    ensures
        x & 0 == 0,
{
    assert(x & 0 == 0) by (bit_vector);
}

/// Reading the wire form of a well-formed network address, followed by any
/// octets, gives back that prefix and the length of its wire form.
pub proof fn lemma_parse_prefix_of_wire_bytes(p: Ipv4Network, rest: Seq<u8>)
    requires
        p.wf(),
        p.is_network_address(),
    ensures
        parse_prefix(p.wire_bytes() + rest) == Ok::<(Ipv4Network, nat), DecodeErrorKind>(
            (p, p.wire_bytes().len()),
        ),
{
    let s = p.wire_bytes() + rest;
    let k = prefix_octets(p.prefix);
    lemma_and_zero(p.addr.0);
    lemma_and_zero(p.addr.1);
    lemma_and_zero(p.addr.2);
    lemma_and_zero(p.addr.3);
    assert(s[0] == p.prefix);
    assert(octet_or_zero(s, k, 0) == p.addr.0);
    assert(octet_or_zero(s, k, 1) == p.addr.1);
    assert(octet_or_zero(s, k, 2) == p.addr.2);
    assert(octet_or_zero(s, k, 3) == p.addr.3);
}

/// Reading back the concatenated wire forms of well-formed network addresses
/// gives the same prefixes, in order.
pub proof fn lemma_prefixes_round_trip(s: Seq<Ipv4Network>)
    requires
        all_wf(s),
        all_network_addresses(s),
    ensures
        parse_prefixes(prefixes_bytes(s)) == Ok::<Seq<Ipv4Network>, DecodeErrorKind>(s),
    decreases s.len(),
{
    if s.len() == 0 {
        assert(prefixes_bytes(s) =~= Seq::<u8>::empty());
        assert(s =~= Seq::<Ipv4Network>::empty());
    } else {
        let tail = s.skip(1);
        lemma_prefixes_bytes_front(s);
        assert(all_wf(tail) && all_network_addresses(tail)) by {
            assert forall|i: int| 0 <= i < tail.len() implies #[trigger] tail[i].wf()
                && tail[i].is_network_address() by {
                assert(tail[i] == s[i + 1]);
            }
        }
        lemma_prefixes_round_trip(tail);
        let b = prefixes_bytes(s);
        let w = s[0].wire_bytes();
        lemma_parse_prefix_of_wire_bytes(s[0], prefixes_bytes(tail));
        assert(b.skip(w.len() as int) =~= prefixes_bytes(tail));
        assert(seq![s[0]] + tail =~= s);
    }
}

/// A single network address reads back as itself, and its wire form takes
/// one octet more than the octets its prefix covers.
pub proof fn lemma_prefix_round_trip(p: Ipv4Network)
    requires
        p.wf(),
        p.is_network_address(),
    ensures
        parse_prefixes(prefixes_bytes(seq![p])) == Ok::<Seq<Ipv4Network>, DecodeErrorKind>(seq![p]),
        prefixes_bytes(seq![p]) == p.wire_bytes(),
        p.wire_bytes().len() == prefix_octets(p.prefix) + 1,
        1 <= p.wire_bytes().len() <= 5,
{
    lemma_prefixes_bytes_push(Seq::empty(), p);
    assert(Seq::<Ipv4Network>::empty().push(p) =~= seq![p]);
    assert(prefixes_bytes(Seq::empty()) =~= Seq::<u8>::empty());
    assert(Seq::<u8>::empty() + p.wire_bytes() =~= p.wire_bytes());
    lemma_prefixes_round_trip(seq![p]);
}

impl Ipv4Network {
    /// Reads a sequence of prefixes that fills `bytes`.
    pub fn from_u8_slice(bytes: &[u8]) -> (r: Result<Vec<Self>, ConvertBytesToBgpMessageError>)
        ensures
            match r {
                Ok(v) => parse_prefixes(bytes@) == Ok::<Seq<Ipv4Network>, DecodeErrorKind>(v@),
                Err(e) => parse_prefixes(bytes@) == Err::<Seq<Ipv4Network>, DecodeErrorKind>(e.kind),
            },
    {
        let mut networks: Vec<Ipv4Network> = Vec::new();
        let mut i: usize = 0;
        proof {
            assert(bytes@.skip(0) =~= bytes@);
            if let Ok(all) = parse_prefixes(bytes@) {
                assert(networks@ + all =~= all);
            }
        }
        while i < bytes.len()
            invariant
                i <= bytes.len(),
                parse_prefixes(bytes@) == prepend_ok(networks@, parse_prefixes(bytes@.skip(i as int))),
            decreases bytes.len() - i,
        {
            let ghost s = bytes@.skip(i as int);
            let prefix = bytes[i];
            assert(s[0] == prefix);
            if prefix > 32 {
                return Err(ConvertBytesToBgpMessageError { kind: DecodeErrorKind::InvalidPrefixLength });
            }
            let k = (prefix as usize + 7) / 8;
            if k > bytes.len() - i - 1 {
                return Err(ConvertBytesToBgpMessageError { kind: DecodeErrorKind::Truncated });
            }
            let a = if k > 0 { bytes[i + 1] } else { 0 };
            let b = if k > 1 { bytes[i + 2] } else { 0 };
            let c = if k > 2 { bytes[i + 3] } else { 0 };
            let d = if k > 3 { bytes[i + 4] } else { 0 };
            let network = Ipv4Network { addr: Ipv4Address(a, b, c, d), prefix };
            let ghost acc = networks@;
            proof {
                assert(parse_prefix(s) == Ok::<(Ipv4Network, nat), DecodeErrorKind>((network, (1 + k) as nat)));
                assert(s.skip(1 + k) =~= bytes@.skip(i + 1 + k));
            }
            networks.push(network);
            i = i + 1 + k;
            proof {
                match parse_prefixes(bytes@.skip(i as int)) {
                    Ok(rest) => {
                        assert(networks@ + rest =~= acc + (seq![network] + rest));
                    },
                    Err(_) => {},
                }
            }
        }
        assert(bytes@.skip(i as int) =~= Seq::<u8>::empty());
        assert(networks@ + Seq::<Ipv4Network>::empty() =~= networks@);
        Ok(networks)
    }
}

} // verus!

verus! {

/// Appends the wire forms of the prefixes of `v` to `buf`, in order.
pub fn write_prefixes(v: &Vec<Ipv4Network>, buf: &mut BytesMut)
    requires
        all_wf(v@),
        buf_contents(*old(buf)).len() + prefixes_len(v@) <= max_buf_len(),
    ensures
        buf_contents(*final(buf)) == buf_contents(*old(buf)) + prefixes_bytes(v@),
{
    let ghost start = buf_contents(*buf);
    let mut i: usize = 0;
    proof {
        assert(v@.take(0) =~= Seq::<Ipv4Network>::empty());
        assert(prefixes_bytes(v@.take(0)) =~= Seq::<u8>::empty());
        assert(start + Seq::<u8>::empty() =~= start);
    }
    while i < v.len()
        invariant
            i <= v@.len(),
            all_wf(v@),
            start.len() + prefixes_len(v@) <= max_buf_len(),
            buf_contents(*buf) == start + prefixes_bytes(v@.take(i as int)),
        decreases v@.len() - i,
    {
        let p = v[i];
        assert(p.wf());
        proof {
            lemma_prefixes_bytes_push(v@.take(i as int), p);
            assert(v@.take(i as int).push(p) =~= v@.take(i + 1));
            lemma_prefixes_take_len(v@, i + 1);
        }
        p.write_bytes(buf);
        proof {
            lemma_prefixes_bytes_push(v@.take(i as int), p);
            assert(v@.take(i as int).push(p) =~= v@.take(i + 1));
            assert(start + prefixes_bytes(v@.take(i as int)) + p.wire_bytes() =~= start
                + prefixes_bytes(v@.take(i + 1)));
        }
        i += 1;
    }
    assert(v@.take(i as int) =~= v@);
}

/// Sum of the wire lengths of the prefixes of `v`.
pub fn prefixes_bytes_len(v: &Vec<Ipv4Network>) -> (r: usize)
    requires
        all_wf(v@),
        v@.len() <= 0x1000_0000,
    ensures
        r == prefixes_len(v@),
        r <= 5 * v@.len(),
{
    let mut total: usize = 0;
    let mut i: usize = 0;
    proof {
        assert(prefixes_bytes(v@.take(0)) =~= Seq::<u8>::empty());
    }
    while i < v.len()
        invariant
            i <= v@.len(),
            all_wf(v@),
            v@.len() <= 0x1000_0000,
            total == prefixes_len(v@.take(i as int)),
            total <= 5 * i,
        decreases v@.len() - i,
    {
        let p = v[i];
        assert(p.wf());
        proof {
            lemma_prefixes_bytes_push(v@.take(i as int), p);
            assert(v@.take(i as int).push(p) =~= v@.take(i + 1));
        }
        total = total + p.bytes_len();
        i += 1;
    }
    assert(v@.take(i as int) =~= v@);
    total
}

} // verus!

verus! {

/// Every prefix takes at least one octet.
pub proof fn lemma_prefixes_len_ge(s: Seq<Ipv4Network>)
    ensures
        prefixes_len(s) >= s.len(),
    decreases s.len(),
{
    if s.len() > 0 {
        lemma_prefixes_len_ge(s.drop_last());
        lemma_prefixes_bytes_push(s.drop_last(), s.last());
        assert(s.drop_last().push(s.last()) =~= s);
    }
}

} // verus!

verus! {

pub proof fn lemma_prefixes_take_len(s: Seq<Ipv4Network>, i: int)
    requires
        0 <= i <= s.len(),
    ensures
        prefixes_len(s.take(i)) <= prefixes_len(s),
    decreases s.len() - i,
{
    if i == s.len() {
        assert(s.take(i) =~= s);
    } else {
        lemma_prefixes_take_len(s, i + 1);
        lemma_prefixes_bytes_push(s.take(i), s[i]);
        assert(s.take(i).push(s[i]) =~= s.take(i + 1));
    }
}

} // verus!
