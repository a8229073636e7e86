use crate::bgp_type::{AutonomousSystemNumber, Ipv4Address};
use crate::buffer::{be16, be16_bytes, buf_contents, max_buf_len, new_buf, put_slice, put_u16, put_u8, read_be16};
use crate::error::{ConvertBytesToBgpMessageError, DecodeErrorKind};
use bytes::BytesMut;
use vstd::prelude::*;

verus! {

/// Where the routing information came from.
#[derive(Debug, PartialEq, Eq, Structural, Hash, Clone, Copy)]
pub enum Origin {
    Igp,
    Egp,
    Incomplete,
}

impl Origin {
    pub open spec fn code(self) -> u8 {
        match self {
            Origin::Igp => 0,
            Origin::Egp => 1,
            Origin::Incomplete => 2,
        }
    }

    pub open spec fn from_code(c: u8) -> Option<Origin> {
        if c == 0 {
            Some(Origin::Igp)
        } else if c == 1 {
            Some(Origin::Egp)
        } else if c == 2 {
            Some(Origin::Incomplete)
        } else {
            None
        }
    }

    /// The ORIGIN value octet.
    pub fn to_u8(&self) -> (r: u8)
        ensures
            r == self.code(),
    {
        match self {
            Origin::Igp => 0,
            Origin::Egp => 1,
            Origin::Incomplete => 2,
        }
    }

    /// The origin that the value octet `c` names, if any.
    pub fn from_u8(c: u8) -> (r: Option<Origin>)
        ensures
            r == Self::from_code(c),
    {
        if c == 0 {
            Some(Origin::Igp)
        } else if c == 1 {
            Some(Origin::Egp)
        } else if c == 2 {
            Some(Origin::Incomplete)
        } else {
            None
        }
    }
}

/// One AS_PATH segment: an ordered sequence of AS numbers, or a set of them
/// held in ascending order without repeats.
#[derive(Debug, PartialEq, Eq, Clone, Hash)]
pub enum AsPath {
    AsSequence(Vec<AutonomousSystemNumber>),
    AsSet(Vec<AutonomousSystemNumber>),
}

/// The mathematical value of an `AsPath`.
pub enum AsPathView {
    Ordered(Seq<AutonomousSystemNumber>),
    Unordered(Seq<AutonomousSystemNumber>),
}

impl View for AsPath {
    type V = AsPathView;

    open spec fn view(&self) -> AsPathView {
        match self {
            AsPath::AsSequence(v) => AsPathView::Ordered(v@),
            AsPath::AsSet(v) => AsPathView::Unordered(v@),
        }
    }
}

/// Each AS number of `s` is below the next one.
pub open spec fn strictly_increasing(s: Seq<AutonomousSystemNumber>) -> bool {
    forall|i: int, j: int| 0 <= i < j < s.len() ==> #[trigger] s[i].0 < #[trigger] s[j].0
}

/// `s`, which is in ascending order, with `x` added in its place unless it is there.
pub open spec fn insert_sorted(s: Seq<AutonomousSystemNumber>, x: AutonomousSystemNumber) -> Seq<
    AutonomousSystemNumber,
>
    decreases s.len(),
{
    if s.len() == 0 {
        seq![x]
    } else if x.0 < s[0].0 {
        seq![x] + s
    } else if x.0 == s[0].0 {
        s
    } else {
        seq![s[0]] + insert_sorted(s.skip(1), x)
    }
}

/// The AS numbers of `s` in ascending order, each once.
pub open spec fn sorted_set(s: Seq<AutonomousSystemNumber>) -> Seq<AutonomousSystemNumber>
    decreases s.len(),
{
    if s.len() == 0 {
        Seq::empty()
    } else {
        insert_sorted(sorted_set(s.drop_last()), s.last())
    }
}

/// The wire form of one AS number.
pub open spec fn as_chunks(s: Seq<AutonomousSystemNumber>) -> Seq<Seq<u8>> {
    s.map_values(|a: AutonomousSystemNumber| be16_bytes(a.0))
}

/// The AS numbers of `s`, two octets each, big-endian.
pub open spec fn as_bytes(s: Seq<AutonomousSystemNumber>) -> Seq<u8> {
    as_chunks(s).flatten()
}

impl AsPathView {
    pub open spec fn ases(self) -> Seq<AutonomousSystemNumber> {
        match self {
            AsPathView::Ordered(s) => s,
            AsPathView::Unordered(s) => s,
        }
    }

    /// AS_SET is segment type 1, AS_SEQUENCE 2.
    pub open spec fn segment_type(self) -> u8 {
        match self {
            AsPathView::Unordered(_) => 1,
            AsPathView::Ordered(_) => 2,
        }
    }

    /// At most 255 AS numbers, as the one-octet segment length allows; a set
    /// in ascending order without repeats.
    pub open spec fn wf(self) -> bool {
        &&& self.ases().len() <= 255
        &&& (self is Unordered ==> strictly_increasing(self.ases()))
    }

    /// The attribute value: segment type, segment length, then the AS numbers.
    pub open spec fn value_bytes(self) -> Seq<u8> {
        seq![self.segment_type(), self.ases().len() as u8] + as_bytes(self.ases())
    }
}

/// The AS number in the octets at `2 + 2 * i` and `3 + 2 * i` of `v`.
pub open spec fn as_at(v: Seq<u8>, i: int) -> AutonomousSystemNumber {
    AutonomousSystemNumber(be16(v[2 + 2 * i], v[3 + 2 * i]))
}

/// Reads an AS_PATH value that holds one segment.
pub open spec fn parse_as_path(v: Seq<u8>) -> Result<AsPathView, DecodeErrorKind> {
    if v.len() < 2 {
        Err(DecodeErrorKind::MalformedAttribute)
    } else if v[0] != 1 && v[0] != 2 {
        Err(DecodeErrorKind::InvalidAsPathSegmentType)
    } else if v.len() != 2 + 2 * v[1] {
        Err(DecodeErrorKind::MalformedAttribute)
    } else {
        let ases = Seq::new(v[1] as nat, |i: int| as_at(v, i));
        if v[0] == 1 {
            Ok(AsPathView::Unordered(sorted_set(ases)))
        } else {
            Ok(AsPathView::Ordered(ases))
        }
    }
}

pub proof fn lemma_as_bytes_push(s: Seq<AutonomousSystemNumber>, a: AutonomousSystemNumber)
    ensures
        as_bytes(s.push(a)) == as_bytes(s) + be16_bytes(a.0),
{
    assert(as_chunks(s.push(a)) =~= as_chunks(s).push(be16_bytes(a.0)));
    as_chunks(s).lemma_flatten_push(be16_bytes(a.0));
}

pub proof fn lemma_as_bytes_len(s: Seq<AutonomousSystemNumber>)
    ensures
        as_bytes(s).len() == 2 * s.len(),
        forall|i: int|
            0 <= i < s.len() ==> {
                &&& #[trigger] as_bytes(s)[2 * i] == be16_bytes(s[i].0)[0]
                &&& as_bytes(s)[2 * i + 1] == be16_bytes(s[i].0)[1]
            },
    decreases s.len(),
{
    if s.len() == 0 {
        assert(as_bytes(s) =~= Seq::<u8>::empty());
    } else {
        lemma_as_bytes_len(s.drop_last());
        lemma_as_bytes_push(s.drop_last(), s.last());
        assert(s.drop_last().push(s.last()) =~= s);
        assert forall|i: int| 0 <= i < s.len() implies {
            &&& #[trigger] as_bytes(s)[2 * i] == be16_bytes(s[i].0)[0]
            &&& as_bytes(s)[2 * i + 1] == be16_bytes(s[i].0)[1]
        } by {
            if i < s.len() - 1 {
                assert(s.drop_last()[i] == s[i]);
                assert(as_bytes(s.drop_last())[2 * i] == be16_bytes(s[i].0)[0]);
            }
        }
    }
}

/// With every element of `s` below `x`, inserting `x` places it at the end.
/// Where `x` has a place at `j` instead, it goes there.
pub proof fn lemma_insert_sorted_at(s: Seq<AutonomousSystemNumber>, x: AutonomousSystemNumber, j: int)
    requires
        strictly_increasing(s),
        0 <= j <= s.len(),
        forall|i: int| 0 <= i < j ==> #[trigger] s[i].0 < x.0,
        j == s.len() || s[j].0 >= x.0,
    ensures
        insert_sorted(s, x) == (if j < s.len() && s[j].0 == x.0 {
            s
        } else {
            s.take(j).push(x) + s.skip(j)
        }),
    decreases j,
{
    if j == 0 {
        if s.len() == 0 {
            assert(s.take(0).push(x) + s.skip(0) =~= seq![x]);
        } else {
            assert(s.take(0).push(x) + s.skip(0) =~= seq![x] + s);
        }
    } else {
        let t = s.skip(1);
        assert(s[0].0 < x.0);
        assert forall|i: int| 0 <= i < j - 1 implies #[trigger] t[i].0 < x.0 by {
            assert(t[i] == s[i + 1]);
        }
        lemma_insert_sorted_at(t, x, j - 1);
        if j < s.len() && s[j].0 == x.0 {
            assert(seq![s[0]] + t =~= s);
        } else {
            assert(seq![s[0]] + (t.take(j - 1).push(x) + t.skip(j - 1)) =~= s.take(j).push(x) + s.skip(
                j,
            ));
        }
    }
}

pub proof fn lemma_insert_at_increasing(s: Seq<AutonomousSystemNumber>, x: AutonomousSystemNumber, j: int)
    requires
        strictly_increasing(s),
        0 <= j <= s.len(),
        forall|i: int| 0 <= i < j ==> #[trigger] s[i].0 < x.0,
        j == s.len() || s[j].0 > x.0,
    ensures
        strictly_increasing(s.take(j).push(x) + s.skip(j)),
{
    let r = s.take(j).push(x) + s.skip(j);
    assert forall|a: int, b: int| 0 <= a < b < r.len() implies #[trigger] r[a].0 < #[trigger] r[b].0 by {
        if b < j {
            assert(r[a] == s[a] && r[b] == s[b]);
        } else if b == j {
            assert(r[a] == s[a]);
        } else if a < j {
            assert(r[a] == s[a] && r[b] == s[b - 1]);
        } else if a == j {
            assert(r[b] == s[b - 1]);
            assert(s[j].0 <= s[b - 1].0);
        } else {
            assert(r[a] == s[a - 1] && r[b] == s[b - 1]);
        }
    }
}

/// A set already in ascending order without repeats is its own sorted set.
pub proof fn lemma_sorted_set_of_increasing(s: Seq<AutonomousSystemNumber>)
    requires
        strictly_increasing(s),
    ensures
        sorted_set(s) == s,
    decreases s.len(),
{
    if s.len() > 0 {
        let t = s.drop_last();
        assert(strictly_increasing(t));
        lemma_sorted_set_of_increasing(t);
        lemma_insert_sorted_at(t, s.last(), t.len() as int);
        assert(t.take(t.len() as int).push(s.last()) + t.skip(t.len() as int) =~= s);
    }
}

/// Adds `x` to the ascending, repeat-free `v` in its place, unless it is there.
fn insert_as(v: &mut Vec<AutonomousSystemNumber>, x: AutonomousSystemNumber)
    requires
        strictly_increasing(old(v)@),
    ensures
        final(v)@ == insert_sorted(old(v)@, x),
        strictly_increasing(final(v)@),
{
    let mut j: usize = 0;
    while j < v.len() && v[j].0 < x.0
        invariant
            j <= v@.len(),
            forall|i: int| 0 <= i < j ==> #[trigger] v@[i].0 < x.0,
        decreases v@.len() - j,
    {
        j += 1;
    }
    proof {
        lemma_insert_sorted_at(v@, x, j as int);
    }
    if j < v.len() && v[j].0 == x.0 {
        return;
    }
    proof {
        lemma_insert_at_increasing(v@, x, j as int);
    }
    v.insert(j, x);
    assert(v@ =~= old(v)@.take(j as int).push(x) + old(v)@.skip(j as int));
}

} // verus!

verus! {

/// A path attribute of an UPDATE. An attribute of a type this speaker does
/// not know keeps its whole wire form, flags to value, so that it is written
/// back unchanged.
#[derive(Debug, PartialEq, Eq, Clone, Hash)]
pub enum PathAttribute {
    Origin(Origin),
    AsPath(AsPath),
    NextHop(Ipv4Address),
    DontKnow(Vec<u8>),
}

/// The mathematical value of a `PathAttribute`.
pub enum PathAttributeView {
    Origin(Origin),
    AsPath(AsPathView),
    NextHop(Ipv4Address),
    DontKnow(Seq<u8>),
}

impl View for PathAttribute {
    type V = PathAttributeView;

    open spec fn view(&self) -> PathAttributeView {
        match self {
            PathAttribute::Origin(o) => PathAttributeView::Origin(*o),
            PathAttribute::AsPath(a) => PathAttributeView::AsPath(a@),
            PathAttribute::NextHop(n) => PathAttributeView::NextHop(*n),
            PathAttribute::DontKnow(v) => PathAttributeView::DontKnow(v@),
        }
    }
}

/// The flags octet: Transitive (0x40), and Extended Length (0x10) where the
/// value is longer than 255 octets.
pub open spec fn attr_flags(value_len: nat) -> u8 {
    if value_len > 255 {
        0x50
    } else {
        0x40
    }
}

/// Flags, type code and length: two octets of length with Extended Length, else one.
pub open spec fn attr_header(type_code: u8, value_len: nat) -> Seq<u8> {
    if value_len > 255 {
        seq![attr_flags(value_len), type_code] + be16_bytes(value_len as u16)
    } else {
        seq![attr_flags(value_len), type_code, value_len as u8]
    }
}

/// An attribute's header, then its value.
pub open spec fn attr_frame(type_code: u8, value: Seq<u8>) -> Seq<u8> {
    attr_header(type_code, value.len()) + value
}

/// The Extended Length bit of a flags octet.
pub open spec fn has_extended_length(flags: u8) -> bool {
    flags & 0x10 != 0
}

/// Octets before an attribute's value: flags, type and one or two of length.
pub open spec fn attr_header_len(flags: u8) -> nat {
    if has_extended_length(flags) {
        4
    } else {
        3
    }
}

/// The value length that the attribute at the front of `s` declares.
pub open spec fn declared_value_len(s: Seq<u8>) -> nat {
    if has_extended_length(s[0]) {
        be16(s[2], s[3]) as nat
    } else {
        s[2] as nat
    }
}

/// Reads one path attribute from the front of `s`: the attribute and the
/// octets it took.
pub open spec fn parse_attr(s: Seq<u8>) -> Result<(PathAttributeView, nat), DecodeErrorKind> {
    if s.len() < 3 || s.len() < attr_header_len(s[0]) {
        Err(DecodeErrorKind::Truncated)
    } else if attr_header_len(s[0]) + declared_value_len(s) > s.len() {
        Err(DecodeErrorKind::Truncated)
    } else {
        let hl = attr_header_len(s[0]);
        let n = hl + declared_value_len(s);
        let v = s.subrange(hl as int, n as int);
        if s[1] == 1 {
            if v.len() != 1 {
                Err(DecodeErrorKind::MalformedAttribute)
            } else {
                match Origin::from_code(v[0]) {
                    Some(o) => Ok((PathAttributeView::Origin(o), n)),
                    None => Err(DecodeErrorKind::InvalidOrigin),
                }
            }
        } else if s[1] == 2 {
            match parse_as_path(v) {
                Ok(a) => Ok((PathAttributeView::AsPath(a), n)),
                Err(e) => Err(e),
            }
        } else if s[1] == 3 {
            if v.len() != 4 {
                Err(DecodeErrorKind::MalformedAttribute)
            } else {
                Ok((PathAttributeView::NextHop(Ipv4Address(v[0], v[1], v[2], v[3])), n))
            }
        } else {
            Ok((PathAttributeView::DontKnow(s.subrange(0, n as int)), n))
        }
    }
}

/// Reads path attributes one after another until `s` is used up.
pub open spec fn parse_attrs(s: Seq<u8>) -> Result<Seq<PathAttributeView>, DecodeErrorKind>
    decreases s.len(),
{
    if s.len() == 0 {
        Ok(Seq::empty())
    } else {
        match parse_attr(s) {
            Err(e) => Err(e),
            Ok((a, n)) => match parse_attrs(s.skip(n as int)) {
                Err(e) => Err(e),
                Ok(rest) => Ok(seq![a] + rest),
            },
        }
    }
}

impl PathAttributeView {
    /// The length of the attribute's value.
    pub open spec fn value_len(self) -> nat {
        match self {
            PathAttributeView::Origin(_) => 1,
            PathAttributeView::AsPath(a) => a.value_bytes().len(),
            PathAttributeView::NextHop(_) => 4,
            PathAttributeView::DontKnow(v) => declared_value_len(v),
        }
    }

    /// The wire form of the attribute.
    pub open spec fn wire_bytes(self) -> Seq<u8> {
        match self {
            PathAttributeView::Origin(o) => attr_frame(1, seq![o.code()]),
            PathAttributeView::AsPath(a) => attr_frame(2, a.value_bytes()),
            PathAttributeView::NextHop(n) => attr_frame(3, n.octet_seq()),
            PathAttributeView::DontKnow(v) => v,
        }
    }

    /// An AS_PATH is well formed; an attribute of unknown type is the whole
    /// wire form of one attribute whose type code is not 1, 2 or 3.
    pub open spec fn wf(self) -> bool {
        match self {
            PathAttributeView::AsPath(a) => a.wf(),
            PathAttributeView::DontKnow(v) => parse_attr(v) == Ok::<
                (PathAttributeView, nat),
                DecodeErrorKind,
            >((self, v.len())),
            _ => true,
        }
    }
}

/// The views of the attributes of `s`.
pub open spec fn attrs_view(s: Seq<PathAttribute>) -> Seq<PathAttributeView> {
    s.map_values(|a: PathAttribute| a@)
}

/// The wire forms of the attributes of `s`, one for each.
pub open spec fn attr_chunks(s: Seq<PathAttributeView>) -> Seq<Seq<u8>> {
    s.map_values(|a: PathAttributeView| a.wire_bytes())
}

/// The wire forms of the attributes of `s`, one after another.
pub open spec fn attrs_bytes(s: Seq<PathAttributeView>) -> Seq<u8> {
    attr_chunks(s).flatten()
}

/// Every attribute of `s` is well formed.
pub open spec fn attrs_wf(s: Seq<PathAttributeView>) -> bool {
    forall|i: int| 0 <= i < s.len() ==> #[trigger] s[i].wf()
}

pub proof fn lemma_attrs_bytes_push(s: Seq<PathAttributeView>, a: PathAttributeView)
    ensures
        attrs_bytes(s.push(a)) == attrs_bytes(s) + a.wire_bytes(),
{
    assert(attr_chunks(s.push(a)) =~= attr_chunks(s).push(a.wire_bytes()));
    attr_chunks(s).lemma_flatten_push(a.wire_bytes());
}

pub proof fn lemma_attrs_bytes_front(s: Seq<PathAttributeView>)
    requires
        s.len() > 0,
    ensures
        attrs_bytes(s) == s[0].wire_bytes() + attrs_bytes(s.skip(1)),
{
    assert(attr_chunks(s).drop_first() =~= attr_chunks(s.skip(1)));
}

} // verus!

verus! {

proof fn lemma_flag_bits()
    ensures
        !has_extended_length(0x40),
        has_extended_length(0x50),
{
    assert(0x40u8 & 0x10u8 == 0) by (bit_vector);
    assert(0x50u8 & 0x10u8 != 0) by (bit_vector);
}

/// Octets after a complete attribute do not change how it reads.
pub proof fn lemma_parse_attr_extend(s: Seq<u8>, t: Seq<u8>)
    requires
        parse_attr(s) is Ok,
    ensures
        parse_attr(s + t) == parse_attr(s),
{
    let st = s + t;
    let hl = attr_header_len(s[0]);
    let n = hl + declared_value_len(s);
    assert(st[0] == s[0] && st[1] == s[1] && st[2] == s[2]);
    if hl == 4 {
        assert(st[3] == s[3]);
    }
    assert(declared_value_len(st) == declared_value_len(s));
    assert(st.subrange(hl as int, n as int) =~= s.subrange(hl as int, n as int));
    assert(st.subrange(0, n as int) =~= s.subrange(0, n as int));
}

/// The value of a well-formed AS_PATH reads back as that AS_PATH.
pub proof fn lemma_as_path_round_trip(a: AsPathView)
    requires
        a.wf(),
    ensures
        parse_as_path(a.value_bytes()) == Ok::<AsPathView, DecodeErrorKind>(a),
{
    let v = a.value_bytes();
    let s = a.ases();
    lemma_as_bytes_len(s);
    let parsed = Seq::new(v[1] as nat, |i: int| as_at(v, i));
    assert(v[1] == s.len());
    assert forall|i: int| 0 <= i < s.len() implies parsed[i] == s[i] by {
        assert(v[2 + 2 * i] == as_bytes(s)[2 * i]);
        assert(v[3 + 2 * i] == as_bytes(s)[2 * i + 1]);
        crate::buffer::lemma_be16_round_trip(s[i].0);
    }
    assert(parsed =~= s);
    if a is Unordered {
        lemma_sorted_set_of_increasing(s);
    }
}

/// A well-formed attribute reads back from its wire form, whatever follows it.
pub proof fn lemma_attr_round_trip(a: PathAttributeView, rest: Seq<u8>)
    requires
        a.wf(),
    ensures
        parse_attr(a.wire_bytes() + rest) == Ok::<(PathAttributeView, nat), DecodeErrorKind>(
            (a, a.wire_bytes().len()),
        ),
{
    lemma_flag_bits();
    let w = a.wire_bytes();
    match a {
        PathAttributeView::Origin(o) => {
            assert(w.subrange(3, 4) =~= seq![o.code()]);
        },
        PathAttributeView::AsPath(p) => {
            let value = p.value_bytes();
            lemma_as_bytes_len(p.ases());
            lemma_as_path_round_trip(p);
            if value.len() > 255 {
                crate::buffer::lemma_be16_round_trip(value.len() as u16);
                assert(w.subrange(4, 4 + value.len() as int) =~= value);
            } else {
                assert(w.subrange(3, 3 + value.len() as int) =~= value);
            }
        },
        PathAttributeView::NextHop(n) => {
            assert(w.subrange(3, 7) =~= n.octet_seq());
        },
        PathAttributeView::DontKnow(v) => {},
    }
    lemma_parse_attr_extend(w, rest);
}

/// Reading back the concatenated wire forms of well-formed attributes gives
/// the same attributes, in order.
pub proof fn lemma_attrs_round_trip(s: Seq<PathAttributeView>)
    requires
        attrs_wf(s),
    ensures
        parse_attrs(attrs_bytes(s)) == Ok::<Seq<PathAttributeView>, DecodeErrorKind>(s),
    decreases s.len(),
{
    if s.len() == 0 {
        assert(attrs_bytes(s) =~= Seq::<u8>::empty());
        assert(s =~= Seq::<PathAttributeView>::empty());
    } else {
        let tail = s.skip(1);
        lemma_attrs_bytes_front(s);
        assert(attrs_wf(tail)) by {
            assert forall|i: int| 0 <= i < tail.len() implies #[trigger] tail[i].wf() by {
                assert(tail[i] == s[i + 1]);
            }
        }
        lemma_attrs_round_trip(tail);
        let b = attrs_bytes(s);
        let w = s[0].wire_bytes();
        lemma_attr_round_trip(s[0], attrs_bytes(tail));
        assert(b.skip(w.len() as int) =~= attrs_bytes(tail));
        assert(seq![s[0]] + tail =~= s);
    }
}

/// The Extended Length flag of a known attribute's wire form is set exactly
/// when its value is longer than 255 octets.
pub proof fn lemma_extended_length_flag(a: PathAttributeView)
    requires
        a.wf(),
        !(a is DontKnow),
    ensures
        has_extended_length(a.wire_bytes()[0]) <==> a.value_len() > 255,
        a.wire_bytes().len() == a.value_len() + attr_header_len(a.wire_bytes()[0]),
{
    lemma_flag_bits();
    if let PathAttributeView::AsPath(p) = a {
        lemma_as_bytes_len(p.ases());
    }
}

} // verus!

verus! {

impl AsPath {
    fn ases(&self) -> (r: &Vec<AutonomousSystemNumber>)
        ensures
            r@ == self@.ases(),
    {
        match self {
            AsPath::AsSequence(v) => v,
            AsPath::AsSet(v) => v,
        }
    }

    /// Octets of the attribute value: two, then two for each AS number.
    pub fn bytes_len(&self) -> (r: usize)
        requires
            self@.wf(),
        ensures
            r == self@.value_bytes().len(),
            r == 2 + 2 * self@.ases().len(),
    {
        proof {
            lemma_as_bytes_len(self@.ases());
        }
        2 + 2 * self.ases().len()
    }

    /// Appends the attribute value to `buf`.
    pub fn write_value(&self, buf: &mut BytesMut)
        requires
            self@.wf(),
            buf_contents(*old(buf)).len() + self@.value_bytes().len() <= max_buf_len(),
        ensures
            buf_contents(*final(buf)) == buf_contents(*old(buf)) + self@.value_bytes(),
    {
        let ghost start = buf_contents(*buf);
        proof {
            lemma_as_bytes_len(self@.ases());
        }
        let segment_type: u8 = match self {
            AsPath::AsSet(_) => 1,
            AsPath::AsSequence(_) => 2,
        };
        let ases = self.ases();
        put_u8(buf, segment_type);
        put_u8(buf, ases.len() as u8);
        let ghost head = seq![segment_type, ases@.len() as u8];
        let mut i: usize = 0;
        proof {
            assert(ases@.take(0) =~= Seq::<AutonomousSystemNumber>::empty());
            assert(as_bytes(ases@.take(0)) =~= Seq::<u8>::empty());
            assert(buf_contents(*buf) =~= start + head + as_bytes(ases@.take(0)));
        }
        while i < ases.len()
            invariant
                i <= ases@.len(),
                ases@.len() <= 255,
                head.len() == 2,
                start.len() + 2 + 2 * ases@.len() <= max_buf_len(),
                buf_contents(*buf) == start + head + as_bytes(ases@.take(i as int)),
            decreases ases@.len() - i,
        {
            proof {
                lemma_as_bytes_len(ases@.take(i as int));
                assert(buf_contents(*buf).len() == start.len() + 2 + 2 * i);
            }
            let a = ases[i];
            put_u16(buf, a.0);
            proof {
                lemma_as_bytes_push(ases@.take(i as int), a);
                assert(ases@.take(i as int).push(a) =~= ases@.take(i + 1));
                assert(start + head + as_bytes(ases@.take(i as int)) + be16_bytes(a.0) =~= start + head
                    + as_bytes(ases@.take(i + 1)));
            }
            i += 1;
        }
        assert(ases@.take(i as int) =~= ases@);
        assert(start + head + as_bytes(ases@) =~= start + self@.value_bytes());
    }

    /// Reads an AS_PATH value that holds one segment. An AS_SET comes out in
    /// ascending order without repeats.
    pub fn from_value(v: &[u8]) -> (r: Result<AsPath, ConvertBytesToBgpMessageError>)
        ensures
            match r {
                Ok(a) => parse_as_path(v@) == Ok::<AsPathView, DecodeErrorKind>(a@),
                Err(e) => parse_as_path(v@) == Err::<AsPathView, DecodeErrorKind>(e.kind),
            },
    {
        if v.len() < 2 {
            return Err(ConvertBytesToBgpMessageError { kind: DecodeErrorKind::MalformedAttribute });
        }
        let segment_type = v[0];
        if segment_type != 1 && segment_type != 2 {
            return Err(
                ConvertBytesToBgpMessageError { kind: DecodeErrorKind::InvalidAsPathSegmentType },
            );
        }
        let count = v[1] as usize;
        if v.len() != 2 + 2 * count {
            return Err(ConvertBytesToBgpMessageError { kind: DecodeErrorKind::MalformedAttribute });
        }
        let ghost wire = Seq::new(count as nat, |i: int| as_at(v@, i));
        let mut ases: Vec<AutonomousSystemNumber> = Vec::new();
        let mut i: usize = 0;
        while i < count
            invariant
                i <= count,
                count <= 255,
                v@.len() == 2 + 2 * count,
                wire == Seq::new(count as nat, |i: int| as_at(v@, i)),
                ases@ =~= wire.take(i as int),
            decreases count - i,
        {
            let a = AutonomousSystemNumber(read_be16(v[2 + 2 * i], v[3 + 2 * i]));
            ases.push(a);
            i += 1;
        }
        assert(wire.take(count as int) =~= wire);
        if segment_type == 2 {
            return Ok(AsPath::AsSequence(ases));
        }
        let mut set: Vec<AutonomousSystemNumber> = Vec::new();
        let mut j: usize = 0;
        proof {
            assert(wire.take(0) =~= Seq::<AutonomousSystemNumber>::empty());
        }
        while j < count
            invariant
                j <= count,
                ases@ == wire,
                wire.len() == count,
                set@ == sorted_set(wire.take(j as int)),
                strictly_increasing(set@),
            decreases count - j,
        {
            insert_as(&mut set, ases[j]);
            assert(wire.take(j + 1).drop_last() =~= wire.take(j as int));
            j += 1;
        }
        assert(wire.take(count as int) =~= wire);
        Ok(AsPath::AsSet(set))
    }
}

/// Appends the flags, type code and length octets of an attribute to `buf`.
fn write_attr_header(buf: &mut BytesMut, type_code: u8, value_len: usize)
    requires
        value_len <= 0xffff,
        buf_contents(*old(buf)).len() + 4 <= max_buf_len(),
    ensures
        buf_contents(*final(buf)) == buf_contents(*old(buf)) + attr_header(type_code, value_len as nat),
{
    let ghost start = buf_contents(*buf);
    if value_len > 255 {
        put_u8(buf, 0x50);
        put_u8(buf, type_code);
        put_u16(buf, value_len as u16);
    } else {
        put_u8(buf, 0x40);
        put_u8(buf, type_code);
        put_u8(buf, value_len as u8);
    }
    assert(buf_contents(*buf) =~= start + attr_header(type_code, value_len as nat));
}

} // verus!

verus! {

impl PathAttribute {
    /// Octets of the wire form: the value and three octets of header, four
    /// with Extended Length; an attribute of unknown type is its kept octets.
    pub fn bytes_len(&self) -> (r: usize)
        requires
            self@.wf(),
        ensures
            r == self@.wire_bytes().len(),
    {
        match self {
            PathAttribute::Origin(_) => 4,
            PathAttribute::AsPath(a) => {
                let n = a.bytes_len();
                if n > 255 {
                    n + 4
                } else {
                    n + 3
                }
            },
            PathAttribute::NextHop(_) => 7,
            PathAttribute::DontKnow(v) => v.len(),
        }
    }

    /// Appends the wire form to `buf`.
    pub fn write_bytes(&self, buf: &mut BytesMut)
        requires
            self@.wf(),
            buf_contents(*old(buf)).len() + self@.wire_bytes().len() <= max_buf_len(),
        ensures
            buf_contents(*final(buf)) == buf_contents(*old(buf)) + self@.wire_bytes(),
    {
        let ghost start = buf_contents(*buf);
        match self {
            PathAttribute::Origin(o) => {
                write_attr_header(buf, 1, 1);
                put_u8(buf, o.to_u8());
            },
            PathAttribute::AsPath(a) => {
                let n = a.bytes_len();
                write_attr_header(buf, 2, n);
                a.write_value(buf);
            },
            PathAttribute::NextHop(n) => {
                write_attr_header(buf, 3, 4);
                put_u8(buf, n.0);
                put_u8(buf, n.1);
                put_u8(buf, n.2);
                put_u8(buf, n.3);
            },
            PathAttribute::DontKnow(v) => {
                put_slice(buf, v.as_slice());
            },
        }
        assert(buf_contents(*buf) =~= start + self@.wire_bytes());
    }

    /// The wire form as a new buffer.
    pub fn to_bytes(&self) -> (r: BytesMut)
        requires
            self@.wf(),
            self@.wire_bytes().len() <= max_buf_len(),
        ensures
            buf_contents(r) == self@.wire_bytes(),
    {
        let mut buf = new_buf();
        self.write_bytes(&mut buf);
        assert(Seq::<u8>::empty() + self@.wire_bytes() =~= self@.wire_bytes());
        buf
    }

    /// Reads the attribute that starts at `i` in `bytes`, and the octets it took.
    fn parse_at(bytes: &[u8], i: usize) -> (r: Result<(PathAttribute, usize), ConvertBytesToBgpMessageError>)
        requires
            i < bytes@.len(),
        ensures
            match r {
                Ok((a, n)) => parse_attr(bytes@.skip(i as int)) == Ok::<
                    (PathAttributeView, nat),
                    DecodeErrorKind,
                >((a@, n as nat)),
                Err(e) => parse_attr(bytes@.skip(i as int)) == Err::<
                    (PathAttributeView, nat),
                    DecodeErrorKind,
                >(e.kind),
            },
    {
        let ghost s = bytes@.skip(i as int);
        let rem = bytes.len() - i;
        if rem < 3 {
            return Err(ConvertBytesToBgpMessageError { kind: DecodeErrorKind::Truncated });
        }
        let flags = bytes[i];
        let extended = flags & 0x10 != 0;
        let hl: usize = if extended {
            4
        } else {
            3
        };
        assert(s[0] == flags);
        if rem < hl {
            return Err(ConvertBytesToBgpMessageError { kind: DecodeErrorKind::Truncated });
        }
        let vlen: usize = if extended {
            read_be16(bytes[i + 2], bytes[i + 3]) as usize
        } else {
            bytes[i + 2] as usize
        };
        assert(s[2] == bytes@[i + 2]);
        assert(hl == 4 ==> s[3] == bytes@[i + 3]);
        assert(vlen == declared_value_len(s));
        if vlen > rem - hl {
            return Err(ConvertBytesToBgpMessageError { kind: DecodeErrorKind::Truncated });
        }
        let type_code = bytes[i + 1];
        let start = i + hl;
        let end = start + vlen;
        let n = hl + vlen;
        assert(s.subrange(hl as int, n as int) =~= bytes@.subrange(start as int, end as int));
        assert(s[1] == type_code);
        if type_code == 1 {
            if vlen != 1 {
                return Err(ConvertBytesToBgpMessageError { kind: DecodeErrorKind::MalformedAttribute });
            }
            match Origin::from_u8(bytes[start]) {
                Some(o) => Ok((PathAttribute::Origin(o), n)),
                None => Err(ConvertBytesToBgpMessageError { kind: DecodeErrorKind::InvalidOrigin }),
            }
        } else if type_code == 2 {
            match AsPath::from_value(&bytes[start..end]) {
                Ok(a) => Ok((PathAttribute::AsPath(a), n)),
                Err(e) => Err(e),
            }
        } else if type_code == 3 {
            if vlen != 4 {
                return Err(ConvertBytesToBgpMessageError { kind: DecodeErrorKind::MalformedAttribute });
            }
            let addr = Ipv4Address(bytes[start], bytes[start + 1], bytes[start + 2], bytes[start + 3]);
            Ok((PathAttribute::NextHop(addr), n))
        } else {
            let kept = vstd::slice::slice_to_vec(&bytes[i..end]);
            assert(s.subrange(0, n as int) =~= kept@);
            Ok((PathAttribute::DontKnow(kept), n))
        }
    }

    /// Reads a sequence of path attributes that fills `bytes`.
    pub fn from_u8_slice(bytes: &[u8]) -> (r: Result<Vec<PathAttribute>, ConvertBytesToBgpMessageError>)
        ensures
            match r {
                Ok(v) => parse_attrs(bytes@) == Ok::<Seq<PathAttributeView>, DecodeErrorKind>(
                    attrs_view(v@),
                ),
                Err(e) => parse_attrs(bytes@) == Err::<Seq<PathAttributeView>, DecodeErrorKind>(
                    e.kind,
                ),
            },
    {
        let mut path_attributes: Vec<PathAttribute> = Vec::new();
        let mut i: usize = 0;
        proof {
            assert(bytes@.skip(0) =~= bytes@);
            if let Ok(all) = parse_attrs(bytes@) {
                assert(attrs_view(path_attributes@) + all =~= all);
            }
        }
        while i < bytes.len()
            invariant
                i <= bytes.len(),
                parse_attrs(bytes@) == prepend_attrs(
                    attrs_view(path_attributes@),
                    parse_attrs(bytes@.skip(i as int)),
                ),
            decreases bytes.len() - i,
        {
            let ghost s = bytes@.skip(i as int);
            let (attribute, n) = match PathAttribute::parse_at(bytes, i) {
                Ok(x) => x,
                Err(e) => {
                    return Err(e);
                },
            };
            let ghost acc = attrs_view(path_attributes@);
            let ghost a = attribute@;
            proof {
                assert(s.skip(n as int) =~= bytes@.skip(i + n));
            }
            path_attributes.push(attribute);
            i = i + n;
            proof {
                assert(attrs_view(path_attributes@) =~= acc.push(a));
                match parse_attrs(bytes@.skip(i as int)) {
                    Ok(rest) => {
                        assert(acc.push(a) + rest =~= acc + (seq![a] + rest));
                    },
                    Err(_) => {},
                }
            }
        }
        assert(bytes@.skip(i as int) =~= Seq::<u8>::empty());
        assert(attrs_view(path_attributes@) + Seq::<PathAttributeView>::empty() =~= attrs_view(
            path_attributes@,
        ));
        Ok(path_attributes)
    }
}

/// `acc` followed by what `r` holds, or the error of `r`.
pub open spec fn prepend_attrs(acc: Seq<PathAttributeView>, r: Result<Seq<PathAttributeView>, DecodeErrorKind>) -> Result<
    Seq<PathAttributeView>,
    DecodeErrorKind,
> {
    match r {
        Ok(rest) => Ok(acc + rest),
        Err(e) => Err(e),
    }
}

pub proof fn lemma_attrs_bytes_take_len(s: Seq<PathAttributeView>, i: int)
    requires
        0 <= i <= s.len(),
    ensures
        attrs_bytes(s.take(i)).len() <= attrs_bytes(s).len(),
    decreases s.len() - i,
{
    if i == s.len() {
        assert(s.take(i) =~= s);
    } else {
        lemma_attrs_bytes_take_len(s, i + 1);
        lemma_attrs_bytes_push(s.take(i), s[i]);
        assert(s.take(i).push(s[i]) =~= s.take(i + 1));
    }
}

/// Appends the wire forms of the attributes of `v` to `buf`, in order.
pub fn write_attrs(v: &Vec<PathAttribute>, buf: &mut BytesMut)
    requires
        attrs_wf(attrs_view(v@)),
        buf_contents(*old(buf)).len() + attrs_bytes(attrs_view(v@)).len() <= max_buf_len(),
    ensures
        buf_contents(*final(buf)) == buf_contents(*old(buf)) + attrs_bytes(attrs_view(v@)),
{
    let ghost start = buf_contents(*buf);
    let ghost views = attrs_view(v@);
    let mut i: usize = 0;
    proof {
        assert(views.take(0) =~= Seq::<PathAttributeView>::empty());
        assert(attrs_bytes(views.take(0)) =~= Seq::<u8>::empty());
        assert(start + Seq::<u8>::empty() =~= start);
    }
    while i < v.len()
        invariant
            i <= v@.len(),
            views == attrs_view(v@),
            attrs_wf(views),
            start.len() + attrs_bytes(views).len() <= max_buf_len(),
            buf_contents(*buf) == start + attrs_bytes(views.take(i as int)),
        decreases v@.len() - i,
    {
        let a = &v[i];
        proof {
            assert(views[i as int] == a@);
            assert(a@.wf());
            lemma_attrs_bytes_push(views.take(i as int), a@);
            assert(views.take(i as int).push(a@) =~= views.take(i + 1));
            lemma_attrs_bytes_take_len(views, i + 1);
        }
        a.write_bytes(buf);
        proof {
            assert(start + attrs_bytes(views.take(i as int)) + a@.wire_bytes() =~= start
                + attrs_bytes(views.take(i + 1)));
        }
        i += 1;
    }
    assert(views.take(i as int) =~= views);
}

/// Sum of the wire lengths of the attributes of `v`.
pub fn attrs_bytes_len(v: &Vec<PathAttribute>) -> (r: Option<usize>)
    requires
        attrs_wf(attrs_view(v@)),
    ensures
        r is Some <==> attrs_bytes(attrs_view(v@)).len() <= 0xffff,
        r matches Some(n) ==> n == attrs_bytes(attrs_view(v@)).len(),
{
    let ghost views = attrs_view(v@);
    let mut total: usize = 0;
    let mut i: usize = 0;
    proof {
        assert(views.take(0) =~= Seq::<PathAttributeView>::empty());
        assert(attrs_bytes(views.take(0)) =~= Seq::<u8>::empty());
    }
    while i < v.len()
        invariant
            i <= v@.len(),
            views == attrs_view(v@),
            attrs_wf(views),
            total == attrs_bytes(views.take(i as int)).len(),
            total <= 0xffff,
        decreases v@.len() - i,
    {
        let a = &v[i];
        proof {
            assert(views[i as int] == a@);
            lemma_attrs_bytes_push(views.take(i as int), a@);
            assert(views.take(i as int).push(a@) =~= views.take(i + 1));
        }
        let n = a.bytes_len();
        if n > 0xffff - total {
            proof {
                lemma_attrs_bytes_take_len(views, i + 1);
            }
            return None;
        }
        total = total + n;
        i += 1;
    }
    assert(views.take(i as int) =~= views);
    Some(total)
}

} // verus!
