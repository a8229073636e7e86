use crate::bgp_type::{AutonomousSystemNumber, Ipv4Address};
use crate::error::ConfigParseError;
use vstd::prelude::*;
use vstd::string::StringSliceAdditionalSpecFns;

verus! {

/// Whether this speaker opens the TCP connection or waits for the peer's.
#[derive(PartialEq, Eq, Structural, Debug, Clone, Copy, Hash)]
pub enum Mode {
    Active,
    Passive,
}

/// The settings of one peer session; fixed for its lifetime.
#[derive(PartialEq, Eq, Structural, Debug, Clone, Copy, Hash)]
pub struct Config {
    pub local_as: AutonomousSystemNumber,
    pub local_ip: Ipv4Address,
    pub remote_as: AutonomousSystemNumber,
    pub remote_ip: Ipv4Address,
    pub mode: Mode,
}

impl Config {
    pub fn new(
        local_as: AutonomousSystemNumber,
        local_ip: Ipv4Address,
        remote_as: AutonomousSystemNumber,
        remote_ip: Ipv4Address,
        mode: Mode,
    ) -> (r: Self)
        ensures
            r == (Config { local_as, local_ip, remote_as, remote_ip, mode }),
    {
        Config { local_as, local_ip, remote_as, remote_ip, mode }
    }
}

} // verus!

verus! {

/// ASCII whitespace: space, tab, line feed, vertical tab, form feed, carriage return.
pub open spec fn is_space(c: u8) -> bool {
    c == 0x20 || (0x09 <= c && c <= 0x0d)
}

/// The ranges of the words of the first `n` octets of `s`: maximal runs of
/// octets that are not whitespace, in order.
pub open spec fn words(s: Seq<u8>, n: nat) -> Seq<(usize, usize)>
    decreases n,
{
    if n == 0 {
        Seq::empty()
    } else {
        let prev = words(s, (n - 1) as nat);
        if is_space(s[n - 1]) {
            prev
        } else if n >= 2 && !is_space(s[n - 2]) {
            prev.update(prev.len() - 1, (prev.last().0, n as usize))
        } else {
            prev.push(((n - 1) as usize, n as usize))
        }
    }
}

/// The ranges of the fields of the first `n` octets of `t`, separated by dots.
pub open spec fn dot_fields(t: Seq<u8>, n: nat) -> Seq<(usize, usize)>
    decreases n,
{
    if n == 0 {
        seq![(0usize, 0usize)]
    } else {
        let prev = dot_fields(t, (n - 1) as nat);
        if t[n - 1] == 0x2e {
            prev.push((n as usize, n as usize))
        } else {
            prev.update(prev.len() - 1, (prev.last().0, n as usize))
        }
    }
}

pub open spec fn is_digit(c: u8) -> bool {
    0x30 <= c && c <= 0x39
}

/// The number that the decimal digits `t` write.
pub open spec fn decimal(t: Seq<u8>) -> nat
    decreases t.len(),
{
    if t.len() == 0 {
        0
    } else {
        decimal(t.drop_last()) * 10 + (t.last() - 0x30) as nat
    }
}

/// The number that `t` writes in decimal, if it is one or more digits and
/// at most `max`.
pub open spec fn decimal_at_most(t: Seq<u8>, max: nat) -> Option<nat> {
    if t.len() > 0 && (forall|i: int| 0 <= i < t.len() ==> #[trigger] is_digit(t[i])) && decimal(t)
        <= max {
        Some(decimal(t))
    } else {
        None
    }
}

/// An octet of a dotted quad: a number up to 255 with no leading zero.
pub open spec fn octet_of(f: Seq<u8>) -> Option<u8> {
    if f.len() > 1 && f[0] == 0x30 {
        None
    } else {
        match decimal_at_most(f, 255) {
            Some(v) => Some(v as u8),
            None => None,
        }
    }
}

/// The field of `t` in the range `r`.
pub open spec fn field(t: Seq<u8>, r: (usize, usize)) -> Seq<u8> {
    t.subrange(r.0 as int, r.1 as int)
}

/// The address that `t` writes as a dotted quad, if it is one.
pub open spec fn ipv4_of(t: Seq<u8>) -> Option<Ipv4Address> {
    let f = dot_fields(t, t.len());
    if f.len() != 4 {
        None
    } else {
        match (
            octet_of(field(t, f[0])),
            octet_of(field(t, f[1])),
            octet_of(field(t, f[2])),
            octet_of(field(t, f[3])),
        ) {
            (Some(a), Some(b), Some(c), Some(d)) => Some(Ipv4Address(a, b, c, d)),
            _ => None,
        }
    }
}

pub open spec fn as_number_of(t: Seq<u8>) -> Option<AutonomousSystemNumber> {
    match decimal_at_most(t, 0xffff) {
        Some(v) => Some(AutonomousSystemNumber(v as u16)),
        None => None,
    }
}

pub open spec fn mode_of(t: Seq<u8>) -> Option<Mode> {
    if t == seq![0x61u8, 0x63, 0x74, 0x69, 0x76, 0x65] {
        Some(Mode::Active)
    } else if t == seq![0x70u8, 0x61, 0x73, 0x73, 0x69, 0x76, 0x65] {
        Some(Mode::Passive)
    } else {
        None
    }
}

/// The settings that the line `s` gives: five words, `<local_as> <local_ip>
/// <remote_as> <remote_ip> <active|passive>`.
pub open spec fn config_of(s: Seq<u8>) -> Option<Config> {
    let w = words(s, s.len());
    if w.len() != 5 {
        None
    } else {
        match (
            as_number_of(field(s, w[0])),
            ipv4_of(field(s, w[1])),
            as_number_of(field(s, w[2])),
            ipv4_of(field(s, w[3])),
            mode_of(field(s, w[4])),
        ) {
            (Some(local_as), Some(local_ip), Some(remote_as), Some(remote_ip), Some(mode)) => Some(
                Config { local_as, local_ip, remote_as, remote_ip, mode },
            ),
            _ => None,
        }
    }
}

pub proof fn lemma_words_last(s: Seq<u8>, n: nat)
    requires
        1 <= n <= s.len(),
        n <= usize::MAX,
        !is_space(s[n - 1]),
    ensures
        words(s, n).len() > 0,
        words(s, n).last().1 == n,
    decreases n,
{
    if n >= 2 && !is_space(s[n - 2]) {
        lemma_words_last(s, (n - 1) as nat);
    }
}

pub proof fn lemma_words_bounds(s: Seq<u8>, n: nat, k: int)
    requires
        n <= s.len(),
        n <= usize::MAX,
        0 <= k < words(s, n).len(),
    ensures
        words(s, n)[k].0 <= words(s, n)[k].1 <= n,
    decreases n,
{
    if n > 0 {
        let prev = words(s, (n - 1) as nat);
        if !is_space(s[n - 1]) && n >= 2 && !is_space(s[n - 2]) {
            lemma_words_last(s, (n - 1) as nat);
            lemma_words_bounds(s, (n - 1) as nat, prev.len() - 1);
        }
        if k < prev.len() {
            lemma_words_bounds(s, (n - 1) as nat, k);
        }
    }
}

pub proof fn lemma_dot_fields(t: Seq<u8>, n: nat)
    requires
        n <= t.len(),
        n <= usize::MAX,
    ensures
        dot_fields(t, n).len() >= 1,
        dot_fields(t, n).last().1 == n,
    decreases n,
{
    if n > 0 {
        lemma_dot_fields(t, (n - 1) as nat);
    }
}

pub proof fn lemma_dot_field_bounds(t: Seq<u8>, n: nat, k: int)
    requires
        n <= t.len(),
        n <= usize::MAX,
        0 <= k < dot_fields(t, n).len(),
    ensures
        dot_fields(t, n)[k].0 <= dot_fields(t, n)[k].1 <= n,
    decreases n,
{
    if n > 0 {
        let prev = dot_fields(t, (n - 1) as nat);
        lemma_dot_fields(t, (n - 1) as nat);
        lemma_dot_field_bounds(t, (n - 1) as nat, prev.len() - 1);
        if k < prev.len() {
            lemma_dot_field_bounds(t, (n - 1) as nat, k);
        }
    }
}

/// A longer run of digits writes no smaller a number.
pub proof fn lemma_decimal_prefix(t: Seq<u8>, k: int)
    requires
        0 <= k <= t.len(),
        forall|i: int| 0 <= i < t.len() ==> #[trigger] is_digit(t[i]),
    ensures
        decimal(t.take(k)) <= decimal(t),
    decreases t.len() - k,
{
    if k < t.len() {
        lemma_decimal_prefix(t, k + 1);
        assert(t.take(k + 1).drop_last() =~= t.take(k));
    } else {
        assert(t.take(k) =~= t);
    }
}

/// The ranges of the words of `s`.
fn word_ranges(s: &[u8]) -> (r: Vec<(usize, usize)>)
    ensures
        r@ == words(s@, s@.len()),
{
    let mut ranges: Vec<(usize, usize)> = Vec::new();
    let mut i: usize = 0;
    while i < s.len()
        invariant
            i <= s@.len(),
            ranges@ == words(s@, i as nat),
        decreases s@.len() - i,
    {
        let c = s[i];
        if c == 0x20 || (0x09 <= c && c <= 0x0d) {
        } else if i >= 1 && !(s[i - 1] == 0x20 || (0x09 <= s[i - 1] && s[i - 1] <= 0x0d)) {
            proof {
                lemma_words_last(s@, i as nat);
            }
            let last = ranges.len() - 1;
            let start = ranges[last].0;
            ranges.set(last, (start, i + 1));
        } else {
            ranges.push((i, i + 1));
        }
        i += 1;
    }
    ranges
}

/// The ranges of the dot-separated fields of `t`.
fn dot_ranges(t: &[u8]) -> (r: Vec<(usize, usize)>)
    ensures
        r@ == dot_fields(t@, t@.len()),
{
    let mut ranges: Vec<(usize, usize)> = Vec::new();
    ranges.push((0, 0));
    let mut i: usize = 0;
    assert(ranges@ =~= dot_fields(t@, 0));
    while i < t.len()
        invariant
            i <= t@.len(),
            ranges@ == dot_fields(t@, i as nat),
        decreases t@.len() - i,
    {
        proof {
            lemma_dot_fields(t@, i as nat);
        }
        if t[i] == 0x2e {
            ranges.push((i + 1, i + 1));
        } else {
            let last = ranges.len() - 1;
            let start = ranges[last].0;
            ranges.set(last, (start, i + 1));
        }
        i += 1;
    }
    ranges
}

/// The number that `t` writes in decimal, if it is one or more digits and
/// at most `max`.
fn read_decimal(t: &[u8], max: u32) -> (r: Option<u32>)
    requires
        max <= 0xffff,
    ensures
        match decimal_at_most(t@, max as nat) {
            Some(v) => r == Some(v as u32),
            None => r is None,
        },
{
    if t.len() == 0 {
        return None;
    }
    let mut value: u32 = 0;
    let mut i: usize = 0;
    while i < t.len()
        invariant
            i <= t@.len(),
            t@.len() > 0,
            max <= 0xffff,
            value as nat == decimal(t@.take(i as int)),
            value <= max,
            forall|k: int| 0 <= k < i ==> #[trigger] is_digit(t@[k]),
        decreases t@.len() - i,
    {
        let c = t[i];
        if !(0x30 <= c && c <= 0x39) {
            assert(!is_digit(t@[i as int]));
            return None;
        }
        assert(t@.take(i + 1).drop_last() =~= t@.take(i as int));
        value = value * 10 + (c - 0x30) as u32;
        i += 1;
        if value > max {
            proof {
                if forall|k: int| 0 <= k < t@.len() ==> #[trigger] is_digit(t@[k]) {
                    lemma_decimal_prefix(t@, i as int);
                }
            }
            return None;
        }
    }
    assert(t@.take(i as int) =~= t@);
    Some(value)
}

fn read_octet(t: &[u8]) -> (r: Option<u8>)
    ensures
        r == octet_of(t@),
{
    if t.len() > 1 && t[0] == 0x30 {
        return None;
    }
    match read_decimal(t, 255) {
        Some(v) => Some(v as u8),
        None => None,
    }
}

/// Reads a dotted quad.
fn read_ipv4(t: &[u8]) -> (r: Option<Ipv4Address>)
    ensures
        r == ipv4_of(t@),
{
    let f = dot_ranges(t);
    if f.len() != 4 {
        return None;
    }
    let n = t.len();
    proof {
        lemma_dot_field_bounds(t@, n as nat, 0);
        lemma_dot_field_bounds(t@, n as nat, 1);
        lemma_dot_field_bounds(t@, n as nat, 2);
        lemma_dot_field_bounds(t@, n as nat, 3);
    }
    let a = read_octet(&t[f[0].0..f[0].1]);
    let b = read_octet(&t[f[1].0..f[1].1]);
    let c = read_octet(&t[f[2].0..f[2].1]);
    let d = read_octet(&t[f[3].0..f[3].1]);
    match (a, b, c, d) {
        (Some(a), Some(b), Some(c), Some(d)) => Some(Ipv4Address(a, b, c, d)),
        _ => None,
    }
}

fn read_as_number(t: &[u8]) -> (r: Option<AutonomousSystemNumber>)
    ensures
        r == as_number_of(t@),
{
    match read_decimal(t, 0xffff) {
        Some(v) => Some(AutonomousSystemNumber(v as u16)),
        None => None,
    }
}

fn read_mode(t: &[u8]) -> (r: Option<Mode>)
    ensures
        r == mode_of(t@),
{
    let active: [u8; 6] = [0x61, 0x63, 0x74, 0x69, 0x76, 0x65];
    let passive: [u8; 7] = [0x70, 0x61, 0x73, 0x73, 0x69, 0x76, 0x65];
    if t.len() == 6 {
        let mut i: usize = 0;
        while i < 6
            invariant
                t@.len() == 6,
                i <= 6,
                active@ == seq![0x61u8, 0x63, 0x74, 0x69, 0x76, 0x65],
                forall|k: int| 0 <= k < i ==> t@[k] == active@[k],
            decreases 6 - i,
        {
            if t[i] != active[i] {
                assert(t@ != seq![0x61u8, 0x63, 0x74, 0x69, 0x76, 0x65]);
                return None;
            }
            i += 1;
        }
        assert(t@ =~= seq![0x61u8, 0x63, 0x74, 0x69, 0x76, 0x65]);
        Some(Mode::Active)
    } else if t.len() == 7 {
        let mut i: usize = 0;
        while i < 7
            invariant
                t@.len() == 7,
                i <= 7,
                passive@ == seq![0x70u8, 0x61, 0x73, 0x73, 0x69, 0x76, 0x65],
                forall|k: int| 0 <= k < i ==> t@[k] == passive@[k],
            decreases 7 - i,
        {
            if t[i] != passive[i] {
                assert(t@ != seq![0x70u8, 0x61, 0x73, 0x73, 0x69, 0x76, 0x65]);
                return None;
            }
            i += 1;
        }
        assert(t@ =~= seq![0x70u8, 0x61, 0x73, 0x73, 0x69, 0x76, 0x65]);
        Some(Mode::Passive)
    } else {
        None
    }
}

impl Config {
    /// Reads a configuration line: five words separated by whitespace,
    /// `<local_as> <local_ip> <remote_as> <remote_ip> <active|passive>`, with
    /// AS numbers in decimal up to 65535 and addresses as dotted quads.
    pub fn parse(s: &str) -> (r: Result<Config, ConfigParseError>)
        ensures
            match config_of(s.spec_bytes()) {
                Some(c) => r == Ok::<Config, ConfigParseError>(c),
                None => r is Err,
            },
    {
        let bytes = s.as_bytes();
        let w = word_ranges(bytes);
        if w.len() != 5 {
            return Err(ConfigParseError);
        }
        let n = bytes.len();
        proof {
            lemma_words_bounds(bytes@, n as nat, 0);
            lemma_words_bounds(bytes@, n as nat, 1);
            lemma_words_bounds(bytes@, n as nat, 2);
            lemma_words_bounds(bytes@, n as nat, 3);
            lemma_words_bounds(bytes@, n as nat, 4);
        }
        let local_as = read_as_number(&bytes[w[0].0..w[0].1]);
        let local_ip = read_ipv4(&bytes[w[1].0..w[1].1]);
        let remote_as = read_as_number(&bytes[w[2].0..w[2].1]);
        let remote_ip = read_ipv4(&bytes[w[3].0..w[3].1]);
        let mode = read_mode(&bytes[w[4].0..w[4].1]);
        match (local_as, local_ip, remote_as, remote_ip, mode) {
            (Some(local_as), Some(local_ip), Some(remote_as), Some(remote_ip), Some(mode)) => Ok(
                Config { local_as, local_ip, remote_as, remote_ip, mode },
            ),
            _ => Err(ConfigParseError),
        }
    }
}

} // verus!
