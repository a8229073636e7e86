use vstd::prelude::*;

verus! {

/// A two-octet autonomous system number.
#[derive(PartialEq, Eq, Structural, Debug, Clone, Copy, Hash, PartialOrd, Ord)]
pub struct AutonomousSystemNumber(pub u16);

impl From<u16> for AutonomousSystemNumber {
    fn from(as_number: u16) -> (r: Self) {
        AutonomousSystemNumber(as_number)
    }
}

impl vstd::std_specs::convert::FromSpecImpl<u16> for AutonomousSystemNumber {
    open spec fn obeys_from_spec() -> bool {
        true
    }

    open spec fn from_spec(v: u16) -> Self {
        AutonomousSystemNumber(v)
    }
}

impl From<AutonomousSystemNumber> for u16 {
    fn from(as_number: AutonomousSystemNumber) -> (r: u16) {
        as_number.0
    }
}

impl vstd::std_specs::convert::FromSpecImpl<AutonomousSystemNumber> for u16 {
    open spec fn obeys_from_spec() -> bool {
        true
    }

    open spec fn from_spec(v: AutonomousSystemNumber) -> u16 {
        v.0
    }
}

/// The hold time announced in OPEN; zero disables the hold timer.
#[derive(PartialEq, Eq, Structural, Debug, Clone, Copy, Hash, PartialOrd, Ord)]
pub struct HoldTime(pub u16);

impl From<u16> for HoldTime {
    fn from(value: u16) -> (r: Self) {
        HoldTime(value)
    }
}

impl vstd::std_specs::convert::FromSpecImpl<u16> for HoldTime {
    open spec fn obeys_from_spec() -> bool {
        true
    }

    open spec fn from_spec(v: u16) -> Self {
        HoldTime(v)
    }
}

impl Default for HoldTime {
    fn default() -> (r: Self)
        ensures
            r.0 == 0,
    {
        HoldTime(0)
    }
}

impl HoldTime {
    /// The hold time this speaker announces: zero.
    pub fn new() -> (r: Self)
        ensures
            r.0 == 0,
    {
        HoldTime(0)
    }
}

/// The BGP version number, in `1..=4`.
#[derive(PartialEq, Eq, Structural, Debug, Clone, Copy, Hash, PartialOrd, Ord)]
pub struct Version(pub u8);

impl Version {
    pub open spec fn value(self) -> u8 {
        self.0
    }

    pub open spec fn is_valid_number(v: u8) -> bool {
        1 <= v <= 4
    }

    pub open spec fn wf(self) -> bool {
        Self::is_valid_number(self.0)
    }

    /// The version this speaker announces: 4.
    pub fn new() -> (r: Self)
        ensures
            r.value() == 4,
            r.wf(),
    {
        Version(4)
    }

    /// The version carried by the octet `v`, if it is one of `1..=4`.
    pub fn from_u8(v: u8) -> (r: Option<Self>)
        ensures
            r is Some <==> Self::is_valid_number(v),
            r matches Some(x) ==> x.value() == v,
    {
        if 1 <= v && v <= 4 {
            Some(Version(v))
        } else {
            None
        }
    }

    pub fn as_u8(&self) -> (r: u8)
        ensures
            r == self.value(),
    {
        self.0
    }
}

impl Default for Version {
    fn default() -> (r: Self)
        ensures
            r.value() == 4,
    {
        Version(4)
    }
}

} // verus!

verus! {

/// An IPv4 address as its four octets, most significant first.
#[derive(PartialEq, Eq, Structural, Debug, Clone, Copy, Hash, PartialOrd, Ord)]
pub struct Ipv4Address(pub u8, pub u8, pub u8, pub u8);

impl Ipv4Address {
    pub fn new(a: u8, b: u8, c: u8, d: u8) -> (r: Self)
        ensures
            r == Ipv4Address(a, b, c, d),
    {
        Ipv4Address(a, b, c, d)
    }

    /// The octet at position `i` (0 is the most significant).
    pub open spec fn octet(self, i: int) -> u8 {
        if i == 0 {
            self.0
        } else if i == 1 {
            self.1
        } else if i == 2 {
            self.2
        } else {
            self.3
        }
    }

    pub open spec fn octet_seq(self) -> Seq<u8> {
        seq![self.0, self.1, self.2, self.3]
    }

    pub fn octets(&self) -> (r: [u8; 4])
        ensures
            r@ == self.octet_seq(),
    {
        [self.0, self.1, self.2, self.3]
    }
}

} // verus!
