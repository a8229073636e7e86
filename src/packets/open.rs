use crate::bgp_type::{AutonomousSystemNumber, HoldTime, Ipv4Address, Version};
use crate::buffer::{be16, be16_bytes, buf_contents, max_buf_len, put_slice, put_u16, put_u8, read_be16};
use crate::error::{ConvertBytesToBgpMessageError, DecodeErrorKind};
use crate::packets::header::{Header, MessageType};
use bytes::BytesMut;
use vstd::prelude::*;

verus! {

/// Octets of an OPEN without optional parameters.
pub const OPEN_MIN_LEN: usize = 29;

/// An OPEN: version, AS number, hold time, BGP identifier and opaque optional
/// parameters.
#[derive(PartialEq, Eq, Debug, Clone, Hash)]
pub struct OpenMessage {
    pub header: Header,
    pub version: Version,
    pub my_as_number: AutonomousSystemNumber,
    pub hold_time: HoldTime,
    pub bgp_identifier: Ipv4Address,
    pub optional_parameters_length: u8,
    pub optional_parameters: Vec<u8>,
}

/// The mathematical value of an `OpenMessage`.
pub struct OpenMessageView {
    pub header: Header,
    pub version: Version,
    pub my_as_number: AutonomousSystemNumber,
    pub hold_time: HoldTime,
    pub bgp_identifier: Ipv4Address,
    pub optional_parameters_length: u8,
    pub optional_parameters: Seq<u8>,
}

impl View for OpenMessage {
    type V = OpenMessageView;

    open spec fn view(&self) -> OpenMessageView {
        OpenMessageView {
            header: self.header,
            version: self.version,
            my_as_number: self.my_as_number,
            hold_time: self.hold_time,
            bgp_identifier: self.bgp_identifier,
            optional_parameters_length: self.optional_parameters_length,
            optional_parameters: self.optional_parameters@,
        }
    }
}

impl OpenMessageView {
    /// The OPEN this speaker sends: version 4, hold time 0, the local AS and
    /// address, no optional parameters; 29 octets.
    pub open spec fn local(my_as_number: AutonomousSystemNumber, my_ip_addr: Ipv4Address) -> Self {
        OpenMessageView {
            header: Header { length: 29, type_: MessageType::Open },
            version: Version(4),
            my_as_number,
            hold_time: HoldTime(0),
            bgp_identifier: my_ip_addr,
            optional_parameters_length: 0,
            optional_parameters: Seq::empty(),
        }
    }

    /// The header gives the type OPEN and the exact length, the version is
    /// in `1..=4`, and the parameters length counts the parameters.
    pub open spec fn wf(self) -> bool {
        &&& self.header == (Header {
            length: (OPEN_MIN_LEN + self.optional_parameters.len()) as u16,
            type_: MessageType::Open,
        })
        &&& self.version.wf()
        &&& self.optional_parameters_length as nat == self.optional_parameters.len()
    }

    pub open spec fn wire_bytes(self) -> Seq<u8> {
        self.header.wire_bytes() + seq![self.version.0] + be16_bytes(self.my_as_number.0)
            + be16_bytes(self.hold_time.0) + self.bgp_identifier.octet_seq() + seq![
            self.optional_parameters_length,
        ] + self.optional_parameters
    }
}

/// Reads the body of an OPEN whose header `h` has been read, from the whole
/// message `s`.
pub open spec fn parse_open(s: Seq<u8>, h: Header) -> Result<OpenMessageView, DecodeErrorKind> {
    if s.len() < OPEN_MIN_LEN {
        Err(DecodeErrorKind::Truncated)
    } else if !Version::is_valid_number(s[19]) {
        Err(DecodeErrorKind::InvalidVersion)
    } else if OPEN_MIN_LEN + s[28] > s.len() {
        Err(DecodeErrorKind::Truncated)
    } else if OPEN_MIN_LEN + s[28] < s.len() {
        Err(DecodeErrorKind::LengthMismatch)
    } else {
        Ok(
            OpenMessageView {
                header: h,
                version: Version(s[19]),
                my_as_number: AutonomousSystemNumber(be16(s[20], s[21])),
                hold_time: HoldTime(be16(s[22], s[23])),
                bgp_identifier: Ipv4Address(s[24], s[25], s[26], s[27]),
                optional_parameters_length: s[28],
                optional_parameters: s.skip(29),
            },
        )
    }
}

impl OpenMessage {
    /// The OPEN this speaker sends for the local AS and address.
    pub fn new(my_as_number: AutonomousSystemNumber, my_ip_addr: Ipv4Address) -> (r: Self)
        ensures
            r@.wf(),
            r@ == OpenMessageView::local(my_as_number, my_ip_addr),
    {
        OpenMessage {
            header: Header::new(29, MessageType::Open),
            version: Version::new(),
            my_as_number,
            hold_time: HoldTime::new(),
            bgp_identifier: my_ip_addr,
            optional_parameters_length: 0,
            optional_parameters: Vec::new(),
        }
    }

    /// Appends the wire form to `buf`.
    pub fn write_bytes(&self, buf: &mut BytesMut)
        requires
            self@.wf(),
            buf_contents(*old(buf)).len() + 0xffff <= max_buf_len(),
        ensures
            buf_contents(*final(buf)) == buf_contents(*old(buf)) + self@.wire_bytes(),
    {
        let ghost start = buf_contents(*buf);
        self.header.write_bytes(buf);
        put_u8(buf, self.version.as_u8());
        put_u16(buf, self.my_as_number.0);
        put_u16(buf, self.hold_time.0);
        put_u8(buf, self.bgp_identifier.0);
        put_u8(buf, self.bgp_identifier.1);
        put_u8(buf, self.bgp_identifier.2);
        put_u8(buf, self.bgp_identifier.3);
        put_u8(buf, self.optional_parameters_length);
        put_slice(buf, self.optional_parameters.as_slice());
        assert(buf_contents(*buf) =~= start + self@.wire_bytes());
    }

    /// Reads the body of an OPEN whose header `header` has been read, from
    /// the whole message `bytes`.
    pub fn from_slice(bytes: &[u8], header: Header) -> (r: Result<OpenMessage, ConvertBytesToBgpMessageError>)
        ensures
            match r {
                Ok(m) => parse_open(bytes@, header) == Ok::<OpenMessageView, DecodeErrorKind>(m@),
                Err(e) => parse_open(bytes@, header) == Err::<OpenMessageView, DecodeErrorKind>(e.kind),
            },
    {
        if bytes.len() < OPEN_MIN_LEN {
            return Err(ConvertBytesToBgpMessageError { kind: DecodeErrorKind::Truncated });
        }
        let version = match Version::from_u8(bytes[19]) {
            Some(v) => v,
            None => {
                return Err(ConvertBytesToBgpMessageError { kind: DecodeErrorKind::InvalidVersion });
            },
        };
        let optional_parameters_length = bytes[28];
        if OPEN_MIN_LEN + (optional_parameters_length as usize) > bytes.len() {
            return Err(ConvertBytesToBgpMessageError { kind: DecodeErrorKind::Truncated });
        }
        if OPEN_MIN_LEN + (optional_parameters_length as usize) < bytes.len() {
            return Err(ConvertBytesToBgpMessageError { kind: DecodeErrorKind::LengthMismatch });
        }
        let optional_parameters = vstd::slice::slice_to_vec(&bytes[29..bytes.len()]);
        assert(bytes@.subrange(29, bytes@.len() as int) =~= bytes@.skip(29));
        Ok(
            OpenMessage {
                header,
                version,
                my_as_number: AutonomousSystemNumber(read_be16(bytes[20], bytes[21])),
                hold_time: HoldTime(read_be16(bytes[22], bytes[23])),
                bgp_identifier: Ipv4Address(bytes[24], bytes[25], bytes[26], bytes[27]),
                optional_parameters_length,
                optional_parameters,
            },
        )
    }
}

/// A well-formed OPEN reads back from its wire form.
pub proof fn lemma_open_round_trip(m: OpenMessageView)
    requires
        m.wf(),
    ensures
        parse_open(m.wire_bytes(), m.header) == Ok::<OpenMessageView, DecodeErrorKind>(m),
        m.wire_bytes().len() == m.header.length,
{
    let s = m.wire_bytes();
    crate::packets::header::lemma_header_round_trip(m.header, Seq::empty());
    crate::buffer::lemma_be16_round_trip(m.my_as_number.0);
    crate::buffer::lemma_be16_round_trip(m.hold_time.0);
    assert(s[19] == m.version.0);
    assert(s[20] == be16_bytes(m.my_as_number.0)[0]);
    assert(s[21] == be16_bytes(m.my_as_number.0)[1]);
    assert(s[22] == be16_bytes(m.hold_time.0)[0]);
    assert(s[23] == be16_bytes(m.hold_time.0)[1]);
    assert(s[24] == m.bgp_identifier.0);
    assert(s[25] == m.bgp_identifier.1);
    assert(s[26] == m.bgp_identifier.2);
    assert(s[27] == m.bgp_identifier.3);
    assert(s[28] == m.optional_parameters_length);
    assert(s.skip(29) =~= m.optional_parameters);
    assert(Version(s[19]) == m.version);
}

} // verus!
