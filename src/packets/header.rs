use crate::buffer::{be16, be16_bytes, buf_contents, max_buf_len, new_buf, put_u16, put_u8, read_be16};
use crate::error::{ConvertBytesToBgpMessageError, DecodeErrorKind};
use bytes::BytesMut;
use vstd::prelude::*;

verus! {

/// Octets of a message header: marker, length and type.
pub const HEADER_LEN: usize = 19;

/// The kind of a message, from its type code.
#[derive(PartialEq, Eq, Structural, Debug, Clone, Copy, Hash)]
pub enum MessageType {
    Open,
    Update,
    Keepalive,
}

impl MessageType {
    /// OPEN is 1, UPDATE 2, KEEPALIVE 4.
    pub open spec fn code(self) -> u8 {
        match self {
            MessageType::Open => 1,
            MessageType::Update => 2,
            MessageType::Keepalive => 4,
        }
    }

    pub open spec fn from_code(c: u8) -> Option<MessageType> {
        if c == 1 {
            Some(MessageType::Open)
        } else if c == 2 {
            Some(MessageType::Update)
        } else if c == 4 {
            Some(MessageType::Keepalive)
        } else {
            None
        }
    }

    pub fn to_u8(&self) -> (r: u8)
        ensures
            r == self.code(),
    {
        match self {
            MessageType::Open => 1,
            MessageType::Update => 2,
            MessageType::Keepalive => 4,
        }
    }

    pub fn from_u8(c: u8) -> (r: Option<MessageType>)
        ensures
            r == Self::from_code(c),
    {
        if c == 1 {
            Some(MessageType::Open)
        } else if c == 2 {
            Some(MessageType::Update)
        } else if c == 4 {
            Some(MessageType::Keepalive)
        } else {
            None
        }
    }
}

/// The header of every message: the total length in octets and the type.
#[derive(PartialEq, Eq, Structural, Debug, Clone, Copy, Hash)]
pub struct Header {
    pub length: u16,
    pub type_: MessageType,
}

/// Sixteen octets of all ones.
pub open spec fn marker() -> Seq<u8> {
    Seq::new(16, |i: int| 0xffu8)
}

/// Reads a header from the front of `s`.
pub open spec fn parse_header(s: Seq<u8>) -> Result<Header, DecodeErrorKind> {
    if s.len() < HEADER_LEN {
        Err(DecodeErrorKind::MessageTooShort)
    } else {
        match MessageType::from_code(s[18]) {
            None => Err(DecodeErrorKind::UnknownMessageType),
            Some(t) => Ok(Header { length: be16(s[16], s[17]), type_: t }),
        }
    }
}

impl Header {
    pub fn new(length: u16, type_: MessageType) -> (r: Self)
        ensures
            r == (Header { length, type_ }),
    {
        Header { length, type_ }
    }

    pub fn length(&self) -> (r: u16)
        ensures
            r == self.length,
    {
        self.length
    }

    /// The marker, the length (big-endian) and the type code.
    pub open spec fn wire_bytes(self) -> Seq<u8> {
        marker() + be16_bytes(self.length) + seq![self.type_.code()]
    }

    /// Appends the wire form to `buf`.
    pub fn write_bytes(&self, buf: &mut BytesMut)
        requires
            buf_contents(*old(buf)).len() + HEADER_LEN <= max_buf_len(),
        ensures
            buf_contents(*final(buf)) == buf_contents(*old(buf)) + self.wire_bytes(),
    {
        let ghost start = buf_contents(*buf);
        let mut i: usize = 0;
        while i < 16
            invariant
                i <= 16,
                start.len() + HEADER_LEN <= max_buf_len(),
                buf_contents(*buf) == start + marker().take(i as int),
            decreases 16 - i,
        {
            put_u8(buf, 0xff);
            i += 1;
            assert(marker().take(i as int) =~= marker().take(i - 1).push(0xff));
        }
        assert(marker().take(16) =~= marker());
        put_u16(buf, self.length);
        put_u8(buf, self.type_.to_u8());
        assert(buf_contents(*buf) =~= start + self.wire_bytes());
    }

    /// The wire form as a new buffer.
    pub fn to_bytes(&self) -> (r: BytesMut)
        ensures
            buf_contents(r) == self.wire_bytes(),
    {
        let mut buf = new_buf();
        self.write_bytes(&mut buf);
        assert(Seq::<u8>::empty() + self.wire_bytes() =~= self.wire_bytes());
        buf
    }

    /// Reads a header from the front of `bytes`.
    pub fn from_slice(bytes: &[u8]) -> (r: Result<Header, ConvertBytesToBgpMessageError>)
        ensures
            match r {
                Ok(h) => parse_header(bytes@) == Ok::<Header, DecodeErrorKind>(h),
                Err(e) => parse_header(bytes@) == Err::<Header, DecodeErrorKind>(e.kind),
            },
    {
        if bytes.len() < HEADER_LEN {
            return Err(ConvertBytesToBgpMessageError { kind: DecodeErrorKind::MessageTooShort });
        }
        match MessageType::from_u8(bytes[18]) {
            None => Err(ConvertBytesToBgpMessageError { kind: DecodeErrorKind::UnknownMessageType }),
            Some(t) => Ok(Header { length: read_be16(bytes[16], bytes[17]), type_: t }),
        }
    }
}

/// A header reads back from its wire form, whatever follows it.
pub proof fn lemma_header_round_trip(h: Header, rest: Seq<u8>)
    ensures
        parse_header(h.wire_bytes() + rest) == Ok::<Header, DecodeErrorKind>(h),
        h.wire_bytes().len() == HEADER_LEN,
{
    let s = h.wire_bytes() + rest;
    crate::buffer::lemma_be16_round_trip(h.length);
    assert(s[16] == be16_bytes(h.length)[0]);
    assert(s[17] == be16_bytes(h.length)[1]);
    assert(s[18] == h.type_.code());
}

} // verus!
