use crate::buffer::{buf_contents, max_buf_len};
use crate::packets::header::{Header, MessageType, HEADER_LEN};
use bytes::BytesMut;
use vstd::prelude::*;

verus! {

/// A KEEPALIVE: a header and nothing else.
#[derive(PartialEq, Eq, Structural, Debug, Clone, Copy, Hash)]
pub struct KeepaliveMessage {
    pub header: Header,
}

impl KeepaliveMessage {
    pub open spec fn wf(self) -> bool {
        self.header == (Header { length: 19, type_: MessageType::Keepalive })
    }

    pub open spec fn wire_bytes(self) -> Seq<u8> {
        self.header.wire_bytes()
    }

    pub fn new() -> (r: Self)
        ensures
            r.wf(),
    {
        KeepaliveMessage { header: Header::new(19, MessageType::Keepalive) }
    }

    /// Appends the wire form to `buf`.
    pub fn write_bytes(&self, buf: &mut BytesMut)
        requires
            buf_contents(*old(buf)).len() + HEADER_LEN <= max_buf_len(),
        ensures
            buf_contents(*final(buf)) == buf_contents(*old(buf)) + self.wire_bytes(),
    {
        self.header.write_bytes(buf);
    }
}

} // verus!
