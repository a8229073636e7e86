use crate::buffer::{be16, buf_contents, buf_get, buf_len, max_buf_len, new_buf, put_slice, split_to};
use crate::error::DecodeErrorKind;
use crate::packets::header::HEADER_LEN;
use crate::packets::message::{parse_message, Message, MessageView};
use bytes::BytesMut;
use vstd::prelude::*;

verus! {

/// The length of the message at the front of `s`, once `s` holds all of it:
/// its header's length field.
pub open spec fn complete_frame_len(s: Seq<u8>) -> Option<nat> {
    if s.len() >= HEADER_LEN && be16(s[16], s[17]) as nat <= s.len() {
        Some(be16(s[16], s[17]) as nat)
    } else {
        None
    }
}

/// The octets received on a connection and not yet taken as messages. BGP
/// messages delimit themselves by the length in octets 16 and 17 of their
/// header.
#[derive(Debug)]
pub struct MessageBuffer {
    buffer: BytesMut,
}

impl View for MessageBuffer {
    type V = Seq<u8>;

    closed spec fn view(&self) -> Seq<u8> {
        buf_contents(self.buffer)
    }
}

impl MessageBuffer {
    pub fn new() -> (r: Self)
        ensures
            r@ == Seq::<u8>::empty(),
    {
        MessageBuffer { buffer: new_buf() }
    }

    pub fn len(&self) -> (r: usize)
        ensures
            r == self@.len(),
    {
        buf_len(&self.buffer)
    }

    /// Whether `n` more octets still fit.
    pub fn can_accept(&self, n: usize) -> (r: bool)
        ensures
            r == (self@.len() + n <= max_buf_len()),
    {
        let len = buf_len(&self.buffer);
        len <= 0x7fff_0000 && n <= 0x7fff_0000 - len
    }

    /// Appends octets read from the connection.
    pub fn push_bytes(&mut self, data: &[u8])
        requires
            old(self)@.len() + data@.len() <= max_buf_len(),
        ensures
            final(self)@ == old(self)@ + data@,
    {
        put_slice(&mut self.buffer, data);
    }

    /// Takes the octets of the message at the front, once all of them have
    /// arrived.
    pub fn split_buffer_at_message_separator(&mut self) -> (r: Option<BytesMut>)
        ensures
            match complete_frame_len(old(self)@) {
                None => r is None && final(self)@ == old(self)@,
                Some(n) => r matches Some(frame) && buf_contents(frame) == old(self)@.take(n as int)
                    && final(self)@ == old(self)@.skip(n as int),
            },
    {
        let len = buf_len(&self.buffer);
        if len < HEADER_LEN {
            return None;
        }
        let hi = buf_get(&self.buffer, 16);
        let lo = buf_get(&self.buffer, 17);
        let index = hi as usize * 256 + lo as usize;
        if len < index {
            return None;
        }
        Some(split_to(&mut self.buffer, index))
    }

    /// Takes the message at the front, once all of its octets have arrived.
    /// Octets that do not read as a message are dropped.
    pub fn get_message(&mut self) -> (r: Option<Message>)
        ensures
            match complete_frame_len(old(self)@) {
                None => r is None && final(self)@ == old(self)@,
                Some(n) => final(self)@ == old(self)@.skip(n as int) && match parse_message(
                    old(self)@.take(n as int),
                ) {
                    Ok(m) => r matches Some(x) && x@ == m,
                    Err(_) => r is None,
                },
            },
    {
        let frame = match self.split_buffer_at_message_separator() {
            Some(f) => f,
            None => {
                return None;
            },
        };
        match Message::try_from_bytes(&frame) {
            Ok(m) => Some(m),
            Err(_) => None,
        }
    }
}

} // verus!
