use crate::bgp_type::{AutonomousSystemNumber, Ipv4Address};
use crate::buffer::{be16, buf_contents, buf_to_vec, max_buf_len, new_buf};
use crate::error::{ConvertBytesToBgpMessageError, DecodeErrorKind};
use crate::packets::header::{parse_header, Header, MessageType, HEADER_LEN};
use crate::packets::keepalive::KeepaliveMessage;
use crate::packets::open::{parse_open, OpenMessage, OpenMessageView};
use crate::packets::update::{parse_update, UpdateMessage, UpdateMessageView};
use bytes::BytesMut;
use vstd::prelude::*;

verus! {

/// A BGP message of one of the kinds this speaker reads and writes.
#[derive(Debug, PartialEq, Eq, Clone)]
pub enum Message {
    Open(OpenMessage),
    Keepalive(KeepaliveMessage),
    Update(UpdateMessage),
}

/// The mathematical value of a `Message`.
pub enum MessageView {
    Open(OpenMessageView),
    Keepalive(KeepaliveMessage),
    Update(UpdateMessageView),
}

impl View for Message {
    type V = MessageView;

    open spec fn view(&self) -> MessageView {
        match self {
            Message::Open(m) => MessageView::Open(m@),
            Message::Keepalive(m) => MessageView::Keepalive(*m),
            Message::Update(m) => MessageView::Update(m@),
        }
    }
}

impl MessageView {
    pub open spec fn header(self) -> Header {
        match self {
            MessageView::Open(m) => m.header,
            MessageView::Keepalive(m) => m.header,
            MessageView::Update(m) => m.header,
        }
    }

    pub open spec fn wf(self) -> bool {
        match self {
            MessageView::Open(m) => m.wf(),
            MessageView::Keepalive(m) => m.wf(),
            MessageView::Update(m) => m.wf(),
        }
    }

    /// Every prefix of an UPDATE has no bit set past its length.
    pub open spec fn has_network_addresses(self) -> bool {
        match self {
            MessageView::Update(m) => m.has_network_addresses(),
            _ => true,
        }
    }

    pub open spec fn wire_bytes(self) -> Seq<u8> {
        match self {
            MessageView::Open(m) => m.wire_bytes(),
            MessageView::Keepalive(m) => m.wire_bytes(),
            MessageView::Update(m) => m.wire_bytes(),
        }
    }
}

/// Reads one whole message from `s`: the header, then the body its type
/// calls for. The header's length must be the number of octets.
pub open spec fn parse_message(s: Seq<u8>) -> Result<MessageView, DecodeErrorKind> {
    match parse_header(s) {
        Err(e) => Err(e),
        Ok(h) => if h.length as nat != s.len() {
            Err(DecodeErrorKind::LengthMismatch)
        } else {
            match h.type_ {
                MessageType::Open => match parse_open(s, h) {
                    Ok(m) => Ok(MessageView::Open(m)),
                    Err(e) => Err(e),
                },
                MessageType::Update => match parse_update(s, h) {
                    Ok(m) => Ok(MessageView::Update(m)),
                    Err(e) => Err(e),
                },
                MessageType::Keepalive => if s.len() != HEADER_LEN {
                    Err(DecodeErrorKind::LengthMismatch)
                } else {
                    Ok(MessageView::Keepalive(KeepaliveMessage { header: h }))
                },
            }
        },
    }
}

/// The length field of a message's wire form: octets 16 and 17, big-endian.
pub open spec fn length_field(s: Seq<u8>) -> u16 {
    be16(s[16], s[17])
}

impl Message {
    /// The OPEN this speaker sends for the local AS and address.
    pub fn new_open(my_as_number: AutonomousSystemNumber, my_ip_addr: Ipv4Address) -> (r: Self)
        ensures
            r@.wf(),
            r@ == MessageView::Open(OpenMessageView::local(my_as_number, my_ip_addr)),
    {
        Message::Open(OpenMessage::new(my_as_number, my_ip_addr))
    }

    pub fn new_keepalive() -> (r: Self)
        ensures
            r@.wf(),
            r is Keepalive,
    {
        Message::Keepalive(KeepaliveMessage::new())
    }

    /// The wire form, as long as the header says.
    pub fn to_bytes(&self) -> (r: BytesMut)
        requires
            self@.wf(),
        ensures
            buf_contents(r) == self@.wire_bytes(),
    {
        let mut buf = new_buf();
        match self {
            Message::Open(m) => m.write_bytes(&mut buf),
            Message::Keepalive(m) => m.write_bytes(&mut buf),
            Message::Update(m) => m.write_bytes(&mut buf),
        }
        assert(Seq::<u8>::empty() + self@.wire_bytes() =~= self@.wire_bytes());
        buf
    }

    /// Reads one whole message from `bytes`.
    pub fn from_slice(bytes: &[u8]) -> (r: Result<Message, ConvertBytesToBgpMessageError>)
        ensures
            match r {
                Ok(m) => parse_message(bytes@) == Ok::<MessageView, DecodeErrorKind>(m@),
                Err(e) => parse_message(bytes@) == Err::<MessageView, DecodeErrorKind>(e.kind),
            },
    {
        let header = match Header::from_slice(bytes) {
            Ok(h) => h,
            Err(e) => {
                return Err(e);
            },
        };
        if header.length as usize != bytes.len() {
            return Err(ConvertBytesToBgpMessageError { kind: DecodeErrorKind::LengthMismatch });
        }
        match header.type_ {
            MessageType::Open => match OpenMessage::from_slice(bytes, header) {
                Ok(m) => Ok(Message::Open(m)),
                Err(e) => Err(e),
            },
            MessageType::Update => match UpdateMessage::from_slice(bytes, header) {
                Ok(m) => Ok(Message::Update(m)),
                Err(e) => Err(e),
            },
            MessageType::Keepalive => if bytes.len() != HEADER_LEN {
                Err(ConvertBytesToBgpMessageError { kind: DecodeErrorKind::LengthMismatch })
            } else {
                Ok(Message::Keepalive(KeepaliveMessage { header }))
            },
        }
    }

    /// Reads one whole message from the octets of `bytes`.
    pub fn try_from_bytes(bytes: &BytesMut) -> (r: Result<Message, ConvertBytesToBgpMessageError>)
        ensures
            match r {
                Ok(m) => parse_message(buf_contents(*bytes)) == Ok::<MessageView, DecodeErrorKind>(m@),
                Err(e) => parse_message(buf_contents(*bytes)) == Err::<MessageView, DecodeErrorKind>(
                    e.kind,
                ),
            },
    {
        let v = buf_to_vec(bytes);
        Message::from_slice(v.as_slice())
    }
}

/// Every well-formed message whose prefixes are network addresses reads
/// back from its wire form as itself.
pub proof fn lemma_message_round_trip(m: MessageView)
    requires
        m.wf(),
        m.has_network_addresses(),
    ensures
        parse_message(m.wire_bytes()) == Ok::<MessageView, DecodeErrorKind>(m),
{
    lemma_length_field(m);
    let s = m.wire_bytes();
    match m {
        MessageView::Open(o) => {
            crate::packets::open::lemma_open_round_trip(o);
            crate::packets::header::lemma_header_round_trip(o.header, s.skip(HEADER_LEN as int));
            assert(o.header.wire_bytes() + s.skip(HEADER_LEN as int) =~= s);
        },
        MessageView::Keepalive(k) => {
            crate::packets::header::lemma_header_round_trip(k.header, Seq::empty());
            assert(k.header.wire_bytes() + Seq::<u8>::empty() =~= s);
        },
        MessageView::Update(u) => {
            crate::packets::update::lemma_update_round_trip(u);
            crate::packets::header::lemma_header_round_trip(u.header, s.skip(HEADER_LEN as int));
            assert(u.header.wire_bytes() + s.skip(HEADER_LEN as int) =~= s);
        },
    }
}

/// The length field of every well-formed message's wire form is the number
/// of octets of that wire form.
pub proof fn lemma_length_field(m: MessageView)
    requires
        m.wf(),
    ensures
        m.wire_bytes().len() >= HEADER_LEN,
        length_field(m.wire_bytes()) as nat == m.wire_bytes().len(),
        m.wire_bytes().len() == m.header().length,
{
    let s = m.wire_bytes();
    match m {
        MessageView::Open(o) => {
            crate::packets::open::lemma_open_round_trip(o);
        },
        MessageView::Keepalive(k) => {},
        MessageView::Update(u) => {
            crate::routing::lemma_prefixes_len_ge(u.withdrawn_routes);
            crate::packets::update::lemma_update_len(u);
        },
    }
    crate::packets::header::lemma_header_round_trip(m.header(), s.skip(HEADER_LEN as int));
    assert(m.header().wire_bytes() + s.skip(HEADER_LEN as int) =~= s);
}

} // verus!
