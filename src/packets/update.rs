use crate::buffer::{be16, be16_bytes, buf_contents, max_buf_len, put_u16, read_be16};
use crate::error::{ConvertBytesToBgpMessageError, DecodeErrorKind};
use crate::packets::header::{Header, MessageType};
use crate::path_attribute::{
    attrs_bytes, attrs_bytes_len, attrs_view, attrs_wf, parse_attrs, write_attrs, PathAttribute,
    PathAttributeView,
};
use crate::routing::{
    all_network_addresses, all_wf, parse_prefixes, prefixes_bytes, prefixes_bytes_len,
    prefixes_len, write_prefixes, Ipv4Network,
};
use bytes::BytesMut;
use std::sync::Arc;
use vstd::prelude::*;

verus! {

/// An UPDATE: withdrawn routes, path attributes shared read-only, and the
/// announced prefixes (NLRI).
#[derive(PartialEq, Eq, Debug, Clone, Hash)]
pub struct UpdateMessage {
    pub header: Header,
    pub withdrawn_routes: Vec<Ipv4Network>,
    pub withdrawn_routes_length: u16,
    pub path_attributes: Arc<Vec<PathAttribute>>,
    pub path_attributes_length: u16,
    pub network_layer_reachability_information: Vec<Ipv4Network>,
}

/// The mathematical value of an `UpdateMessage`.
pub struct UpdateMessageView {
    pub header: Header,
    pub withdrawn_routes: Seq<Ipv4Network>,
    pub withdrawn_routes_length: u16,
    pub path_attributes: Seq<PathAttributeView>,
    pub path_attributes_length: u16,
    pub network_layer_reachability_information: Seq<Ipv4Network>,
}

impl View for UpdateMessage {
    type V = UpdateMessageView;

    open spec fn view(&self) -> UpdateMessageView {
        UpdateMessageView {
            header: self.header,
            withdrawn_routes: self.withdrawn_routes@,
            withdrawn_routes_length: self.withdrawn_routes_length,
            path_attributes: attrs_view(self.path_attributes@),
            path_attributes_length: self.path_attributes_length,
            network_layer_reachability_information: self.network_layer_reachability_information@,
        }
    }
}

/// Octets of an UPDATE with no routes and no attributes.
pub const UPDATE_MIN_LEN: usize = 23;

/// Octets of an UPDATE with these routes and attributes.
pub open spec fn update_len(
    withdrawn: Seq<Ipv4Network>,
    attrs: Seq<PathAttributeView>,
    nlri: Seq<Ipv4Network>,
) -> nat {
    (UPDATE_MIN_LEN + prefixes_len(withdrawn) + attrs_bytes(attrs).len() + prefixes_len(nlri)) as nat
}

impl UpdateMessageView {
    /// Every prefix and attribute is well formed, and each length field
    /// gives the exact octets of what it counts.
    pub open spec fn wf(self) -> bool {
        &&& all_wf(self.withdrawn_routes)
        &&& all_wf(self.network_layer_reachability_information)
        &&& attrs_wf(self.path_attributes)
        &&& self.withdrawn_routes_length as nat == prefixes_len(self.withdrawn_routes)
        &&& self.path_attributes_length as nat == attrs_bytes(self.path_attributes).len()
        &&& self.header.type_ == MessageType::Update
        &&& self.header.length as nat == update_len(
            self.withdrawn_routes,
            self.path_attributes,
            self.network_layer_reachability_information,
        )
    }

    /// Every prefix has no bit set past its length.
    pub open spec fn has_network_addresses(self) -> bool {
        &&& all_network_addresses(self.withdrawn_routes)
        &&& all_network_addresses(self.network_layer_reachability_information)
    }

    pub open spec fn wire_bytes(self) -> Seq<u8> {
        self.header.wire_bytes() + be16_bytes(self.withdrawn_routes_length) + prefixes_bytes(
            self.withdrawn_routes,
        ) + be16_bytes(self.path_attributes_length) + attrs_bytes(self.path_attributes)
            + prefixes_bytes(self.network_layer_reachability_information)
    }
}

/// Reads the body of an UPDATE whose header `h` has been read, from the
/// whole message `s`.
pub open spec fn parse_update(s: Seq<u8>, h: Header) -> Result<UpdateMessageView, DecodeErrorKind> {
    if s.len() < 21 {
        Err(DecodeErrorKind::Truncated)
    } else {
        let wl = be16(s[19], s[20]);
        let attrs_start = 23 + wl;
        if attrs_start > s.len() {
            Err(DecodeErrorKind::Truncated)
        } else {
            match parse_prefixes(s.subrange(21, 21 + wl)) {
                Err(e) => Err(e),
                Ok(withdrawn) => {
                    let pal = be16(s[21 + wl], s[22 + wl]);
                    let nlri_start = attrs_start + pal;
                    if nlri_start > s.len() {
                        Err(DecodeErrorKind::Truncated)
                    } else {
                        match parse_attrs(s.subrange(attrs_start, nlri_start)) {
                            Err(e) => Err(e),
                            Ok(attrs) => match parse_prefixes(s.skip(nlri_start)) {
                                Err(e) => Err(e),
                                Ok(nlri) => Ok(
                                    UpdateMessageView {
                                        header: h,
                                        withdrawn_routes: withdrawn,
                                        withdrawn_routes_length: wl,
                                        path_attributes: attrs,
                                        path_attributes_length: pal,
                                        network_layer_reachability_information: nlri,
                                    },
                                ),
                            },
                        }
                    }
                },
            }
        }
    }
}

impl UpdateMessage {
    /// An UPDATE of these attributes, announced prefixes and withdrawn
    /// prefixes, with every length field computed. The message must fit the
    /// two-octet length of the header.
    pub fn new(
        path_attributes: Arc<Vec<PathAttribute>>,
        network_layer_reachability_information: Vec<Ipv4Network>,
        withdrawn_routes: Vec<Ipv4Network>,
    ) -> (r: Self)
        requires
            attrs_wf(attrs_view(path_attributes@)),
            all_wf(network_layer_reachability_information@),
            all_wf(withdrawn_routes@),
            update_len(
                withdrawn_routes@,
                attrs_view(path_attributes@),
                network_layer_reachability_information@,
            ) <= 0xffff,
        ensures
            r@.wf(),
            r@.withdrawn_routes == withdrawn_routes@,
            r@.path_attributes == attrs_view(path_attributes@),
            r@.network_layer_reachability_information == network_layer_reachability_information@,
    {
        proof {
            crate::routing::lemma_prefixes_len_ge(withdrawn_routes@);
            crate::routing::lemma_prefixes_len_ge(network_layer_reachability_information@);
        }
        let withdrawn_len = prefixes_bytes_len(&withdrawn_routes);
        let nlri_len = prefixes_bytes_len(&network_layer_reachability_information);
        let attrs_len = match attrs_bytes_len(&*path_attributes) {
            Some(n) => n,
            None => 0,
        };
        let length = (UPDATE_MIN_LEN + withdrawn_len + attrs_len + nlri_len) as u16;
        UpdateMessage {
            header: Header::new(length, MessageType::Update),
            withdrawn_routes,
            withdrawn_routes_length: withdrawn_len as u16,
            path_attributes,
            path_attributes_length: attrs_len as u16,
            network_layer_reachability_information,
        }
    }

    /// Appends the wire form to `buf`.
    pub fn write_bytes(&self, buf: &mut BytesMut)
        requires
            self@.wf(),
            buf_contents(*old(buf)).len() + 0xffff <= max_buf_len(),
        ensures
            buf_contents(*final(buf)) == buf_contents(*old(buf)) + self@.wire_bytes(),
    {
        let ghost start = buf_contents(*buf);
        self.header.write_bytes(buf);
        put_u16(buf, self.withdrawn_routes_length);
        proof {
            crate::routing::lemma_prefixes_len_ge(self.withdrawn_routes@);
            crate::routing::lemma_prefixes_len_ge(self.network_layer_reachability_information@);
        }
        write_prefixes(&self.withdrawn_routes, buf);
        put_u16(buf, self.path_attributes_length);
        write_attrs(&*self.path_attributes, buf);
        write_prefixes(&self.network_layer_reachability_information, buf);
        assert(buf_contents(*buf) =~= start + self@.wire_bytes());
    }

    /// Reads the body of an UPDATE whose header `header` has been read, from
    /// the whole message `bytes`.
    pub fn from_slice(bytes: &[u8], header: Header) -> (r: Result<UpdateMessage, ConvertBytesToBgpMessageError>)
        ensures
            match r {
                Ok(m) => parse_update(bytes@, header) == Ok::<UpdateMessageView, DecodeErrorKind>(m@),
                Err(e) => parse_update(bytes@, header) == Err::<UpdateMessageView, DecodeErrorKind>(
                    e.kind,
                ),
            },
    {
        if bytes.len() < 21 {
            return Err(ConvertBytesToBgpMessageError { kind: DecodeErrorKind::Truncated });
        }
        let wl = read_be16(bytes[19], bytes[20]);
        let attrs_start = 23 + wl as usize;
        if attrs_start > bytes.len() {
            return Err(ConvertBytesToBgpMessageError { kind: DecodeErrorKind::Truncated });
        }
        let withdrawn_routes = match Ipv4Network::from_u8_slice(&bytes[21..21 + wl as usize]) {
            Ok(v) => v,
            Err(e) => {
                return Err(e);
            },
        };
        let pal = read_be16(bytes[21 + wl as usize], bytes[22 + wl as usize]);
        let nlri_start = attrs_start + pal as usize;
        if nlri_start > bytes.len() {
            return Err(ConvertBytesToBgpMessageError { kind: DecodeErrorKind::Truncated });
        }
        let path_attributes = match PathAttribute::from_u8_slice(&bytes[attrs_start..nlri_start]) {
            Ok(v) => v,
            Err(e) => {
                return Err(e);
            },
        };
        let nlri = match Ipv4Network::from_u8_slice(&bytes[nlri_start..bytes.len()]) {
            Ok(v) => v,
            Err(e) => {
                return Err(e);
            },
        };
        assert(bytes@.subrange(nlri_start as int, bytes@.len() as int) =~= bytes@.skip(
            nlri_start as int,
        ));
        Ok(
            UpdateMessage {
                header,
                withdrawn_routes,
                withdrawn_routes_length: wl,
                path_attributes: Arc::new(path_attributes),
                path_attributes_length: pal,
                network_layer_reachability_information: nlri,
            },
        )
    }
}

/// A well-formed UPDATE whose prefixes are network addresses reads back from
/// its wire form, and the wire form is as long as its header says.
pub proof fn lemma_update_round_trip(m: UpdateMessageView)
    requires
        m.wf(),
        m.has_network_addresses(),
    ensures
        parse_update(m.wire_bytes(), m.header) == Ok::<UpdateMessageView, DecodeErrorKind>(m),
        m.wire_bytes().len() == m.header.length,
{
    let s = m.wire_bytes();
    let wb = prefixes_bytes(m.withdrawn_routes);
    let ab = attrs_bytes(m.path_attributes);
    let nb = prefixes_bytes(m.network_layer_reachability_information);
    let wl = m.withdrawn_routes_length as int;
    let pal = m.path_attributes_length as int;
    crate::packets::header::lemma_header_round_trip(m.header, Seq::empty());
    crate::buffer::lemma_be16_round_trip(m.withdrawn_routes_length);
    crate::buffer::lemma_be16_round_trip(m.path_attributes_length);
    crate::routing::lemma_prefixes_round_trip(m.withdrawn_routes);
    crate::routing::lemma_prefixes_round_trip(m.network_layer_reachability_information);
    crate::path_attribute::lemma_attrs_round_trip(m.path_attributes);
    assert(s.len() == 23 + wl + pal + nb.len());
    assert(s[19] == be16_bytes(m.withdrawn_routes_length)[0]);
    assert(s[20] == be16_bytes(m.withdrawn_routes_length)[1]);
    assert(s.subrange(21, 21 + wl) =~= wb);
    assert(s[21 + wl] == be16_bytes(m.path_attributes_length)[0]);
    assert(s[22 + wl] == be16_bytes(m.path_attributes_length)[1]);
    assert(s.subrange(23 + wl, 23 + wl + pal) =~= ab);
    assert(s.skip(23 + wl + pal) =~= nb);
}

/// The wire form of a well-formed UPDATE is as long as its header says.
pub proof fn lemma_update_len(m: UpdateMessageView)
    requires
        m.wf(),
    ensures
        m.wire_bytes().len() == m.header.length,
{
    crate::packets::header::lemma_header_round_trip(m.header, Seq::empty());
}

} // verus!
