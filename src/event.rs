use crate::packets::keepalive::KeepaliveMessage;
use crate::packets::open::OpenMessage;
use crate::packets::update::UpdateMessage;
use vstd::prelude::*;

verus! {

/// What drives the session state machine.
#[derive(PartialEq, Eq, Debug, Clone, Hash)]
pub enum Event {
    ManualStart,
    TcpConnectionConfirmed,
    BgpOpen(OpenMessage),
    KeepaliveMsg(KeepaliveMessage),
    UpdateMsg(UpdateMessage),
    Established,
}

} // verus!
