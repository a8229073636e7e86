use crate::config::Config;
use crate::error::CreateConnectionError;
use crate::event::Event;
use crate::event_queue::EventQueue;
use crate::packets::header::{Header, MessageType};
use crate::packets::keepalive::KeepaliveMessage;
use crate::packets::message::{Message, MessageView};
use crate::packets::open::OpenMessageView;
use crate::state::State;
use vstd::prelude::*;

verus! {

/// What the session asks of whoever runs it, after one event.
#[derive(Debug, PartialEq, Eq, Clone)]
pub enum PeerAction {
    Nothing,
    /// Open the TCP connection (Active) or accept one (Passive), then report
    /// the outcome with `Peer::connection_result`.
    OpenConnection,
    /// Write this message on the connection.
    Send(Message),
}

/// The mathematical value of a `PeerAction`.
pub enum PeerActionView {
    Nothing,
    OpenConnection,
    Send(MessageView),
}

impl View for PeerAction {
    type V = PeerActionView;

    open spec fn view(&self) -> PeerActionView {
        match self {
            PeerAction::Nothing => PeerActionView::Nothing,
            PeerAction::OpenConnection => PeerActionView::OpenConnection,
            PeerAction::Send(m) => PeerActionView::Send(m@),
        }
    }
}

/// The state after `event` in state `s`. Any other pair of state and event
/// leaves the state as it is.
pub open spec fn next_state(s: State, event: Event) -> State {
    match (s, event) {
        (State::Connect, Event::TcpConnectionConfirmed) => State::OpenSent,
        (State::OpenSent, Event::BgpOpen(_)) => State::OpenConfirm,
        (State::OpenConfirm, Event::KeepaliveMsg(_)) => State::Established,
        _ => s,
    }
}

/// What the session asks for on `event` in state `s`.
pub open spec fn next_action(s: State, event: Event, config: Config) -> PeerActionView {
    match (s, event) {
        (State::Idle, Event::ManualStart) => PeerActionView::OpenConnection,
        (State::Connect, Event::TcpConnectionConfirmed) => PeerActionView::Send(
            MessageView::Open(OpenMessageView::local(config.local_as, config.local_ip)),
        ),
        (State::OpenSent, Event::BgpOpen(_)) => PeerActionView::Send(
            MessageView::Keepalive(KeepaliveMessage { header: keepalive_header() }),
        ),
        _ => PeerActionView::Nothing,
    }
}

/// The header of every KEEPALIVE.
pub open spec fn keepalive_header() -> Header {
    Header { length: 19, type_: MessageType::Keepalive }
}

/// State and queue after one step: the event at the head, if any, is taken
/// and applied.
pub open spec fn after_step(s: State, q: Seq<Event>) -> (State, Seq<Event>) {
    if q.len() == 0 {
        (s, q)
    } else {
        (next_state(s, q[0]), q.drop_first())
    }
}

/// State and queue after `n` steps with nothing arriving meanwhile.
pub open spec fn run(s: State, q: Seq<Event>, n: nat) -> (State, Seq<Event>)
    decreases n,
{
    if n == 0 {
        (s, q)
    } else {
        let (s1, q1) = after_step(s, q);
        run(s1, q1, (n - 1) as nat)
    }
}

/// State and queue once the connection asked for by ManualStart was, or
/// was not, established.
pub open spec fn after_connection(s: State, q: Seq<Event>, established: bool) -> (State, Seq<Event>) {
    if established {
        (State::Connect, q.push(Event::TcpConnectionConfirmed))
    } else {
        (s, q)
    }
}

/// The event a message received from the peer becomes.
pub open spec fn event_of(message: Message) -> Event {
    match message {
        Message::Open(m) => Event::BgpOpen(m),
        Message::Keepalive(m) => Event::KeepaliveMsg(m),
        Message::Update(m) => Event::UpdateMsg(m),
    }
}

/// One BGP session: its state, its queue of events and its settings.
#[derive(Debug)]
pub struct Peer {
    pub state: State,
    pub event_queue: EventQueue,
    pub config: Config,
}

impl Peer {
    /// A session in Idle with no events.
    pub fn new(config: Config) -> (r: Self)
        ensures
            r.state == State::Idle,
            r.event_queue@ == Seq::<Event>::empty(),
            r.config == config,
    {
        Peer { state: State::Idle, event_queue: EventQueue::new(), config }
    }

    pub fn state(&self) -> (r: State)
        ensures
            r == self.state,
    {
        self.state
    }

    /// Queues ManualStart.
    pub fn start(&mut self)
        ensures
            final(self).state == old(self).state,
            final(self).config == old(self).config,
            final(self).event_queue@ == old(self).event_queue@.push(Event::ManualStart),
    {
        self.event_queue.enqueue(Event::ManualStart);
    }

    /// Queues the event that a message received from the peer becomes.
    pub fn handle_message(&mut self, message: Message)
        ensures
            final(self).state == old(self).state,
            final(self).config == old(self).config,
            final(self).event_queue@ == old(self).event_queue@.push(event_of(message)),
    {
        let event = match message {
            Message::Open(m) => Event::BgpOpen(m),
            Message::Keepalive(m) => Event::KeepaliveMsg(m),
            Message::Update(m) => Event::UpdateMsg(m),
        };
        self.event_queue.enqueue(event);
    }

    /// Applies `event`: sets the next state and says what to do.
    pub fn handle_event(&mut self, event: Event) -> (r: PeerAction)
        ensures
            final(self).state == next_state(old(self).state, event),
            final(self).config == old(self).config,
            final(self).event_queue@ == old(self).event_queue@,
            r@ == next_action(old(self).state, event, old(self).config),
    {
        match (self.state, event) {
            (State::Idle, Event::ManualStart) => PeerAction::OpenConnection,
            (State::Connect, Event::TcpConnectionConfirmed) => {
                self.state = State::OpenSent;
                PeerAction::Send(Message::new_open(self.config.local_as, self.config.local_ip))
            },
            (State::OpenSent, Event::BgpOpen(_)) => {
                self.state = State::OpenConfirm;
                PeerAction::Send(Message::new_keepalive())
            },
            (State::OpenConfirm, Event::KeepaliveMsg(_)) => {
                self.state = State::Established;
                PeerAction::Nothing
            },
            _ => PeerAction::Nothing,
        }
    }

    /// Takes the event at the head of the queue, if any, and applies it.
    pub fn step(&mut self) -> (r: PeerAction)
        ensures
            (final(self).state, final(self).event_queue@) == after_step(
                old(self).state,
                old(self).event_queue@,
            ),
            final(self).config == old(self).config,
            old(self).event_queue@.len() == 0 ==> r@ == PeerActionView::Nothing,
            old(self).event_queue@.len() > 0 ==> r@ == next_action(
                old(self).state,
                old(self).event_queue@[0],
                old(self).config,
            ),
    {
        match self.event_queue.dequeue() {
            Some(event) => self.handle_event(event),
            None => PeerAction::Nothing,
        }
    }

    /// Records whether the connection that ManualStart asked for was
    /// established: on success the session enters Connect and queues
    /// TcpConnectionConfirmed; on failure it stays as it is and the error
    /// is fatal to it.
    pub fn connection_result(&mut self, established: bool) -> (r: Result<(), CreateConnectionError>)
        ensures
            (final(self).state, final(self).event_queue@) == after_connection(
                old(self).state,
                old(self).event_queue@,
                established,
            ),
            final(self).config == old(self).config,
            r is Ok <==> established,
    {
        if established {
            self.event_queue.enqueue(Event::TcpConnectionConfirmed);
            self.state = State::Connect;
            Ok(())
        } else {
            Err(CreateConnectionError)
        }
    }
}

/// A session in Idle with no events stays in Idle with no events, however
/// many steps it takes.
pub proof fn lemma_idle_without_events(n: nat)
    ensures
        run(State::Idle, Seq::empty(), n) == (State::Idle, Seq::<Event>::empty()),
    decreases n,
{
    if n > 0 {
        lemma_idle_without_events((n - 1) as nat);
    }
}

/// From Idle with ManualStart queued, one step asks for the connection, and
/// once the connection is established the session is in Connect with
/// TcpConnectionConfirmed queued.
pub proof fn lemma_manual_start_reaches_connect(config: Config)
    ensures
        next_action(State::Idle, Event::ManualStart, config) == PeerActionView::OpenConnection,
        ({
            let (s1, q1) = after_step(State::Idle, seq![Event::ManualStart]);
            after_connection(s1, q1, true) == (State::Connect, seq![Event::TcpConnectionConfirmed])
        }),
{
    let (s1, q1) = after_step(State::Idle, seq![Event::ManualStart]);
    assert(q1 =~= Seq::<Event>::empty());
    assert(q1.push(Event::TcpConnectionConfirmed) =~= seq![Event::TcpConnectionConfirmed]);
}

/// No event moves a session out of Established, and none asks for anything
/// there.
pub proof fn lemma_established_is_final(event: Event, config: Config)
    ensures
        next_state(State::Established, event) == State::Established,
        next_action(State::Established, event, config) == PeerActionView::Nothing,
{
}

} // verus!
