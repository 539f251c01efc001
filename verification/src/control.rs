//! The conversation between the relay and one host over its control channel.

use crate::proto::{Clientbound, ClientboundControlMessage, Serverbound, ServerboundControlMessage};
use vstd::prelude::*;

verus! {

/// The longest control message that is read, in bytes.
pub const MAX_CONTROL_MESSAGE: i32 = 8192;

/// How a connection to a host was lost.
#[derive(Clone, Copy, Debug, PartialEq, Eq, Structural)]
pub enum ConnectionError {
    VersionMismatch,
    TransportError,
    ConnectionClosed,
    ApplicationClosed,
    Reset,
    TimedOut,
    LocallyClosed,
    CidsExhausted,
}

/// What the routing table asks of a host's session.
#[derive(Debug)]
pub enum RouterRequest {
    /// A stream to the host, for a player.
    RouteRequest,
    /// To pass a message on to the host.
    BroadcastRequest(String),
    /// To deal with a message that came from the host.
    ServerboundControlMessage(ServerboundControlMessage),
    /// The ticket that the host registered.
    TicketRequest,
}

/// What happens to a session.
#[derive(Debug)]
pub enum Event {
    /// The length of the next control message came in.
    MessageLength(i32),
    /// A control message came in; `None` if it is none that the relay knows.
    Message(Option<ServerboundControlMessage>),
    /// The routing table assigned a domain.
    Registered(String),
    /// The routing table asks for something; `None` once it never will again.
    Request(Option<RouterRequest>),
    /// A stream to the host was opened, or could not be.
    StreamOpened(Result<(), ConnectionError>),
    /// The connection to the host is gone.
    ConnectionLost(ConnectionError),
}

/// What a session has its caller do.
#[derive(Debug)]
pub enum Action {
    /// Read a control message of that many bytes.
    ReadMessage(usize),
    /// Close the connection, with code 0 and no reason.
    CloseConnection,
    /// Send a message to the host.
    Send(ClientboundControlMessage),
    /// Have the routing table assign a domain.
    Register,
    /// Queue a message of the host behind the requests of the routing table.
    Enqueue(ServerboundControlMessage),
    /// Open a stream to the host.
    OpenStream,
    /// Hand the opened stream to whoever asked for it.
    HandOver,
    /// Tell whoever asked for it the ticket.
    TellTicket(Option<String>),
}

/// How far a session has come.
#[derive(Clone, Copy, Debug, PartialEq, Eq, Structural)]
pub enum Phase {
    /// The host has no domain yet.
    Negotiating,
    /// The host asked for a domain.
    Registering,
    /// The host has a domain, and players may come.
    Serving,
    /// The session is over.
    Ended,
    /// The session is over, and what came last is an error.
    Failed,
}

/// A `RouterRequest` with its texts as characters.
pub enum RequestView {
    RouteRequest,
    BroadcastRequest(Seq<char>),
    ServerboundControlMessage(Serverbound),
    TicketRequest,
}

/// An `Event` with its texts as characters.
pub enum EventView {
    MessageLength(i32),
    Message(Option<Serverbound>),
    Registered(Seq<char>),
    Request(Option<RequestView>),
    StreamOpened(Result<(), ConnectionError>),
    ConnectionLost(ConnectionError),
}

/// An `Action` with its texts as characters.
pub enum ActionView {
    ReadMessage(nat),
    CloseConnection,
    Send(Clientbound),
    Register,
    Enqueue(Serverbound),
    OpenStream,
    HandOver,
    TellTicket(Option<Seq<char>>),
}

/// What a session remembers.
pub struct SessionView {
    pub phase: Phase,
    /// The ticket that the host registered last.
    pub ticket: Option<Seq<char>>,
}

impl View for RouterRequest {
    type V = RequestView;

    open spec fn view(&self) -> RequestView {
        match *self {
            RouterRequest::RouteRequest => RequestView::RouteRequest,
            RouterRequest::BroadcastRequest(message) => RequestView::BroadcastRequest(message@),
            RouterRequest::ServerboundControlMessage(message) => {
                RequestView::ServerboundControlMessage(message@)
            },
            RouterRequest::TicketRequest => RequestView::TicketRequest,
        }
    }
}

impl View for Event {
    type V = EventView;

    open spec fn view(&self) -> EventView {
        match *self {
            Event::MessageLength(len) => EventView::MessageLength(len),
            Event::Message(None) => EventView::Message(None),
            Event::Message(Some(message)) => EventView::Message(Some(message@)),
            Event::Registered(domain) => EventView::Registered(domain@),
            Event::Request(None) => EventView::Request(None),
            Event::Request(Some(request)) => EventView::Request(Some(request@)),
            Event::StreamOpened(opened) => EventView::StreamOpened(opened),
            Event::ConnectionLost(error) => EventView::ConnectionLost(error),
        }
    }
}

/// The characters of an optional text.
pub open spec fn optional_text(text: Option<String>) -> Option<Seq<char>> {
    match text {
        Some(text) => Some(text@),
        None => None,
    }
}

impl View for Action {
    type V = ActionView;

    open spec fn view(&self) -> ActionView {
        match *self {
            Action::ReadMessage(len) => ActionView::ReadMessage(len as nat),
            Action::CloseConnection => ActionView::CloseConnection,
            Action::Send(message) => ActionView::Send(message@),
            Action::Register => ActionView::Register,
            Action::Enqueue(message) => ActionView::Enqueue(message@),
            Action::OpenStream => ActionView::OpenStream,
            Action::HandOver => ActionView::HandOver,
            Action::TellTicket(ticket) => ActionView::TellTicket(optional_text(ticket)),
        }
    }
}

/// A control message of that length is read.
pub open spec fn readable(len: i32) -> bool {
    0 <= len <= MAX_CONTROL_MESSAGE
}

/// The connection was closed on purpose, by either side.
pub open spec fn closed_on_purpose(error: ConnectionError) -> bool {
    error == ConnectionError::ConnectionClosed || error == ConnectionError::ApplicationClosed
        || error == ConnectionError::LocallyClosed
}

/// The host closed the connection.
pub open spec fn closed_by_host(error: ConnectionError) -> bool {
    error == ConnectionError::ConnectionClosed || error == ConnectionError::ApplicationClosed
}

/// The ticket that `event` registers in a session that has come to `phase`. While the host has
/// no domain, its messages are dealt with as they come in; later, once the routing table hands
/// them on.
pub open spec fn registered_ticket(phase: Phase, event: EventView) -> Option<Seq<char>> {
    match (phase, event) {
        (
            Phase::Negotiating,
            EventView::Message(Some(Serverbound::DialtoneRegisterTicket { ticket })),
        ) => Some(ticket),
        (
            Phase::Serving,
            EventView::Request(
                Some(
                    RequestView::ServerboundControlMessage(
                        Serverbound::DialtoneRegisterTicket { ticket },
                    ),
                ),
            ),
        ) => Some(ticket),
        _ => None,
    }
}

/// The phase that `event` takes a session to from `phase`.
pub open spec fn next_phase(phase: Phase, event: EventView) -> Phase {
    match (phase, event) {
        (Phase::Negotiating | Phase::Serving, EventView::MessageLength(len)) => if readable(len) {
            phase
        } else {
            Phase::Ended
        },
        (
            Phase::Negotiating,
            EventView::Message(Some(Serverbound::RequestDomainAssignment)),
        ) => Phase::Registering,
        (Phase::Registering, EventView::Registered(_)) => Phase::Serving,
        (Phase::Serving, EventView::Request(None)) => Phase::Ended,
        (Phase::Serving, EventView::StreamOpened(Err(error))) => if closed_by_host(error) {
            Phase::Ended
        } else {
            Phase::Failed
        },
        (Phase::Serving, EventView::ConnectionLost(error)) => if closed_on_purpose(error) {
            Phase::Ended
        } else {
            Phase::Failed
        },
        _ => phase,
    }
}

/// What a session that remembers `session` does about `event`. An event that the phase does not
/// wait for leads to nothing.
pub open spec fn actions(session: SessionView, event: EventView) -> Seq<ActionView> {
    match session.phase {
        Phase::Negotiating => match event {
            EventView::MessageLength(len) => length_actions(len),
            EventView::Message(message) => negotiating_actions(message),
            _ => seq![],
        },
        Phase::Registering => match event {
            EventView::Registered(domain) => seq![
                ActionView::Send(Clientbound::DomainAssignmentComplete { domain }),
            ],
            _ => seq![],
        },
        Phase::Serving => match event {
            EventView::MessageLength(len) => length_actions(len),
            EventView::Message(Some(message)) => seq![ActionView::Enqueue(message)],
            EventView::Request(Some(request)) => serving_actions(session.ticket, request),
            EventView::StreamOpened(Ok(())) => seq![ActionView::HandOver],
            _ => seq![],
        },
        Phase::Ended | Phase::Failed => seq![],
    }
}

/// What the length of the next control message leads to.
pub open spec fn length_actions(len: i32) -> Seq<ActionView> {
    seq![
        if readable(len) {
            ActionView::ReadMessage(len as nat)
        } else {
            ActionView::CloseConnection
        },
    ]
}

/// What a control message leads to while the host has no domain. Whatever asks for neither
/// capabilities nor a domain is answered as unknown in the end, a ticket too.
pub open spec fn negotiating_actions(message: Option<Serverbound>) -> Seq<ActionView> {
    match message {
        Some(Serverbound::ProbeCapabilities) => seq![
            ActionView::Send(Clientbound::HasCapabilities { caps: seq!["dialtone_sidecar"@] }),
        ],
        Some(Serverbound::RequestDomainAssignment) => seq![ActionView::Register],
        Some(Serverbound::DialtoneRegisterTicket { .. }) => seq![
            ActionView::Send(Clientbound::TicketRegistered),
            ActionView::Send(Clientbound::UnknownMessage),
        ],
        None => seq![ActionView::Send(Clientbound::UnknownMessage)],
    }
}

/// What a request of the routing table leads to once the host has a domain.
pub open spec fn serving_actions(ticket: Option<Seq<char>>, request: RequestView) -> Seq<
    ActionView,
> {
    seq![
        match request {
            RequestView::RouteRequest => ActionView::OpenStream,
            RequestView::BroadcastRequest(message) => ActionView::Send(
                Clientbound::RequestMessageBroadcast { message },
            ),
            RequestView::ServerboundControlMessage(
                Serverbound::DialtoneRegisterTicket { .. },
            ) => ActionView::Send(Clientbound::TicketRegistered),
            RequestView::ServerboundControlMessage(_) => ActionView::Send(
                Clientbound::UnknownMessage,
            ),
            RequestView::TicketRequest => ActionView::TellTicket(ticket),
        },
    ]
}

/// What a session that remembered `session` remembers after `event`.
pub open spec fn after(session: SessionView, event: EventView) -> SessionView {
    SessionView {
        phase: next_phase(session.phase, event),
        ticket: match registered_ticket(session.phase, event) {
            Some(ticket) => Some(ticket),
            None => session.ticket,
        },
    }
}

/// The views of a session's actions, in order.
pub open spec fn action_views(actions: Seq<Action>) -> Seq<ActionView> {
    actions.map_values(|action: Action| action@)
}

/// The relay's side of the conversation with one host.
#[derive(Debug)]
pub struct ControlSession {
    phase: Phase,
    ticket: Option<String>,
}

impl View for ControlSession {
    type V = SessionView;

    closed spec fn view(&self) -> SessionView {
        SessionView { phase: self.phase, ticket: optional_text(self.ticket) }
    }
}

impl ControlSession {
    /// A session with a host that has just opened its control channel.
    pub fn new() -> (session: ControlSession)
        ensures
            session@ == (SessionView { phase: Phase::Negotiating, ticket: None }),
    {
        ControlSession { phase: Phase::Negotiating, ticket: None }
    }

    /// How far the session has come.
    pub fn phase(&self) -> (phase: Phase)
        ensures
            phase == self@.phase,
    {
        self.phase
    }

    /// Takes the next event; what comes back is to be done in that order.
    pub fn step(&mut self, event: Event) -> (done: Vec<Action>)
        ensures
            final(self)@ == after(old(self)@, event@),
            action_views(done@) == actions(old(self)@, event@),
            done@.len() == actions(old(self)@, event@).len(),
            forall|i: int|
                0 <= i < done@.len() ==> (#[trigger] done@[i])@ == actions(old(self)@, event@)[i],
    {
        let mut done: Vec<Action> = Vec::new();
        match self.phase {
            Phase::Negotiating => match event {
                Event::MessageLength(len) => self.take_length(len, &mut done),
                Event::Message(message) => self.negotiate(message, &mut done),
                _ => {},
            },
            Phase::Registering => match event {
                Event::Registered(domain) => {
                    self.phase = Phase::Serving;
                    done.push(Action::Send(ClientboundControlMessage::DomainAssignmentComplete { domain }));
                },
                _ => {},
            },
            Phase::Serving => match event {
                Event::MessageLength(len) => self.take_length(len, &mut done),
                Event::Message(Some(message)) => {
                    done.push(Action::Enqueue(message));
                },
                Event::Request(Some(request)) => self.serve(request, &mut done),
                Event::Request(None) => {
                    self.phase = Phase::Ended;
                },
                Event::StreamOpened(Ok(())) => {
                    done.push(Action::HandOver);
                },
                Event::StreamOpened(Err(error)) => {
                    self.phase = match error {
                        ConnectionError::ApplicationClosed | ConnectionError::ConnectionClosed => {
                            Phase::Ended
                        },
                        _ => Phase::Failed,
                    };
                },
                Event::ConnectionLost(error) => {
                    self.phase = match error {
                        ConnectionError::ConnectionClosed
                        | ConnectionError::ApplicationClosed
                        | ConnectionError::LocallyClosed => Phase::Ended,
                        _ => Phase::Failed,
                    };
                },
                _ => {},
            },
            Phase::Ended | Phase::Failed => {},
        }
        assert(action_views(done@) =~= actions(old(self)@, event@));
        proof {
            law_action_views_keep_order(done@);
        }
        assert forall|i: int| 0 <= i < done@.len() implies (#[trigger] done@[i])@ == actions(
            old(self)@,
            event@,
        )[i] by {
            assert(action_views(done@)[i] == done@[i]@);
        }
        done
    }

    /// Decides about the length of the next control message.
    fn take_length(&mut self, len: i32, done: &mut Vec<Action>)
        requires
            old(done)@.len() == 0,
        ensures
            final(self)@.ticket == old(self)@.ticket,
            final(self)@.phase == (if readable(len) { old(self)@.phase } else { Phase::Ended }),
            action_views(final(done)@) == length_actions(len),
    {
        if 0 <= len && len <= MAX_CONTROL_MESSAGE {
            done.push(Action::ReadMessage(len as usize));
        } else {
            self.phase = Phase::Ended;
            done.push(Action::CloseConnection);
        }
        assert(action_views(done@) =~= length_actions(len));
    }

    /// Deals with a control message of a host that has no domain.
    fn negotiate(&mut self, message: Option<ServerboundControlMessage>, done: &mut Vec<Action>)
        requires
            old(self)@.phase == Phase::Negotiating,
            old(done)@.len() == 0,
        ensures
            final(self)@ == after(old(self)@, Event::Message(message)@),
            action_views(final(done)@) == actions(old(self)@, Event::Message(message)@),
    {
        match message {
            Some(ServerboundControlMessage::ProbeCapabilities) => {
                let mut caps: Vec<String> = Vec::new();
                caps.push("dialtone_sidecar".to_owned());
                assert(caps@.map_values(|cap: String| cap@) =~= seq!["dialtone_sidecar"@]);
                done.push(Action::Send(ClientboundControlMessage::HasCapabilities { caps }));
            },
            Some(ServerboundControlMessage::RequestDomainAssignment) => {
                self.phase = Phase::Registering;
                done.push(Action::Register);
            },
            Some(ServerboundControlMessage::DialtoneRegisterTicket { ticket }) => {
                self.ticket = Some(ticket);
                done.push(Action::Send(ClientboundControlMessage::TicketRegistered));
                done.push(Action::Send(ClientboundControlMessage::UnknownMessage));
            },
            None => {
                done.push(Action::Send(ClientboundControlMessage::UnknownMessage));
            },
        }
        assert(action_views(done@) =~= negotiating_actions(Event::Message(message)@->Message_0));
    }

    /// Deals with a request of the routing table.
    fn serve(&mut self, request: RouterRequest, done: &mut Vec<Action>)
        requires
            old(self)@.phase == Phase::Serving,
            old(done)@.len() == 0,
        ensures
            final(self)@ == after(old(self)@, Event::Request(Some(request))@),
            action_views(final(done)@) == serving_actions(old(self)@.ticket, request@),
    {
        match request {
            RouterRequest::RouteRequest => {
                done.push(Action::OpenStream);
            },
            RouterRequest::BroadcastRequest(message) => {
                done.push(Action::Send(ClientboundControlMessage::RequestMessageBroadcast { message }));
            },
            RouterRequest::ServerboundControlMessage(message) => match message {
                ServerboundControlMessage::DialtoneRegisterTicket { ticket } => {
                    self.ticket = Some(ticket);
                    done.push(Action::Send(ClientboundControlMessage::TicketRegistered));
                },
                _ => {
                    done.push(Action::Send(ClientboundControlMessage::UnknownMessage));
                },
            },
            RouterRequest::TicketRequest => {
                let ticket: Option<String> = match &self.ticket {
                    Some(ticket) => Some(ticket.clone()),
                    None => None,
                };
                done.push(Action::TellTicket(ticket));
            },
        }
        assert(action_views(done@) =~= serving_actions(old(self)@.ticket, request@));
    }
}

/// A response on the control channel: the low eight bits of its length, then the response.
pub open spec fn response_frame(response: Seq<u8>) -> Seq<u8> {
    seq![(response.len() % 256) as u8] + response
}

/// Puts the length byte in front of a response.
pub fn frame_response(response: &Vec<u8>) -> (frame: Vec<u8>)
    ensures
        frame@ == response_frame(response@),
{
    let mut frame: Vec<u8> = Vec::new();
    frame.push((response.len() % 256) as u8);
    frame.extend_from_slice(response.as_slice());
    assert(frame@ =~= response_frame(response@));
    frame
}

/// A response can be taken out of its frame by the length byte exactly if it is shorter than 256
/// bytes.
pub proof fn law_frame_read_back(response: Seq<u8>)
    ensures
        response_frame(response).skip(1) == response,
        response_frame(response)[0] == response.len() <==> response.len() < 256,
{
    assert(response_frame(response).skip(1) =~= response);
}

/// What a session remembers after `events`, from its beginning.
pub open spec fn run(events: Seq<EventView>) -> SessionView
    decreases events.len(),
{
    if events.len() == 0 {
        SessionView { phase: Phase::Negotiating, ticket: None }
    } else {
        after(run(events.drop_last()), events.last())
    }
}

/// Everything that a session does about `events`, from its beginning.
pub open spec fn transcript(events: Seq<EventView>) -> Seq<ActionView>
    decreases events.len(),
{
    if events.len() == 0 {
        Seq::empty()
    } else {
        transcript(events.drop_last()) + actions(run(events.drop_last()), events.last())
    }
}

/// The session is over.
pub open spec fn over(phase: Phase) -> bool {
    phase == Phase::Ended || phase == Phase::Failed
}

/// Once a session is over, nothing that happens changes it or makes it do anything.
pub proof fn law_over_stays_over(events: Seq<EventView>, more: Seq<EventView>)
    requires
        over(run(events).phase),
    ensures
        run(events + more) == run(events),
        transcript(events + more) == transcript(events),
    decreases more.len(),
{
    if more.len() == 0 {
        assert(events + more =~= events);
    } else {
        law_over_stays_over(events, more.drop_last());
        assert((events + more).drop_last() =~= events + more.drop_last());
        assert((events + more).last() == more.last());
        assert(transcript(events + more) =~= transcript(events));
    }
}

/// The ticket that the event at index `i` registers.
pub open spec fn registered_at(events: Seq<EventView>, i: int) -> Option<Seq<char>> {
    registered_ticket(run(events.take(i)).phase, events[i])
}

/// The ticket of a session is the one that the host registered last, and there is none exactly
/// if the host registered none.
pub proof fn law_ticket_is_the_last_one(events: Seq<EventView>)
    ensures
        match run(events).ticket {
            Some(ticket) => exists|i: int|
                0 <= i < events.len() && #[trigger] registered_at(events, i) == Some(ticket) && (
                forall|j: int| i < j < events.len() ==> #[trigger] registered_at(events, j) is None),
            None => forall|j: int|
                0 <= j < events.len() ==> #[trigger] registered_at(events, j) is None,
        },
    decreases events.len(),
{
    if events.len() > 0 {
        let before = events.drop_last();
        let last = events.len() - 1;
        law_ticket_is_the_last_one(before);
        assert forall|j: int| 0 <= j < last implies #[trigger] registered_at(events, j)
            == registered_at(before, j) by {
            assert(events.take(j) =~= before.take(j));
        }
        assert(events.take(last) =~= before);
        if registered_at(events, last) is None && run(before).ticket is Some {
            let i = choose|i: int|
                0 <= i < before.len() && #[trigger] registered_at(before, i) == run(before).ticket
                    && (forall|j: int|
                    i < j < before.len() ==> #[trigger] registered_at(before, j) is None);
            assert(registered_at(events, i) == run(events).ticket);
        }
    }
}

/// Whoever asks for the ticket is told the one that the session remembers, and is told it only
/// once the host has a domain.
pub proof fn law_told_ticket_is_the_remembered_one(session: SessionView, event: EventView)
    ensures
        session.phase == Phase::Serving && event == EventView::Request(
            Some(RequestView::TicketRequest),
        ) ==> actions(session, event) == seq![ActionView::TellTicket(session.ticket)],
        forall|i: int|
            0 <= i < actions(session, event).len() && (
            #[trigger] actions(session, event)[i]) is TellTicket ==> {
                &&& actions(session, event)[i] == ActionView::TellTicket(session.ticket)
                &&& session.phase == Phase::Serving
            },
{
}

/// A host is told its domain.
pub open spec fn assigns_domain(action: ActionView) -> bool {
    action matches ActionView::Send(Clientbound::DomainAssignmentComplete { .. })
}

/// An action that only a session with a domain takes.
pub open spec fn serves(action: ActionView) -> bool {
    match action {
        ActionView::Enqueue(_)
        | ActionView::OpenStream
        | ActionView::HandOver
        | ActionView::TellTicket(_)
        | ActionView::Send(Clientbound::RequestMessageBroadcast { .. }) => true,
        _ => false,
    }
}

/// While the host has no domain, it was told none; once it is served, it was told one.
proof fn lemma_domain_by_phase(events: Seq<EventView>)
    ensures
        run(events).phase == Phase::Negotiating || run(events).phase == Phase::Registering
            ==> forall|i: int|
            0 <= i < transcript(events).len() ==> !assigns_domain(#[trigger] transcript(events)[i]),
        run(events).phase == Phase::Serving ==> exists|i: int|
            0 <= i < transcript(events).len() && assigns_domain(#[trigger] transcript(events)[i]),
    decreases events.len(),
{
    if events.len() > 0 {
        let before = events.drop_last();
        let new = actions(run(before), events.last());
        lemma_domain_by_phase(before);
        if run(events).phase == Phase::Serving {
            if run(before).phase == Phase::Serving {
                let i = choose|i: int|
                    0 <= i < transcript(before).len() && assigns_domain(
                        #[trigger] transcript(before)[i],
                    );
                assert(transcript(events)[i] == transcript(before)[i]);
            } else {
                assert(transcript(events)[transcript(before).len() as int] == new[0]);
            }
        }
        assert forall|i: int|
            (run(events).phase == Phase::Negotiating || run(events).phase == Phase::Registering)
                && 0 <= i < transcript(events).len() implies !assigns_domain(
            #[trigger] transcript(events)[i],
        ) by {
            if i < transcript(before).len() {
                assert(transcript(events)[i] == transcript(before)[i]);
            } else {
                assert(transcript(events)[i] == new[i - transcript(before).len()]);
            }
        }
    }
}

/// A host is told a domain at most once.
pub proof fn law_one_domain(events: Seq<EventView>, i: int, j: int)
    requires
        0 <= i < transcript(events).len(),
        0 <= j < transcript(events).len(),
        assigns_domain(transcript(events)[i]),
        assigns_domain(transcript(events)[j]),
    ensures
        i == j,
    decreases events.len(),
{
    let before = events.drop_last();
    let old_len = transcript(before).len();
    let new = actions(run(before), events.last());
    lemma_domain_by_phase(before);
    if i < old_len && j < old_len {
        law_one_domain(before, i, j);
    } else if i >= old_len {
        assert(transcript(events)[i] == new[i - old_len]);
        if j < old_len {
            assert(transcript(events)[j] == transcript(before)[j]);
        } else {
            assert(transcript(events)[j] == new[j - old_len]);
        }
    } else {
        assert(transcript(events)[j] == new[j - old_len]);
        assert(transcript(events)[i] == transcript(before)[i]);
    }
}

/// No stream is opened to a host, no message or request passed on and no ticket told before the
/// host has been told its domain.
pub proof fn law_domain_comes_first(events: Seq<EventView>, i: int)
    requires
        0 <= i < transcript(events).len(),
        serves(transcript(events)[i]),
    ensures
        exists|j: int| 0 <= j < i && assigns_domain(#[trigger] transcript(events)[j]),
    decreases events.len(),
{
    let before = events.drop_last();
    let old_len = transcript(before).len();
    let new = actions(run(before), events.last());
    if i < old_len {
        law_domain_comes_first(before, i);
        let j = choose|j: int| 0 <= j < i && assigns_domain(#[trigger] transcript(before)[j]);
        assert(transcript(events)[j] == transcript(before)[j]);
    } else {
        assert(transcript(events)[i] == new[i - old_len]);
        lemma_domain_by_phase(before);
        let j = choose|j: int|
            0 <= j < old_len && assigns_domain(#[trigger] transcript(before)[j]);
        assert(transcript(events)[j] == transcript(before)[j]);
    }
}

/// A session never has more than 8192 bytes of a control message read; a length that is negative
/// or above that closes the connection and ends the session.
pub proof fn law_messages_are_bounded(session: SessionView, event: EventView)
    ensures
        forall|i: int|
            0 <= i < actions(session, event).len() ==> (
            #[trigger] actions(session, event)[i] matches ActionView::ReadMessage(len)
                ==> len <= 8192),
        (session.phase == Phase::Negotiating || session.phase == Phase::Serving) ==> (
        event matches EventView::MessageLength(len) ==> (!(0 <= len <= 8192) ==> {
            &&& actions(session, event) == seq![ActionView::CloseConnection]
            &&& after(session, event).phase == Phase::Ended
        })),
{
}

/// Whatever a host without a domain sends, known or not, is answered or has a domain assigned.
pub proof fn law_negotiation_is_answered(session: SessionView, message: Option<Serverbound>)
    requires
        session.phase == Phase::Negotiating,
    ensures
        actions(session, EventView::Message(message)).len() > 0,
        forall|i: int|
            0 <= i < actions(session, EventView::Message(message)).len() ==> {
                let action = #[trigger] actions(session, EventView::Message(message))[i];
                action is Send || action == ActionView::Register
            },
        actions(session, EventView::Message(message)).contains(ActionView::Register) <==> message
            == Some(Serverbound::RequestDomainAssignment),
{
    let done = actions(session, EventView::Message(message));
    if message == Some(Serverbound::RequestDomainAssignment) {
        assert(done[0] == ActionView::Register);
    }
}

/// A host with or without a domain has every message of 0 to 8192 bytes read, as long as it is,
/// and that changes nothing; any other length closes the connection and ends the session.
pub proof fn law_good_lengths_are_read(session: SessionView, len: i32)
    requires
        session.phase == Phase::Negotiating || session.phase == Phase::Serving,
    ensures
        0 <= len <= 8192 ==> {
            &&& actions(session, EventView::MessageLength(len)) == seq![
                ActionView::ReadMessage(len as nat),
            ]
            &&& after(session, EventView::MessageLength(len)) == session
        },
        !(0 <= len <= 8192) ==> {
            &&& actions(session, EventView::MessageLength(len)) == seq![
                ActionView::CloseConnection,
            ]
            &&& after(session, EventView::MessageLength(len)) == (SessionView {
                phase: Phase::Ended,
                ticket: session.ticket,
            })
        },
{
}

/// The domain makes no difference to how lengths are dealt with.
pub proof fn law_lengths_do_not_depend_on_the_domain(
    ticket: Option<Seq<char>>,
    other_ticket: Option<Seq<char>>,
    len: i32,
)
    ensures
        actions(
            SessionView { phase: Phase::Negotiating, ticket },
            EventView::MessageLength(len),
        ) == actions(
            SessionView { phase: Phase::Serving, ticket: other_ticket },
            EventView::MessageLength(len),
        ),
        after(
            SessionView { phase: Phase::Negotiating, ticket },
            EventView::MessageLength(len),
        ).phase == Phase::Ended <==> after(
            SessionView { phase: Phase::Serving, ticket: other_ticket },
            EventView::MessageLength(len),
        ).phase == Phase::Ended,
{
}

/// What a host without a domain is answered, whatever ticket it registered before.
pub proof fn law_negotiation(before: Option<Seq<char>>, ticket: Seq<char>)
    ensures
        ({
            let session = SessionView { phase: Phase::Negotiating, ticket: before };
            let probe = EventView::Message(Some(Serverbound::ProbeCapabilities));
            let request = EventView::Message(Some(Serverbound::RequestDomainAssignment));
            let register = EventView::Message(
                Some(Serverbound::DialtoneRegisterTicket { ticket }),
            );
            let unknown = EventView::Message(None);
            &&& actions(session, probe) == seq![
                ActionView::Send(Clientbound::HasCapabilities { caps: seq!["dialtone_sidecar"@] }),
            ]
            &&& after(session, probe) == session
            &&& actions(session, request) == seq![ActionView::Register]
            &&& after(session, request) == (SessionView {
                phase: Phase::Registering,
                ticket: before,
            })
            &&& actions(session, register) == seq![
                ActionView::Send(Clientbound::TicketRegistered),
                ActionView::Send(Clientbound::UnknownMessage),
            ]
            &&& after(session, register) == (SessionView {
                phase: Phase::Negotiating,
                ticket: Some(ticket),
            })
            &&& actions(session, unknown) == seq![ActionView::Send(Clientbound::UnknownMessage)]
            &&& after(session, unknown) == session
        }),
{
}

/// The domain that was assigned is the one that the host is told, and from then on it is served;
/// its ticket stays.
pub proof fn law_assigned_domain_is_told(ticket: Option<Seq<char>>, domain: Seq<char>)
    ensures
        ({
            let session = SessionView { phase: Phase::Registering, ticket };
            &&& actions(session, EventView::Registered(domain)) == seq![
                ActionView::Send(Clientbound::DomainAssignmentComplete { domain }),
            ]
            &&& after(session, EventView::Registered(domain)) == (SessionView {
                phase: Phase::Serving,
                ticket,
            })
        }),
{
}

/// What a host with a domain sends is queued as it is; what is no known message is passed over.
/// Neither changes the session.
pub proof fn law_served_messages_are_queued(ticket: Option<Seq<char>>, message: Serverbound)
    ensures
        ({
            let session = SessionView { phase: Phase::Serving, ticket };
            &&& actions(session, EventView::Message(Some(message))) == seq![
                ActionView::Enqueue(message),
            ]
            &&& after(session, EventView::Message(Some(message))) == session
            &&& actions(session, EventView::Message(None)) == Seq::<ActionView>::empty()
            &&& after(session, EventView::Message(None)) == session
        }),
{
}

/// What each request to a host with a domain leads to. Only a new ticket changes the session, and
/// only the ticket in it; only the end of the requests ends it.
pub proof fn law_requests_are_served(
    before: Option<Seq<char>>,
    message: Seq<char>,
    ticket: Seq<char>,
)
    ensures
        ({
            let session = SessionView { phase: Phase::Serving, ticket: before };
            let route = EventView::Request(Some(RequestView::RouteRequest));
            let broadcast = EventView::Request(Some(RequestView::BroadcastRequest(message)));
            let tell = EventView::Request(Some(RequestView::TicketRequest));
            let register = EventView::Request(
                Some(
                    RequestView::ServerboundControlMessage(
                        Serverbound::DialtoneRegisterTicket { ticket },
                    ),
                ),
            );
            let probe = EventView::Request(
                Some(RequestView::ServerboundControlMessage(Serverbound::ProbeCapabilities)),
            );
            let again = EventView::Request(
                Some(RequestView::ServerboundControlMessage(Serverbound::RequestDomainAssignment)),
            );
            let done = EventView::Request(None);
            &&& actions(session, route) == seq![ActionView::OpenStream]
            &&& after(session, route) == session
            &&& actions(session, broadcast) == seq![
                ActionView::Send(Clientbound::RequestMessageBroadcast { message }),
            ]
            &&& after(session, broadcast) == session
            &&& actions(session, tell) == seq![ActionView::TellTicket(before)]
            &&& after(session, tell) == session
            &&& actions(session, register) == seq![
                ActionView::Send(Clientbound::TicketRegistered),
            ]
            &&& after(session, register) == (SessionView {
                phase: Phase::Serving,
                ticket: Some(ticket),
            })
            &&& actions(session, probe) == seq![ActionView::Send(Clientbound::UnknownMessage)]
            &&& after(session, probe) == session
            &&& actions(session, again) == seq![ActionView::Send(Clientbound::UnknownMessage)]
            &&& after(session, again) == session
            &&& actions(session, done) == Seq::<ActionView>::empty()
            &&& after(session, done) == (SessionView { phase: Phase::Ended, ticket: before })
        }),
{
}

/// A ticket that is registered is told to the next one who asks, and to everyone after that, until
/// another is registered; this holds with or without messages and players in between.
pub proof fn law_registered_ticket_is_told(
    before: Option<Seq<char>>,
    ticket: Seq<char>,
    message: Seq<char>,
)
    ensures
        ({
            let session = SessionView { phase: Phase::Serving, ticket: before };
            let register = EventView::Request(
                Some(
                    RequestView::ServerboundControlMessage(
                        Serverbound::DialtoneRegisterTicket { ticket },
                    ),
                ),
            );
            let tell = EventView::Request(Some(RequestView::TicketRequest));
            let route = EventView::Request(Some(RequestView::RouteRequest));
            let broadcast = EventView::Request(Some(RequestView::BroadcastRequest(message)));
            let registered = after(session, register);
            let busy = after(after(after(registered, tell), route), broadcast);
            &&& actions(registered, tell) == seq![ActionView::TellTicket(Some(ticket))]
            &&& actions(busy, tell) == seq![ActionView::TellTicket(Some(ticket))]
        }),
{
}

/// A stream that was opened is handed over and the session goes on. One that could not be ends the
/// session, without an error exactly if the host closed the connection.
pub proof fn law_streams_are_handed_over(ticket: Option<Seq<char>>, error: ConnectionError)
    ensures
        ({
            let session = SessionView { phase: Phase::Serving, ticket };
            let opened = EventView::StreamOpened(Ok(()));
            let refused = EventView::StreamOpened(Err(error));
            &&& actions(session, opened) == seq![ActionView::HandOver]
            &&& after(session, opened) == session
            &&& actions(session, refused) == Seq::<ActionView>::empty()
            &&& after(session, refused).ticket == ticket
            &&& after(session, refused).phase == (if error is ConnectionClosed
                || error is ApplicationClosed {
                Phase::Ended
            } else {
                Phase::Failed
            })
        }),
{
}

/// A lost connection ends the session, without an error exactly if either side closed it.
pub proof fn law_lost_connections_end_the_session(
    ticket: Option<Seq<char>>,
    error: ConnectionError,
)
    ensures
        ({
            let session = SessionView { phase: Phase::Serving, ticket };
            let lost = EventView::ConnectionLost(error);
            &&& actions(session, lost) == Seq::<ActionView>::empty()
            &&& after(session, lost).ticket == ticket
            &&& after(session, lost).phase == (if error is ConnectionClosed
                || error is ApplicationClosed || error is LocallyClosed {
                Phase::Ended
            } else {
                Phase::Failed
            })
        }),
{
}

/// An event that a session does not wait for does nothing: before there is a domain, requests,
/// streams and losses; while a domain is assigned, everything but the domain; with a domain,
/// another one; and after the end, everything.
pub proof fn law_unexpected_events_do_nothing(session: SessionView, event: EventView)
    requires
        match session.phase {
            Phase::Negotiating => !(event is MessageLength) && !(event is Message),
            Phase::Registering => !(event is Registered),
            Phase::Serving => event is Registered,
            Phase::Ended | Phase::Failed => true,
        },
    ensures
        actions(session, event) == Seq::<ActionView>::empty(),
        after(session, event) == session,
{
}

/// A run begins without a domain and without a ticket, and goes on one event at a time.
pub proof fn law_runs_go_event_by_event(events: Seq<EventView>, event: EventView)
    ensures
        run(Seq::empty()) == (SessionView { phase: Phase::Negotiating, ticket: None }),
        transcript(Seq::empty()) == Seq::<ActionView>::empty(),
        run(events.push(event)) == after(run(events), event),
        transcript(events.push(event)) == transcript(events) + actions(run(events), event),
{
    assert(events.push(event).drop_last() =~= events);
}

/// The views of actions are the views of each of them, in order.
pub proof fn law_action_views_keep_order(actions: Seq<Action>)
    ensures
        action_views(actions).len() == actions.len(),
        forall|i: int|
            0 <= i < actions.len() ==> #[trigger] action_views(actions)[i] == actions[i]@,
{
}

/// The view of an action tells its kind, and everything in it.
pub proof fn law_action_views_keep_everything(action: Action)
    ensures
        match action {
            Action::ReadMessage(len) => action@ == ActionView::ReadMessage(len as nat),
            Action::CloseConnection => action@ == ActionView::CloseConnection,
            Action::Send(message) => action@ == ActionView::Send(message@),
            Action::Register => action@ == ActionView::Register,
            Action::Enqueue(message) => action@ == ActionView::Enqueue(message@),
            Action::OpenStream => action@ == ActionView::OpenStream,
            Action::HandOver => action@ == ActionView::HandOver,
            Action::TellTicket(None) => action@ == ActionView::TellTicket(None),
            Action::TellTicket(Some(ticket)) => action@ == ActionView::TellTicket(Some(ticket@)),
        },
{
}

/// The view of an event tells its kind, and everything in it.
pub proof fn law_event_views_keep_everything(event: Event)
    ensures
        match event {
            Event::MessageLength(len) => event@ == EventView::MessageLength(len),
            Event::Message(None) => event@ == EventView::Message(None),
            Event::Message(Some(message)) => event@ == EventView::Message(Some(message@)),
            Event::Registered(domain) => event@ == EventView::Registered(domain@),
            Event::Request(None) => event@ == EventView::Request(None),
            Event::Request(Some(RouterRequest::RouteRequest)) => event@ == EventView::Request(
                Some(RequestView::RouteRequest),
            ),
            Event::Request(Some(RouterRequest::BroadcastRequest(message))) => event@
                == EventView::Request(Some(RequestView::BroadcastRequest(message@))),
            Event::Request(Some(RouterRequest::ServerboundControlMessage(message))) => event@
                == EventView::Request(Some(RequestView::ServerboundControlMessage(message@))),
            Event::Request(Some(RouterRequest::TicketRequest)) => event@ == EventView::Request(
                Some(RequestView::TicketRequest),
            ),
            Event::StreamOpened(opened) => event@ == EventView::StreamOpened(opened),
            Event::ConnectionLost(error) => event@ == EventView::ConnectionLost(error),
        },
{
}

/// A framed response is one byte longer than the response, begins with its length modulo 256, and
/// is the response byte for byte after that.
pub proof fn law_frame_layout(response: Seq<u8>)
    ensures
        response_frame(response).len() == response.len() + 1,
        response_frame(response)[0] == response.len() % 256,
        forall|i: int|
            0 <= i < response.len() ==> response_frame(response)[i + 1] == #[trigger] response[i],
{
}

} // verus!
