use quiclime::control::{
    frame_response, Action, ConnectionError, ControlSession, Event, Phase, RouterRequest,
};
use quiclime::proto::{ClientboundControlMessage, ServerboundControlMessage};

fn ticket(ticket: &str) -> ServerboundControlMessage {
    ServerboundControlMessage::DialtoneRegisterTicket { ticket: ticket.to_string() }
}

fn told(done: Vec<Action>) -> Option<String> {
    assert_eq!(done.len(), 1);
    match done.into_iter().next() {
        Some(Action::TellTicket(ticket)) => ticket,
        other => panic!("{other:?}"),
    }
}

fn serving() -> ControlSession {
    let mut session = ControlSession::new();
    let done = session.step(Event::Message(Some(
        ServerboundControlMessage::RequestDomainAssignment,
    )));
    assert!(matches!(done[..], [Action::Register]));
    assert_eq!(session.phase(), Phase::Registering);
    let done = session.step(Event::Registered("a-b.example.org".to_string()));
    match &done[..] {
        [Action::Send(ClientboundControlMessage::DomainAssignmentComplete { domain })] => {
            assert_eq!(domain, "a-b.example.org");
        }
        other => panic!("{other:?}"),
    }
    assert_eq!(session.phase(), Phase::Serving);
    session
}

#[test]
fn capabilities_are_told() {
    let mut session = ControlSession::new();
    let done = session.step(Event::Message(Some(ServerboundControlMessage::ProbeCapabilities)));
    match &done[..] {
        [Action::Send(ClientboundControlMessage::HasCapabilities { caps })] => {
            assert_eq!(caps, &vec!["dialtone_sidecar".to_string()]);
        }
        other => panic!("{other:?}"),
    }
    assert_eq!(session.phase(), Phase::Negotiating);
}

#[test]
fn unknown_messages_are_answered_as_such() {
    let mut session = ControlSession::new();
    let done = session.step(Event::Message(None));
    assert!(matches!(
        done[..],
        [Action::Send(ClientboundControlMessage::UnknownMessage)]
    ));
}

#[test]
fn an_early_ticket_is_registered_and_then_called_unknown() {
    let mut session = ControlSession::new();
    let done = session.step(Event::Message(Some(ticket("early"))));
    assert!(matches!(
        done[..],
        [
            Action::Send(ClientboundControlMessage::TicketRegistered),
            Action::Send(ClientboundControlMessage::UnknownMessage),
        ]
    ));
    session.step(Event::Message(Some(ServerboundControlMessage::RequestDomainAssignment)));
    session.step(Event::Registered("x.example.org".to_string()));
    let done = session.step(Event::Request(Some(RouterRequest::TicketRequest)));
    assert_eq!(told(done), Some("early".to_string()));
}

#[test]
fn the_last_ticket_is_told() {
    let mut session = serving();
    let done = session.step(Event::Request(Some(RouterRequest::TicketRequest)));
    assert_eq!(told(done), None);
    for name in ["one", "two"] {
        let done = session.step(Event::Message(Some(ticket(name))));
        let queued = match done.into_iter().next() {
            Some(Action::Enqueue(message)) => message,
            other => panic!("{other:?}"),
        };
        let done = session.step(Event::Request(Some(
            RouterRequest::ServerboundControlMessage(queued),
        )));
        assert!(matches!(
            done[..],
            [Action::Send(ClientboundControlMessage::TicketRegistered)]
        ));
    }
    let done = session.step(Event::Request(Some(RouterRequest::TicketRequest)));
    assert_eq!(told(done), Some("two".to_string()));
}

#[test]
fn a_queued_ticket_counts_once_it_is_handed_on() {
    let mut session = serving();
    session.step(Event::Message(Some(ticket("queued"))));
    let done = session.step(Event::Request(Some(RouterRequest::TicketRequest)));
    assert_eq!(told(done), None);
}

#[test]
fn a_host_with_a_domain_gets_no_second_one() {
    let mut session = serving();
    for message in [
        ServerboundControlMessage::RequestDomainAssignment,
        ServerboundControlMessage::ProbeCapabilities,
    ] {
        let done = session.step(Event::Request(Some(
            RouterRequest::ServerboundControlMessage(message),
        )));
        assert!(matches!(
            done[..],
            [Action::Send(ClientboundControlMessage::UnknownMessage)]
        ));
    }
    assert!(session.step(Event::Registered("again".to_string())).is_empty());
    assert_eq!(session.phase(), Phase::Serving);
}

#[test]
fn unknown_messages_are_ignored_once_there_is_a_domain() {
    let mut session = serving();
    assert!(session.step(Event::Message(None)).is_empty());
    assert_eq!(session.phase(), Phase::Serving);
}

#[test]
fn broadcasts_are_passed_on() {
    let mut session = serving();
    let done = session.step(Event::Request(Some(RouterRequest::BroadcastRequest(
        "maintenance".to_string(),
    ))));
    match &done[..] {
        [Action::Send(ClientboundControlMessage::RequestMessageBroadcast { message })] => {
            assert_eq!(message, "maintenance");
        }
        other => panic!("{other:?}"),
    }
}

#[test]
fn streams_are_opened_and_handed_over() {
    let mut session = serving();
    let done = session.step(Event::Request(Some(RouterRequest::RouteRequest)));
    assert!(matches!(done[..], [Action::OpenStream]));
    let done = session.step(Event::StreamOpened(Ok(())));
    assert!(matches!(done[..], [Action::HandOver]));
    assert_eq!(session.phase(), Phase::Serving);
}

const ERRORS: [ConnectionError; 8] = [
    ConnectionError::VersionMismatch,
    ConnectionError::TransportError,
    ConnectionError::ConnectionClosed,
    ConnectionError::ApplicationClosed,
    ConnectionError::Reset,
    ConnectionError::TimedOut,
    ConnectionError::LocallyClosed,
    ConnectionError::CidsExhausted,
];

#[test]
fn a_stream_that_cannot_be_opened_ends_the_session() {
    for error in ERRORS {
        let mut session = serving();
        assert!(session.step(Event::StreamOpened(Err(error))).is_empty());
        let expected = match error {
            ConnectionError::ConnectionClosed | ConnectionError::ApplicationClosed => Phase::Ended,
            _ => Phase::Failed,
        };
        assert_eq!(session.phase(), expected, "{error:?}");
    }
}

#[test]
fn a_lost_connection_ends_the_session() {
    for error in ERRORS {
        let mut session = serving();
        assert!(session.step(Event::ConnectionLost(error)).is_empty());
        let expected = match error {
            ConnectionError::ConnectionClosed
            | ConnectionError::ApplicationClosed
            | ConnectionError::LocallyClosed => Phase::Ended,
            _ => Phase::Failed,
        };
        assert_eq!(session.phase(), expected, "{error:?}");
    }
}

#[test]
fn lengths_are_bounded() {
    for len in [0, 1, 8192] {
        let mut session = ControlSession::new();
        match session.step(Event::MessageLength(len))[..] {
            [Action::ReadMessage(size)] => assert_eq!(size as i32, len),
            _ => panic!("{len}"),
        }
        assert_eq!(session.phase(), Phase::Negotiating);
    }
    for len in [-1, 8193, i32::MIN, i32::MAX] {
        for mut session in [ControlSession::new(), serving()] {
            let done = session.step(Event::MessageLength(len));
            assert!(matches!(done[..], [Action::CloseConnection]));
            assert_eq!(session.phase(), Phase::Ended);
        }
    }
}

#[test]
fn nothing_happens_after_the_end() {
    let mut session = serving();
    assert!(session.step(Event::Request(None)).is_empty());
    assert_eq!(session.phase(), Phase::Ended);
    assert!(session.step(Event::Message(Some(ticket("late")))).is_empty());
    assert!(session.step(Event::MessageLength(5)).is_empty());
    assert!(session.step(Event::Request(Some(RouterRequest::TicketRequest))).is_empty());
    assert!(session.step(Event::ConnectionLost(ConnectionError::Reset)).is_empty());
    assert_eq!(session.phase(), Phase::Ended);
}

#[test]
fn requests_wait_for_the_domain() {
    let mut session = ControlSession::new();
    assert!(session.step(Event::Request(Some(RouterRequest::RouteRequest))).is_empty());
    assert!(session.step(Event::Registered("x".to_string())).is_empty());
    assert_eq!(session.phase(), Phase::Negotiating);
}

#[test]
fn responses_carry_the_low_byte_of_their_length() {
    assert_eq!(frame_response(&vec![]), vec![0]);
    assert_eq!(frame_response(&vec![1, 2, 3]), vec![3, 1, 2, 3]);
    assert_eq!(frame_response(&vec![7; 255])[0], 255);
    let long = frame_response(&vec![7; 260]);
    assert_eq!(long[0], 4);
    assert_eq!(long[1..], [7; 260]);
}
