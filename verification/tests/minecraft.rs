use quiclime::blocklist::{Blocklist, BlocklistStatus, IpAddr};
use quiclime::minecraft::{
    greet, Arrival, Dismissal, FirstPacket, Greeting, LoginNotice, Refusal, Responses, StatusNotice,
};
use quiclime::netty::HandshakeType;
use quiclime::telemetry::{Connection, Origin};
use std::collections::HashMap;

const CLIENT: IpAddr = IpAddr::V6(0x2001_0db8 << 96);

fn origin() -> Origin {
    Origin { established: -5, region: "example.org", client: CLIENT }
}

fn listed(status: BlocklistStatus) -> Blocklist {
    let mut blocklist = Blocklist::new();
    let mut entries = HashMap::new();
    entries.insert(CLIENT.to_ipv6(), status);
    blocklist.refresh(Some(entries));
    blocklist
}

fn arrival(next_state: HandshakeType) -> Arrival {
    let address = Some("a-b.example.org".to_string());
    match greet(origin(), FirstPacket::Handshake { next_state, address }) {
        Greeting::Screen(arrival) => arrival,
        other => panic!("{other:?}"),
    }
}

fn check(record: &Connection, intent: &str, outcome: &str) {
    assert_eq!(record.established, -5);
    assert_eq!(record.region, "example.org");
    assert_eq!(record.client, 0x2001_0db8 << 96);
    assert_eq!(record.intent, intent);
    assert_eq!(record.outcome, outcome);
    assert_eq!(record.target, "a-b.example.org");
}

fn dismissal(next_state: HandshakeType, status: StatusNotice, login: LoginNotice) -> Dismissal {
    Dismissal { next_state, refusal: Refusal { status, login } }
}

const STATES: [(HandshakeType, &str); 2] =
    [(HandshakeType::Status, "status"), (HandshakeType::Login, "login")];

#[test]
fn first_packets_are_told_apart() {
    assert!(matches!(
        greet(origin(), FirstPacket::LegacyServerListPing),
        Greeting::AnswerLegacyPing
    ));
    assert!(matches!(greet(origin(), FirstPacket::Unreadable), Greeting::Fail));
    for (next_state, _) in STATES {
        let first = FirstPacket::Handshake { next_state, address: None };
        match greet(origin(), first) {
            Greeting::Dismiss(dismissed) => assert_eq!(
                dismissed,
                dismissal(next_state, StatusNotice::Polite, LoginNotice::Polite)
            ),
            other => panic!("{other:?}"),
        }
    }
}

#[test]
fn players_are_connected() {
    for (next_state, intent) in STATES {
        let player = arrival(next_state).screen(false, &Blocklist::new()).unwrap();
        assert_eq!(player.address(), "a-b.example.org");
        let (record, dismissed) = player.route(true);
        check(&record, intent, "ok");
        assert_eq!(dismissed, None);
    }
}

#[test]
fn players_without_a_host_are_turned_away_politely() {
    for (next_state, intent) in STATES {
        let player = arrival(next_state).screen(false, &Blocklist::new()).unwrap();
        let (record, dismissed) = player.route(false);
        check(&record, intent, "bad_domain");
        assert_eq!(
            dismissed,
            Some(dismissal(next_state, StatusNotice::Polite, LoginNotice::Polite))
        );
    }
}

#[test]
fn the_player_limit_comes_before_the_list() {
    for (next_state, intent) in STATES {
        for blocklist in [Blocklist::new(), listed(BlocklistStatus::ShadowBanned)] {
            let (record, dismissed) = arrival(next_state).screen(true, &blocklist).unwrap_err();
            check(&record, intent, "ratelimited");
            assert_eq!(dismissed, dismissal(next_state, StatusNotice::Rate, LoginNotice::Rate));
        }
    }
}

#[test]
fn shadow_banned_players_see_no_host() {
    for (next_state, intent) in STATES {
        let blocklist = listed(BlocklistStatus::ShadowBanned);
        let (record, dismissed) = arrival(next_state).screen(false, &blocklist).unwrap_err();
        check(&record, intent, "shadowbanned");
        assert_eq!(dismissed, dismissal(next_state, StatusNotice::Polite, LoginNotice::Polite));
    }
}

#[test]
fn blocked_players_are_told_so() {
    for (next_state, intent) in STATES {
        let blocklist = listed(BlocklistStatus::Blocked);
        let (record, dismissed) = arrival(next_state).screen(false, &blocklist).unwrap_err();
        check(&record, intent, "blocked");
        assert_eq!(dismissed, dismissal(next_state, StatusNotice::Blocked, LoginNotice::Blocked));
    }
}

#[test]
fn masked_players_may_log_in() {
    let blocklist = listed(BlocklistStatus::PingMasked);
    let (record, dismissed) =
        arrival(HandshakeType::Status).screen(false, &blocklist).unwrap_err();
    check(&record, "status", "ping_masked");
    assert_eq!(
        dismissed,
        dismissal(HandshakeType::Status, StatusNotice::Masked, LoginNotice::Blocked)
    );
    let player = arrival(HandshakeType::Login).screen(false, &blocklist).unwrap();
    let (record, dismissed) = player.route(true);
    check(&record, "login", "ok");
    assert_eq!(dismissed, None);
}

#[test]
fn every_notice_has_its_text() {
    let responses = Responses {
        serverlistping_response: "s".to_string(),
        serverlistping_response_rate: "sr".to_string(),
        serverlistping_response_blocked: "sb".to_string(),
        serverlistping_response_masked: "sm".to_string(),
        disconnect_response: "d".to_string(),
        disconnect_response_rate: "dr".to_string(),
        disconnect_response_blocked: "db".to_string(),
    };
    let statuses = [
        (StatusNotice::Polite, "s"),
        (StatusNotice::Rate, "sr"),
        (StatusNotice::Blocked, "sb"),
        (StatusNotice::Masked, "sm"),
    ];
    for (status, text) in statuses {
        let dismissed = dismissal(HandshakeType::Status, status, LoginNotice::Rate);
        let (bytes, next) = responses.disconnect(dismissed).answer(&[0]).unwrap();
        assert_eq!(bytes[3..], *text.as_bytes());
        assert!(next.is_some());
    }
    let logins = [
        (LoginNotice::Polite, "d"),
        (LoginNotice::Rate, "dr"),
        (LoginNotice::Blocked, "db"),
    ];
    for (login, text) in logins {
        let dismissed = dismissal(HandshakeType::Login, StatusNotice::Masked, login);
        let (bytes, next) = responses.disconnect(dismissed).answer(&[0, 1, 2]).unwrap();
        assert_eq!(bytes[3..], *text.as_bytes());
        assert!(next.is_none());
    }
}
