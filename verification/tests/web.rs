use quiclime::blocklist::{Blocklist, BlocklistStatus, IpAddr};
use quiclime::telemetry::Origin;
use quiclime::web::{metrics, reload_response, TicketReply, TicketRequest};
use std::collections::HashMap;

const CLIENT: IpAddr = IpAddr::V4(0xcb00_7109);

fn origin() -> Origin {
    Origin { established: 1_700_000_000_123_456_789, region: "example.org", client: CLIENT }
}

fn listed(status: BlocklistStatus) -> Blocklist {
    let mut blocklist = Blocklist::new();
    let mut entries = HashMap::new();
    entries.insert(CLIENT.to_ipv6(), status);
    blocklist.refresh(Some(entries));
    blocklist
}

fn request() -> TicketRequest {
    TicketRequest::new(origin(), Some("a-b.example.org".to_string())).unwrap()
}

fn check(reply: TicketReply, status: u16, body: &str, outcome: &str) {
    assert_eq!(reply.response.status, status);
    assert_eq!(reply.response.body, body);
    assert_eq!(reply.record.established, 1_700_000_000_123_456_789);
    assert_eq!(reply.record.region, "example.org");
    assert_eq!(reply.record.client, 0xffff_cb00_7109);
    assert_eq!(reply.record.intent, "dialtone");
    assert_eq!(reply.record.outcome, outcome);
    assert_eq!(reply.record.target, "a-b.example.org");
}

#[test]
fn a_domain_without_a_normal_form_is_not_found() {
    let response = TicketRequest::new(origin(), None).unwrap_err();
    assert_eq!(response.status, 404);
    assert_eq!(response.body, "");
}

#[test]
fn a_ticket_is_handed_out() {
    let screened = request().screen(false, &Blocklist::new()).unwrap();
    assert_eq!(screened.address(), "a-b.example.org");
    check(screened.answer(Some("t1".to_string())), 200, "t1", "ok");
}

#[test]
fn a_host_without_a_ticket_is_not_found() {
    let screened = request().screen(false, &Blocklist::new()).unwrap();
    check(screened.answer(None), 404, "", "bad_domain");
}

#[test]
fn the_limit_comes_before_the_list() {
    let reply = request().screen(true, &Blocklist::new()).unwrap_err();
    check(reply, 429, "", "ratelimited");
    let reply = request().screen(true, &listed(BlocklistStatus::Blocked)).unwrap_err();
    check(reply, 429, "", "ratelimited");
}

#[test]
fn restricted_clients_find_nothing() {
    for (status, outcome) in [
        (BlocklistStatus::ShadowBanned, "shadowbanned"),
        (BlocklistStatus::Blocked, "blocked"),
        (BlocklistStatus::PingMasked, "ping_masked"),
    ] {
        let reply = request().screen(false, &listed(status)).unwrap_err();
        check(reply, 404, "", outcome);
    }
}

#[test]
fn metrics_count_the_hosts() {
    assert_eq!(metrics(0), "host_count 0\n");
    assert_eq!(metrics(7), "host_count 7\n");
    assert_eq!(metrics(1_234_567_890), "host_count 1234567890\n");
    assert_eq!(metrics(usize::MAX), format!("host_count {}\n", usize::MAX));
}

#[test]
fn reloading_reports_what_went_wrong() {
    let response = reload_response(None);
    assert_eq!((response.status, response.body.as_str()), (200, "Success"));
    let response = reload_response(Some("no items found".to_string()));
    assert_eq!((response.status, response.body.as_str()), (500, "no items found"));
}
