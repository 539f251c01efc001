//! What the relay answers over HTTP.

use crate::blocklist::listed;
use crate::blocklist::{Blocklist, BlocklistStatus};
use crate::telemetry::{records, refusal_outcome};
use crate::telemetry::{Connection, Intent, Origin, Outcome};
use crate::text::append_digits;
use crate::text::digits;
use vstd::prelude::*;
use vstd::string::*;

verus! {

/// A response: its status code and its body.
#[derive(Debug)]
pub struct HttpResponse {
    pub status: u16,
    pub body: String,
}

/// The request for the dialtone ticket of the host at a domain.
#[derive(Debug)]
pub struct TicketRequest {
    origin: Origin,
    address: String,
}

/// A ticket request that has not been turned away.
#[derive(Debug)]
pub struct ScreenedRequest {
    request: TicketRequest,
}

/// What is known of a ticket request.
pub struct TicketRequestView {
    /// Where and when the request came in.
    pub origin: Origin,
    /// The domain, in its normal form.
    pub address: Seq<char>,
}

impl View for TicketRequest {
    type V = TicketRequestView;

    closed spec fn view(&self) -> TicketRequestView {
        TicketRequestView { origin: self.origin, address: self.address@ }
    }
}

impl View for ScreenedRequest {
    type V = TicketRequestView;

    closed spec fn view(&self) -> TicketRequestView {
        self.request@
    }
}

/// The response to a ticket request, and its record.
#[derive(Debug)]
pub struct TicketReply {
    pub response: HttpResponse,
    pub record: Connection,
}

/// What becomes of a ticket request, given whether its client is over the rate limit, how the
/// blocklist restricts the client, and the ticket of the host at the domain. The limit comes
/// first, then the list; any restriction stands in the way of the ticket.
pub open spec fn ticket_outcome<T>(
    limited: bool,
    status: Option<BlocklistStatus>,
    ticket: Option<T>,
) -> Outcome {
    if limited {
        Outcome::Ratelimited
    } else {
        match (status, ticket) {
            (Some(status), _) => refusal_outcome(status),
            (None, Some(_)) => Outcome::Success,
            (None, None) => Outcome::BadDomain,
        }
    }
}

/// The status code of the response to a ticket request.
pub open spec fn ticket_status(outcome: Outcome) -> u16 {
    match outcome {
        Outcome::Success => 200,
        Outcome::Ratelimited => 429,
        _ => 404,
    }
}

/// `reply` answers `request`, which came to `outcome`, with `body`.
pub open spec fn replies(
    reply: TicketReply,
    request: TicketRequestView,
    outcome: Outcome,
    body: Seq<char>,
) -> bool {
    &&& reply.response.status == ticket_status(outcome)
    &&& reply.response.body@ == body
    &&& records(reply.record, request.origin, Intent::Dialtone, outcome, request.address)
}

impl TicketRequest {
    /// The request for the ticket at `address`, the normal form of the domain that was asked for.
    /// A domain without one is not found, and that is not recorded.
    pub fn new(origin: Origin, address: Option<String>) -> (request: Result<
        TicketRequest,
        HttpResponse,
    >)
        ensures
            match address {
                Some(address) => request matches Ok(request) && request@ == (TicketRequestView {
                    origin,
                    address: address@,
                }),
                None => request matches Err(response) && response.status == 404
                    && response.body@.len() == 0,
            },
    {
        match address {
            Some(address) => Ok(TicketRequest { origin, address }),
            None => Err(HttpResponse { status: 404, body: String::new() }),
        }
    }

    /// Lets the request pass, or turns it away before the host is asked for its ticket.
    pub fn screen(self, limited: bool, blocklist: &Blocklist) -> (screened: Result<
        ScreenedRequest,
        TicketReply,
    >)
        ensures
            screened is Err <==> limited || listed(blocklist@, self@.origin.client) is Some,
            match screened {
                Ok(request) => request@ == self@,
                Err(reply) => replies(
                    reply,
                    self@,
                    ticket_outcome::<Seq<char>>(
                        limited,
                        listed(blocklist@, self@.origin.client),
                        None,
                    ),
                    Seq::empty(),
                ),
            },
            screened matches Err(reply) ==> {
                &&& reply.response.status == (if limited {
                    429u16
                } else {
                    404u16
                })
                &&& reply.response.body@.len() == 0
                &&& limited ==> reply.record.outcome@ == "ratelimited"@
                &&& reply.record.target@ == self@.address
                &&& reply.record.intent@ == "dialtone"@
            },
    {
        if limited {
            return Err(self.reply(Outcome::Ratelimited, 429, String::new()));
        }
        match blocklist.status(self.origin.client) {
            Some(status) => Err(self.reply(Outcome::of_refusal(status), 404, String::new())),
            None => Ok(ScreenedRequest { request: self }),
        }
    }

    fn reply(&self, outcome: Outcome, status: u16, body: String) -> (reply: TicketReply)
        requires
            status == ticket_status(outcome),
        ensures
            replies(reply, self@, outcome, body@),
    {
        let record: Connection = Connection::new(
            &self.origin,
            Intent::Dialtone,
            outcome,
            self.address.as_str(),
        );
        TicketReply { response: HttpResponse { status, body }, record }
    }
}

impl ScreenedRequest {
    /// The domain of the host to ask.
    pub fn address(&self) -> (address: &str)
        ensures
            address@ == self@.address,
    {
        self.request.address.as_str()
    }

    /// The reply to the request, given the host's ticket.
    pub fn answer(self, ticket: Option<String>) -> (reply: TicketReply)
        ensures
            replies(
                reply,
                self@,
                ticket_outcome(false, None, ticket),
                match ticket {
                    Some(ticket) => ticket@,
                    None => Seq::empty(),
                },
            ),
            ticket matches Some(ticket) ==> {
                &&& reply.response.status == 200
                &&& reply.response.body@ == ticket@
                &&& reply.record.outcome@ == "ok"@
            },
            ticket is None ==> {
                &&& reply.response.status == 404
                &&& reply.response.body@.len() == 0
                &&& reply.record.outcome@ == "bad_domain"@
            },
            reply.record.target@ == self@.address,
            reply.record.intent@ == "dialtone"@,
    {
        match ticket {
            Some(ticket) => self.request.reply(Outcome::Success, 200, ticket),
            None => self.request.reply(Outcome::BadDomain, 404, String::new()),
        }
    }
}

/// A ticket is handed out exactly if the client is neither over the limit nor restricted in any
/// way and there is a ticket, and exactly then is the request recorded and answered as a success.
pub proof fn law_tickets_are_for_the_unrestricted<T>(
    limited: bool,
    status: Option<BlocklistStatus>,
    ticket: Option<T>,
)
    ensures
        ticket_outcome(limited, status, ticket) == Outcome::Success <==> !limited && status is None
            && ticket is Some,
        ticket_status(ticket_outcome(limited, status, ticket)) == 200 <==> ticket_outcome(
            limited,
            status,
            ticket,
        ) == Outcome::Success,
{
}

/// A request that is turned away comes to the same whether there is a ticket or not; for one that
/// is not, the limit and the blocklist might as well not be there.
pub proof fn law_ticket_stages_agree<T>(
    limited: bool,
    status: Option<BlocklistStatus>,
    ticket: Option<T>,
)
    ensures
        limited || status is Some ==> ticket_outcome(limited, status, ticket) == ticket_outcome::<
            T,
        >(limited, status, None),
        !(limited || status is Some) ==> ticket_outcome(limited, status, ticket)
            == ticket_outcome(false, None, ticket),
{
}

/// Below the limit, every restricted client is answered like one that asks for an unknown domain.
pub proof fn law_restricted_clients_find_nothing<T>(status: BlocklistStatus, ticket: Option<T>)
    ensures
        ticket_status(ticket_outcome(false, Some(status), ticket)) == ticket_status(
            ticket_outcome::<T>(false, None, None),
        ),
{
}

/// What the metrics page says of `hosts` connected hosts.
pub fn metrics(hosts: usize) -> (page: String)
    ensures
        page@ == "host_count "@ + digits(hosts as nat, 10) + "\n"@,
{
    let mut page: String = "host_count ".to_owned();
    append_digits(&mut page, hosts as u64, 10);
    page.append("\n");
    page
}

/// The response to a request to reload the certificates, given what went wrong, if anything.
pub fn reload_response(failure: Option<String>) -> (response: HttpResponse)
    ensures
        match failure {
            None => response.status == 200 && response.body@ == "Success"@,
            Some(failure) => response.status == 500 && response.body@ == failure@,
        },
{
    match failure {
        None => HttpResponse { status: 200, body: "Success".to_owned() },
        Some(failure) => HttpResponse { status: 500, body: failure },
    }
}

/// What a reply says: exactly the body that it was made with, whoever asks, the status of the
/// outcome, and a record of this request with that outcome.
pub proof fn law_reply_is_complete(
    reply: TicketReply,
    request: TicketRequestView,
    outcome: Outcome,
    body: Seq<char>,
)
    requires
        replies(reply, request, outcome, body),
    ensures
        reply.response.body@ == body,
        outcome == Outcome::Success <==> reply.response.status == 200,
        outcome == Outcome::Ratelimited <==> reply.response.status == 429,
        outcome != Outcome::Success && outcome != Outcome::Ratelimited <==> reply.response.status
            == 404,
        records(reply.record, request.origin, Intent::Dialtone, outcome, request.address),
        reply.record.target@ == request.address,
        reply.record.intent@ == "dialtone"@,
{
}

/// Two requests for the same domain, whoever makes them, are told the same: the replies to them
/// differ in nothing but the record if they came to the same and were made with the same body.
pub proof fn law_clients_are_told_alike(
    first: TicketReply,
    first_request: TicketRequestView,
    second: TicketReply,
    second_request: TicketRequestView,
    outcome: Outcome,
    body: Seq<char>,
)
    requires
        replies(first, first_request, outcome, body),
        replies(second, second_request, outcome, body),
    ensures
        first.response.body@ == second.response.body@,
        first.response.body@ == body,
        first.response.status == second.response.status,
{
}

/// Each way to be turned away has its own outcome: the limit whatever the list says, a restriction
/// its own, and without either only a missing ticket.
pub proof fn law_ticket_outcomes<T>(status: Option<BlocklistStatus>, ticket: Option<T>)
    ensures
        ticket_outcome(true, status, ticket) == Outcome::Ratelimited,
        status == Some(BlocklistStatus::ShadowBanned) <==> ticket_outcome(false, status, ticket)
            == Outcome::ShadowBanned,
        status == Some(BlocklistStatus::Blocked) <==> ticket_outcome(false, status, ticket)
            == Outcome::Blocked,
        status == Some(BlocklistStatus::PingMasked) <==> ticket_outcome(false, status, ticket)
            == Outcome::PingMasked,
        status is None && ticket is None <==> ticket_outcome(false, status, ticket)
            == Outcome::BadDomain,
        status is None && ticket is Some <==> ticket_outcome(false, status, ticket)
            == Outcome::Success,
{
}

/// The status codes: 200 for a ticket, 429 over the limit, 404 for everything else.
pub proof fn law_ticket_status_codes(outcome: Outcome)
    ensures
        ticket_status(outcome) == 200 <==> outcome == Outcome::Success,
        ticket_status(outcome) == 429 <==> outcome == Outcome::Ratelimited,
        ticket_status(outcome) == 404 <==> outcome != Outcome::Success && outcome
            != Outcome::Ratelimited,
{
}

} // verus!
