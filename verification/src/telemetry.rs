//! What is recorded about each connection.

use crate::blocklist::ipv6;
use crate::blocklist::{BlocklistStatus, IpAddr};
use crate::netty::HandshakeType;
use vstd::prelude::*;

verus! {

/// What a client came for.
#[derive(Clone, Copy, Debug, PartialEq, Eq, Structural)]
pub enum Intent {
    /// A host's dialtone ticket.
    Dialtone,
    /// A host's server list entry.
    Status,
    /// A host's game.
    Login,
}

/// What became of a connection.
#[derive(Clone, Copy, Debug, PartialEq, Eq, Structural)]
pub enum Outcome {
    Ratelimited,
    ShadowBanned,
    Blocked,
    PingMasked,
    Success,
    BadDomain,
}

/// The name under which an intent is recorded.
pub open spec fn intent_name(intent: Intent) -> Seq<char> {
    match intent {
        Intent::Dialtone => "dialtone"@,
        Intent::Status => "status"@,
        Intent::Login => "login"@,
    }
}

/// The name under which an outcome is recorded.
pub open spec fn outcome_name(outcome: Outcome) -> Seq<char> {
    match outcome {
        Outcome::Ratelimited => "ratelimited"@,
        Outcome::ShadowBanned => "shadowbanned"@,
        Outcome::Blocked => "blocked"@,
        Outcome::PingMasked => "ping_masked"@,
        Outcome::Success => "ok"@,
        Outcome::BadDomain => "bad_domain"@,
    }
}

/// The intent that a handshake states.
pub open spec fn handshake_intent(next_state: HandshakeType) -> Intent {
    match next_state {
        HandshakeType::Status => Intent::Status,
        HandshakeType::Login => Intent::Login,
    }
}

/// The outcome of a connection that is turned away because of the blocklist.
pub open spec fn refusal_outcome(status: BlocklistStatus) -> Outcome {
    match status {
        BlocklistStatus::ShadowBanned => Outcome::ShadowBanned,
        BlocklistStatus::Blocked => Outcome::Blocked,
        BlocklistStatus::PingMasked => Outcome::PingMasked,
    }
}

impl Intent {
    /// The name under which the intent is recorded.
    pub fn name(&self) -> (name: &'static str)
        ensures
            name@ == intent_name(*self),
    {
        match self {
            Intent::Dialtone => "dialtone",
            Intent::Status => "status",
            Intent::Login => "login",
        }
    }

    /// The intent that a handshake states.
    pub fn of_handshake(next_state: HandshakeType) -> (intent: Intent)
        ensures
            intent == handshake_intent(next_state),
    {
        match next_state {
            HandshakeType::Status => Intent::Status,
            HandshakeType::Login => Intent::Login,
        }
    }
}

impl Outcome {
    /// The name under which the outcome is recorded.
    pub fn name(&self) -> (name: &'static str)
        ensures
            name@ == outcome_name(*self),
    {
        match self {
            Outcome::Ratelimited => "ratelimited",
            Outcome::ShadowBanned => "shadowbanned",
            Outcome::Blocked => "blocked",
            Outcome::PingMasked => "ping_masked",
            Outcome::Success => "ok",
            Outcome::BadDomain => "bad_domain",
        }
    }

    /// The outcome of a connection that is turned away because of the blocklist.
    pub fn of_refusal(status: BlocklistStatus) -> (outcome: Outcome)
        ensures
            outcome == refusal_outcome(status),
    {
        match status {
            BlocklistStatus::ShadowBanned => Outcome::ShadowBanned,
            BlocklistStatus::Blocked => Outcome::Blocked,
            BlocklistStatus::PingMasked => Outcome::PingMasked,
        }
    }
}

/// The record of a connection.
#[derive(Debug)]
pub struct Connection {
    /// When the connection came in, in nanoseconds since the beginning of 1970, UTC.
    pub established: i128,
    /// The base domain of the relay.
    pub region: &'static str,
    /// The IPv6 address that stands for the client.
    pub client: u128,
    pub intent: &'static str,
    pub outcome: &'static str,
    /// The domain that the client asked for.
    pub target: String,
}

/// Where and when a connection came in.
#[derive(Clone, Copy, Debug)]
pub struct Origin {
    /// When the connection came in, in nanoseconds since the beginning of 1970, UTC.
    pub established: i128,
    /// The base domain of the relay.
    pub region: &'static str,
    /// The address of the client.
    pub client: IpAddr,
}

/// The record of a connection with that origin, intent, outcome and target.
pub open spec fn records(
    connection: Connection,
    origin: Origin,
    intent: Intent,
    outcome: Outcome,
    target: Seq<char>,
) -> bool {
    &&& connection.established == origin.established
    &&& connection.region@ == origin.region@
    &&& connection.client == ipv6(origin.client)
    &&& connection.intent@ == intent_name(intent)
    &&& connection.outcome@ == outcome_name(outcome)
    &&& connection.target@ == target
}

impl Connection {
    /// The record of a connection.
    pub fn new(origin: &Origin, intent: Intent, outcome: Outcome, target: &str) -> (connection:
        Connection)
        ensures
            records(connection, *origin, intent, outcome, target@),
            connection.established == origin.established,
            connection.region@ == origin.region@,
            origin.client matches IpAddr::V6(own) ==> connection.client == own,
            origin.client matches IpAddr::V4(own) ==> connection.client == 0xffff_0000_0000 + own,
            connection.target@ == target@,
    {
        Connection {
            established: origin.established,
            region: origin.region,
            client: origin.client.to_ipv6(),
            intent: intent.name(),
            outcome: outcome.name(),
            target: target.to_owned(),
        }
    }
}

/// No two outcomes are recorded under the same name.
pub proof fn law_outcomes_are_told_apart(first: Outcome, second: Outcome)
    requires
        outcome_name(first) == outcome_name(second),
    ensures
        first == second,
{
    reveal_strlit("ratelimited");
    reveal_strlit("shadowbanned");
    reveal_strlit("blocked");
    reveal_strlit("ping_masked");
    reveal_strlit("ok");
    reveal_strlit("bad_domain");
    assert("ratelimited"@.len() == 11 && "ratelimited"@[0] == 'r');
    assert("shadowbanned"@.len() == 12);
    assert("blocked"@.len() == 7);
    assert("ping_masked"@.len() == 11 && "ping_masked"@[0] == 'p');
    assert("ok"@.len() == 2);
    assert("bad_domain"@.len() == 10);
}

/// A record holds the time and the region of its connection, the whole address of the client, and
/// the target, unchanged, whoever the client is; intent and outcome are recorded by name.
pub proof fn law_records_are_complete(
    connection: Connection,
    origin: Origin,
    intent: Intent,
    outcome: Outcome,
    target: Seq<char>,
)
    ensures
        records(connection, origin, intent, outcome, target) <==> {
            &&& connection.established == origin.established
            &&& connection.region@ == origin.region@
            &&& origin.client matches IpAddr::V6(own) ==> connection.client == own
            &&& origin.client matches IpAddr::V4(own) ==> connection.client == 0xffff_0000_0000
                + own
            &&& connection.intent@ == intent_name(intent)
            &&& connection.outcome@ == outcome_name(outcome)
            &&& connection.target@ == target
        },
{
}

/// The names under which intents and outcomes are recorded.
pub proof fn law_names()
    ensures
        intent_name(Intent::Dialtone) == "dialtone"@,
        intent_name(Intent::Status) == "status"@,
        intent_name(Intent::Login) == "login"@,
        outcome_name(Outcome::Ratelimited) == "ratelimited"@,
        outcome_name(Outcome::ShadowBanned) == "shadowbanned"@,
        outcome_name(Outcome::Blocked) == "blocked"@,
        outcome_name(Outcome::PingMasked) == "ping_masked"@,
        outcome_name(Outcome::Success) == "ok"@,
        outcome_name(Outcome::BadDomain) == "bad_domain"@,
{
}

/// A player is recorded with the intent that the handshake states, and a refused client with the
/// restriction that is the reason.
pub proof fn law_intents_and_refusals_keep_their_kind(
    next_state: HandshakeType,
    status: BlocklistStatus,
)
    ensures
        next_state == HandshakeType::Status <==> handshake_intent(next_state) == Intent::Status,
        next_state == HandshakeType::Login <==> handshake_intent(next_state) == Intent::Login,
        status == BlocklistStatus::ShadowBanned <==> refusal_outcome(status)
            == Outcome::ShadowBanned,
        status == BlocklistStatus::Blocked <==> refusal_outcome(status) == Outcome::Blocked,
        status == BlocklistStatus::PingMasked <==> refusal_outcome(status) == Outcome::PingMasked,
{
}

} // verus!
