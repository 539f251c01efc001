//! Which players are let through to a host, and what the others are told.

use crate::blocklist::listed;
use crate::blocklist::{Blocklist, BlocklistStatus};
use crate::disconnect::{Disconnect, DisconnectView};
use crate::netty::HandshakeType;
use crate::telemetry::{handshake_intent, records};
use crate::telemetry::{Connection, Intent, Origin, Outcome};
use vstd::prelude::*;

verus! {

/// The longest first packet that is read, in bytes.
pub const MAX_FIRST_PACKET: usize = 512;

/// The first packet of a player.
#[derive(Debug)]
pub enum FirstPacket {
    /// A server list ping of the days before there were packets.
    LegacyServerListPing,
    /// Something that cannot be read, or is no handshake.
    Unreadable,
    /// A handshake, with the normal form of the domain in it, if that has one.
    Handshake { next_state: HandshakeType, address: Option<String> },
}

/// Which server list entry a player who is turned away sees.
#[derive(Clone, Copy, Debug, PartialEq, Eq, Structural)]
pub enum StatusNotice {
    Polite,
    Rate,
    Blocked,
    Masked,
}

/// Which reason a player who is turned away is told at login.
#[derive(Clone, Copy, Debug, PartialEq, Eq, Structural)]
pub enum LoginNotice {
    Polite,
    Rate,
    Blocked,
}

/// What a player who is turned away is told.
#[derive(Clone, Copy, Debug, PartialEq, Eq, Structural)]
pub struct Refusal {
    pub status: StatusNotice,
    pub login: LoginNotice,
}

/// A player who is turned away.
#[derive(Clone, Copy, Debug, PartialEq, Eq, Structural)]
pub struct Dismissal {
    pub next_state: HandshakeType,
    pub refusal: Refusal,
}

/// A player who asks for a host.
#[derive(Debug)]
pub struct Arrival {
    origin: Origin,
    next_state: HandshakeType,
    address: String,
}

/// A player who asks for a host and has not been turned away.
#[derive(Debug)]
pub struct Screened {
    arrival: Arrival,
}

/// What is known of a player who asks for a host.
pub struct ArrivalView {
    /// Where and when the player came in.
    pub origin: Origin,
    pub next_state: HandshakeType,
    /// The domain of the host, in its normal form.
    pub address: Seq<char>,
}

impl View for Arrival {
    type V = ArrivalView;

    closed spec fn view(&self) -> ArrivalView {
        ArrivalView {
            origin: self.origin,
            next_state: self.next_state,
            address: self.address@,
        }
    }
}

impl View for Screened {
    type V = ArrivalView;

    closed spec fn view(&self) -> ArrivalView {
        self.arrival@
    }
}

/// What is done about a player's first packet.
#[derive(Debug)]
pub enum Greeting {
    /// Send the fixed answer to a legacy ping.
    AnswerLegacyPing,
    /// Drop the connection, as an error.
    Fail,
    /// Turn the player away.
    Dismiss(Dismissal),
    /// See whether the player may come in.
    Screen(Arrival),
}

/// What a player is told whose host does not exist.
pub open spec fn polite_refusal() -> Refusal {
    Refusal { status: StatusNotice::Polite, login: LoginNotice::Polite }
}

/// The player is turned away before the host is looked for.
pub open spec fn turned_away(
    next_state: HandshakeType,
    limited: bool,
    status: Option<BlocklistStatus>,
) -> bool {
    ||| limited
    ||| status == Some(BlocklistStatus::ShadowBanned)
    ||| status == Some(BlocklistStatus::Blocked)
    ||| status == Some(BlocklistStatus::PingMasked) && next_state == HandshakeType::Status
}

/// What becomes of a player, given whether the player is over the rate limit, how the blocklist
/// restricts the player, and whether the host was found. The limit comes first, then the list; a
/// mask stands only in the way of a status.
pub open spec fn player_outcome(
    next_state: HandshakeType,
    limited: bool,
    status: Option<BlocklistStatus>,
    found: bool,
) -> Outcome {
    if limited {
        Outcome::Ratelimited
    } else {
        match (status, next_state) {
            (Some(BlocklistStatus::ShadowBanned), _) => Outcome::ShadowBanned,
            (Some(BlocklistStatus::Blocked), _) => Outcome::Blocked,
            (Some(BlocklistStatus::PingMasked), HandshakeType::Status) => Outcome::PingMasked,
            _ => if found {
                Outcome::Success
            } else {
                Outcome::BadDomain
            },
        }
    }
}

/// What a player with that outcome is told; `None` for a player who is let through.
pub open spec fn outcome_refusal(outcome: Outcome) -> Option<Refusal> {
    match outcome {
        Outcome::Success => None,
        Outcome::Ratelimited => Some(
            Refusal { status: StatusNotice::Rate, login: LoginNotice::Rate },
        ),
        Outcome::Blocked => Some(
            Refusal { status: StatusNotice::Blocked, login: LoginNotice::Blocked },
        ),
        Outcome::PingMasked => Some(
            Refusal { status: StatusNotice::Masked, login: LoginNotice::Blocked },
        ),
        Outcome::ShadowBanned | Outcome::BadDomain => Some(polite_refusal()),
    }
}

impl Refusal {
    /// What a player is told whose host does not exist.
    pub fn polite() -> (refusal: Refusal)
        ensures
            refusal == polite_refusal(),
            refusal.status == StatusNotice::Polite,
            refusal.login == LoginNotice::Polite,
    {
        Refusal { status: StatusNotice::Polite, login: LoginNotice::Polite }
    }
}

/// Decides about a player's first packet. A handshake for a domain without a normal form is
/// turned away politely, and that is not recorded.
pub fn greet(origin: Origin, first: FirstPacket) -> (greeting: Greeting)
    ensures
        match first {
            FirstPacket::LegacyServerListPing => greeting is AnswerLegacyPing,
            FirstPacket::Unreadable => greeting is Fail,
            FirstPacket::Handshake { next_state, address: None } => greeting == Greeting::Dismiss(
                Dismissal {
                    next_state,
                    refusal: Refusal { status: StatusNotice::Polite, login: LoginNotice::Polite },
                },
            ),
            FirstPacket::Handshake { next_state, address: Some(address) } => greeting matches
                Greeting::Screen(arrival) && arrival@ == (ArrivalView {
                origin,
                next_state,
                address: address@,
            }),
        },
{
    match first {
        FirstPacket::LegacyServerListPing => Greeting::AnswerLegacyPing,
        FirstPacket::Unreadable => Greeting::Fail,
        FirstPacket::Handshake { next_state, address: None } => Greeting::Dismiss(
            Dismissal { next_state, refusal: Refusal::polite() },
        ),
        FirstPacket::Handshake { next_state, address: Some(address) } => Greeting::Screen(
            Arrival { origin, next_state, address },
        ),
    }
}

/// `record` is that of a player, with that outcome.
pub open spec fn recorded(player: ArrivalView, record: Connection, outcome: Outcome) -> bool {
    records(record, player.origin, handshake_intent(player.next_state), outcome, player.address)
}

/// What is done about a player with that outcome.
pub open spec fn dismissal(player: ArrivalView, outcome: Outcome) -> Option<Dismissal> {
    match outcome_refusal(outcome) {
        Some(refusal) => Some(Dismissal { next_state: player.next_state, refusal }),
        None => None,
    }
}

impl Arrival {
    /// Lets the player come in, or records the player and turns the player away, before the host
    /// is looked for.
    pub fn screen(self, limited: bool, blocklist: &Blocklist) -> (screened: Result<
        Screened,
        (Connection, Dismissal),
    >)
        ensures
            screened is Err <==> turned_away(
                self@.next_state,
                limited,
                listed(blocklist@, self@.origin.client),
            ),
            match screened {
                Ok(player) => player@ == self@,
                Err((record, dismissed)) => {
                    let outcome = player_outcome(
                        self@.next_state,
                        limited,
                        listed(blocklist@, self@.origin.client),
                        false,
                    );
                    &&& recorded(self@, record, outcome)
                    &&& dismissal(self@, outcome) == Some(dismissed)
                    &&& dismissed.next_state == self@.next_state
                    &&& record.target@ == self@.address
                    &&& limited ==> record.outcome@ == "ratelimited"@
                },
            },
    {
        if limited {
            return Err(self.dismiss(Outcome::Ratelimited, StatusNotice::Rate, LoginNotice::Rate));
        }
        let is_status: bool = match self.next_state {
            HandshakeType::Status => true,
            HandshakeType::Login => false,
        };
        match blocklist.status(self.origin.client) {
            Some(BlocklistStatus::ShadowBanned) => Err(
                self.dismiss(Outcome::ShadowBanned, StatusNotice::Polite, LoginNotice::Polite),
            ),
            Some(BlocklistStatus::Blocked) => Err(
                self.dismiss(Outcome::Blocked, StatusNotice::Blocked, LoginNotice::Blocked),
            ),
            Some(BlocklistStatus::PingMasked) if is_status => Err(
                self.dismiss(Outcome::PingMasked, StatusNotice::Masked, LoginNotice::Blocked),
            ),
            _ => Ok(Screened { arrival: self }),
        }
    }

    /// The record and the dismissal of a player.
    fn dismiss(&self, outcome: Outcome, status: StatusNotice, login: LoginNotice) -> (dismissed: (
        Connection,
        Dismissal,
    ))
        requires
            outcome_refusal(outcome) == Some(Refusal { status, login }),
        ensures
            recorded(self@, dismissed.0, outcome),
            dismissal(self@, outcome) == Some(dismissed.1),
    {
        let refusal: Refusal = Refusal { status, login };
        (self.record(outcome), Dismissal { next_state: self.next_state, refusal })
    }

    /// The record of the player.
    fn record(&self, outcome: Outcome) -> (record: Connection)
        ensures
            recorded(self@, record, outcome),
    {
        Connection::new(
            &self.origin,
            Intent::of_handshake(self.next_state),
            outcome,
            self.address.as_str(),
        )
    }
}

impl Screened {
    /// The domain of the host to look for.
    pub fn address(&self) -> (address: &str)
        ensures
            address@ == self@.address,
    {
        self.arrival.address.as_str()
    }

    /// Records the player, given whether the host was found. Without a dismissal the player is
    /// connected to the host.
    pub fn route(self, found: bool) -> (routed: (Connection, Option<Dismissal>))
        ensures
            recorded(self@, routed.0, player_outcome(self@.next_state, false, None, found)),
            routed.1 is None <==> found,
            routed.1 matches Some(dismissed) ==> dismissed == (Dismissal {
                next_state: self@.next_state,
                refusal: Refusal { status: StatusNotice::Polite, login: LoginNotice::Polite },
            }),
            found ==> routed.0.outcome@ == "ok"@,
            !found ==> routed.0.outcome@ == "bad_domain"@,
            routed.0.target@ == self@.address,
            routed.1 == dismissal(
                self@,
                player_outcome(self@.next_state, false, None, found),
            ),
    {
        if found {
            (self.arrival.record(Outcome::Success), None)
        } else {
            let (record, dismissed): (Connection, Dismissal) = self.arrival.dismiss(
                Outcome::BadDomain,
                StatusNotice::Polite,
                LoginNotice::Polite,
            );
            (record, Some(dismissed))
        }
    }
}

/// The texts for players who are turned away.
#[derive(Debug)]
pub struct Responses {
    pub serverlistping_response: String,
    pub serverlistping_response_rate: String,
    pub serverlistping_response_blocked: String,
    pub serverlistping_response_masked: String,
    pub disconnect_response: String,
    pub disconnect_response_rate: String,
    pub disconnect_response_blocked: String,
}

impl Responses {
    /// The server list entry for a notice.
    pub open spec fn status_text(&self, notice: StatusNotice) -> Seq<char> {
        match notice {
            StatusNotice::Polite => self.serverlistping_response@,
            StatusNotice::Rate => self.serverlistping_response_rate@,
            StatusNotice::Blocked => self.serverlistping_response_blocked@,
            StatusNotice::Masked => self.serverlistping_response_masked@,
        }
    }

    /// The reason at login for a notice.
    pub open spec fn login_text(&self, notice: LoginNotice) -> Seq<char> {
        match notice {
            LoginNotice::Polite => self.disconnect_response@,
            LoginNotice::Rate => self.disconnect_response_rate@,
            LoginNotice::Blocked => self.disconnect_response_blocked@,
        }
    }

    /// What a player who is turned away is told: at a status the one text, at a login the other.
    pub open spec fn conversation(&self, dismissed: Dismissal) -> DisconnectView {
        match dismissed.next_state {
            HandshakeType::Status => DisconnectView::StatusRequest {
                response: self.status_text(dismissed.refusal.status),
            },
            HandshakeType::Login => DisconnectView::LoginStart {
                response: self.login_text(dismissed.refusal.login),
            },
        }
    }

    /// The conversation with a player who is turned away.
    pub fn disconnect(&self, dismissed: Dismissal) -> (waiting: Disconnect)
        ensures
            waiting@ == self.conversation(dismissed),
            dismissed.next_state == HandshakeType::Login ==> waiting@ == (
            DisconnectView::LoginStart {
                response: match dismissed.refusal.login {
                    LoginNotice::Polite => self.disconnect_response@,
                    LoginNotice::Rate => self.disconnect_response_rate@,
                    LoginNotice::Blocked => self.disconnect_response_blocked@,
                },
            }),
            dismissed.next_state == HandshakeType::Status ==> waiting@ == (
            DisconnectView::StatusRequest {
                response: match dismissed.refusal.status {
                    StatusNotice::Polite => self.serverlistping_response@,
                    StatusNotice::Rate => self.serverlistping_response_rate@,
                    StatusNotice::Blocked => self.serverlistping_response_blocked@,
                    StatusNotice::Masked => self.serverlistping_response_masked@,
                },
            }),
    {
        let slp_resp: &String = match dismissed.refusal.status {
            StatusNotice::Polite => &self.serverlistping_response,
            StatusNotice::Rate => &self.serverlistping_response_rate,
            StatusNotice::Blocked => &self.serverlistping_response_blocked,
            StatusNotice::Masked => &self.serverlistping_response_masked,
        };
        let dc_resp: &String = match dismissed.refusal.login {
            LoginNotice::Polite => &self.disconnect_response,
            LoginNotice::Rate => &self.disconnect_response_rate,
            LoginNotice::Blocked => &self.disconnect_response_blocked,
        };
        Disconnect::new(dismissed.next_state, slp_resp.as_str(), dc_resp.as_str())
    }
}

/// A player is connected to a host exactly if the player is not turned away before and the host
/// was found, and exactly then is the player recorded as a success.
pub proof fn law_only_admitted_players_are_connected(
    next_state: HandshakeType,
    limited: bool,
    status: Option<BlocklistStatus>,
    found: bool,
)
    ensures
        outcome_refusal(player_outcome(next_state, limited, status, found)) is None <==> {
            !turned_away(next_state, limited, status) && found
        },
        player_outcome(next_state, limited, status, found) == Outcome::Success <==> {
            !turned_away(next_state, limited, status) && found
        },
{
}

/// A player who is turned away learns nothing about the host, and is recorded the same whether it
/// exists or not; for a player who is not, the blocklist might as well be empty.
pub proof fn law_stages_agree(
    next_state: HandshakeType,
    limited: bool,
    status: Option<BlocklistStatus>,
    found: bool,
)
    ensures
        turned_away(next_state, limited, status) ==> player_outcome(
            next_state,
            limited,
            status,
            found,
        ) == player_outcome(next_state, limited, status, false),
        !turned_away(next_state, limited, status) ==> player_outcome(
            next_state,
            limited,
            status,
            found,
        ) == player_outcome(next_state, false, None, found),
{
}

/// A shadow-banned player has the very conversation of a player whose host does not exist, and
/// only the record tells the two apart.
pub proof fn law_shadow_ban_looks_like_no_host(
    responses: Responses,
    player: ArrivalView,
    found: bool,
)
    ensures
        ({
            let banned = player_outcome(
                player.next_state,
                false,
                Some(BlocklistStatus::ShadowBanned),
                found,
            );
            let lost = player_outcome(player.next_state, false, None, false);
            &&& banned != lost
            &&& dismissal(player, banned) is Some
            &&& dismissal(player, banned) == dismissal(player, lost)
            &&& responses.conversation(dismissal(player, banned)->0)
                == responses.conversation(dismissal(player, lost)->0)
        }),
{
}

/// A masked player plays like any other, and is refused the server list entry.
pub proof fn law_mask_hides_the_status_only(found: bool)
    ensures
        player_outcome(HandshakeType::Login, false, Some(BlocklistStatus::PingMasked), found)
            == player_outcome(HandshakeType::Login, false, None, found),
        player_outcome(HandshakeType::Status, false, Some(BlocklistStatus::PingMasked), found)
            == Outcome::PingMasked,
{
}

/// A player is connected exactly if the outcome is a success, and a player who is turned away is
/// turned away with the own intent and with the notices of the outcome.
pub proof fn law_dismissal_follows_the_outcome(player: ArrivalView, outcome: Outcome)
    ensures
        dismissal(player, outcome) is None <==> outcome == Outcome::Success,
        dismissal(player, outcome) matches Some(dismissed) ==> {
            &&& dismissed.next_state == player.next_state
            &&& dismissed.refusal.status == StatusNotice::Rate <==> outcome == Outcome::Ratelimited
            &&& dismissed.refusal.status == StatusNotice::Blocked <==> outcome == Outcome::Blocked
            &&& dismissed.refusal.status == StatusNotice::Masked <==> outcome
                == Outcome::PingMasked
            &&& dismissed.refusal.login == LoginNotice::Rate <==> outcome == Outcome::Ratelimited
            &&& dismissed.refusal.login == LoginNotice::Blocked <==> outcome == Outcome::Blocked
                || outcome == Outcome::PingMasked
            &&& outcome == Outcome::ShadowBanned || outcome == Outcome::BadDomain <==> {
                &&& dismissed.refusal.status == StatusNotice::Polite
                &&& dismissed.refusal.login == LoginNotice::Polite
            }
        },
{
}

/// Where a player comes from, when, and which host the player asks for play no part in what a
/// player with a given outcome is told.
pub proof fn law_players_are_told_alike(
    first: ArrivalView,
    second: ArrivalView,
    outcome: Outcome,
)
    requires
        first.next_state == second.next_state,
    ensures
        dismissal(first, outcome) == dismissal(second, outcome),
{
}

/// A player who got past the limit and the list is connected exactly if the host was found, and is
/// turned away politely if not, wherever the player comes from.
pub proof fn law_found_hosts_are_connected(player: ArrivalView, found: bool)
    ensures
        ({
            let routed = dismissal(player, player_outcome(player.next_state, false, None, found));
            &&& routed is None <==> found
            &&& routed matches Some(dismissed) ==> dismissed == (Dismissal {
                next_state: player.next_state,
                refusal: Refusal { status: StatusNotice::Polite, login: LoginNotice::Polite },
            })
        }),
{
}

/// Who is turned away before the host is looked for, with which outcome and with which notices.
pub proof fn law_screening(
    player: ArrivalView,
    limited: bool,
    status: Option<BlocklistStatus>,
    found: bool,
)
    ensures
        ({
            let away = turned_away(player.next_state, limited, status);
            let outcome = player_outcome(player.next_state, limited, status, found);
            &&& limited ==> away && outcome == Outcome::Ratelimited
            &&& !limited && status == Some(BlocklistStatus::ShadowBanned) ==> away && outcome
                == Outcome::ShadowBanned
            &&& !limited && status == Some(BlocklistStatus::Blocked) ==> away && outcome
                == Outcome::Blocked
            &&& !limited && status == Some(BlocklistStatus::PingMasked) && player.next_state
                == HandshakeType::Status ==> away && outcome == Outcome::PingMasked
            &&& !limited && (status is None || status == Some(BlocklistStatus::PingMasked)
                && player.next_state == HandshakeType::Login) ==> {
                &&& !away
                &&& found ==> outcome == Outcome::Success
                &&& !found ==> outcome == Outcome::BadDomain
            }
        }),
{
}

/// A player is recorded under the own intent, whole, and with the outcome's name.
pub proof fn law_players_are_recorded(
    player: ArrivalView,
    record: Connection,
    outcome: Outcome,
)
    requires
        recorded(player, record, outcome),
    ensures
        record.target@ == player.address,
        record.established == player.origin.established,
        record.region@ == player.origin.region@,
        player.next_state == HandshakeType::Status ==> record.intent@ == "status"@,
        player.next_state == HandshakeType::Login ==> record.intent@ == "login"@,
        records(
            record,
            player.origin,
            match player.next_state {
                HandshakeType::Status => Intent::Status,
                HandshakeType::Login => Intent::Login,
            },
            outcome,
            player.address,
        ),
        outcome == Outcome::Success ==> record.outcome@ == "ok"@,
        outcome == Outcome::BadDomain ==> record.outcome@ == "bad_domain"@,
{
}

/// A login is answered with the disconnect text of the login notice, whatever the status notice.
pub proof fn law_logins_are_told_the_reason(responses: Responses, status: StatusNotice)
    ensures
        responses.conversation(
            Dismissal {
                next_state: HandshakeType::Login,
                refusal: Refusal { status, login: LoginNotice::Polite },
            },
        ) == (DisconnectView::LoginStart { response: responses.disconnect_response@ }),
        responses.conversation(
            Dismissal {
                next_state: HandshakeType::Login,
                refusal: Refusal { status, login: LoginNotice::Rate },
            },
        ) == (DisconnectView::LoginStart { response: responses.disconnect_response_rate@ }),
        responses.conversation(
            Dismissal {
                next_state: HandshakeType::Login,
                refusal: Refusal { status, login: LoginNotice::Blocked },
            },
        ) == (DisconnectView::LoginStart { response: responses.disconnect_response_blocked@ }),
{
}

/// A status is answered with the server list entry of the status notice, whatever the login
/// notice.
pub proof fn law_statuses_are_told_the_entry(responses: Responses, login: LoginNotice)
    ensures
        responses.conversation(
            Dismissal {
                next_state: HandshakeType::Status,
                refusal: Refusal { status: StatusNotice::Polite, login },
            },
        ) == (DisconnectView::StatusRequest { response: responses.serverlistping_response@ }),
        responses.conversation(
            Dismissal {
                next_state: HandshakeType::Status,
                refusal: Refusal { status: StatusNotice::Rate, login },
            },
        ) == (DisconnectView::StatusRequest { response: responses.serverlistping_response_rate@ }),
        responses.conversation(
            Dismissal {
                next_state: HandshakeType::Status,
                refusal: Refusal { status: StatusNotice::Blocked, login },
            },
        ) == (DisconnectView::StatusRequest {
            response: responses.serverlistping_response_blocked@,
        }),
        responses.conversation(
            Dismissal {
                next_state: HandshakeType::Status,
                refusal: Refusal { status: StatusNotice::Masked, login },
            },
        ) == (DisconnectView::StatusRequest {
            response: responses.serverlistping_response_masked@,
        }),
{
}

/// The first packet of a player may have 512 bytes.
pub proof fn law_first_packet_bound()
    ensures
        MAX_FIRST_PACKET == 512,
{
}

} // verus!
