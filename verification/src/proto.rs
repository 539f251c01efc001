//! The messages of the control channel between a host and the relay.

use vstd::prelude::*;

verus! {

/// What a host sends to the relay.
#[derive(Debug)]
pub enum ServerboundControlMessage {
    ProbeCapabilities,
    RequestDomainAssignment,
    DialtoneRegisterTicket { ticket: String },
}

/// What the relay sends to a host.
#[derive(Debug)]
pub enum ClientboundControlMessage {
    UnknownMessage,
    HasCapabilities { caps: Vec<String> },
    DomainAssignmentComplete { domain: String },
    RequestMessageBroadcast { message: String },
    TicketRegistered,
}

/// A `ServerboundControlMessage` with its text as characters.
pub enum Serverbound {
    ProbeCapabilities,
    RequestDomainAssignment,
    DialtoneRegisterTicket { ticket: Seq<char> },
}

/// A `ClientboundControlMessage` with its texts as characters.
pub enum Clientbound {
    UnknownMessage,
    HasCapabilities { caps: Seq<Seq<char>> },
    DomainAssignmentComplete { domain: Seq<char> },
    RequestMessageBroadcast { message: Seq<char> },
    TicketRegistered,
}

impl View for ServerboundControlMessage {
    type V = Serverbound;

    open spec fn view(&self) -> Serverbound {
        match *self {
            ServerboundControlMessage::ProbeCapabilities => Serverbound::ProbeCapabilities,
            ServerboundControlMessage::RequestDomainAssignment => {
                Serverbound::RequestDomainAssignment
            },
            ServerboundControlMessage::DialtoneRegisterTicket { ticket } => {
                Serverbound::DialtoneRegisterTicket { ticket: ticket@ }
            },
        }
    }
}

impl View for ClientboundControlMessage {
    type V = Clientbound;

    open spec fn view(&self) -> Clientbound {
        match *self {
            ClientboundControlMessage::UnknownMessage => Clientbound::UnknownMessage,
            ClientboundControlMessage::HasCapabilities { caps } => {
                Clientbound::HasCapabilities { caps: caps@.map_values(|cap: String| cap@) }
            },
            ClientboundControlMessage::DomainAssignmentComplete { domain } => {
                Clientbound::DomainAssignmentComplete { domain: domain@ }
            },
            ClientboundControlMessage::RequestMessageBroadcast { message } => {
                Clientbound::RequestMessageBroadcast { message: message@ }
            },
            ClientboundControlMessage::TicketRegistered => Clientbound::TicketRegistered,
        }
    }
}

/// The view of a message from a host tells its kind, and the whole ticket.
pub proof fn law_serverbound_views_keep_everything(message: ServerboundControlMessage)
    ensures
        message is ProbeCapabilities <==> message@ is ProbeCapabilities,
        message is RequestDomainAssignment <==> message@ is RequestDomainAssignment,
        message is DialtoneRegisterTicket <==> message@ is DialtoneRegisterTicket,
        message is DialtoneRegisterTicket ==> message@->ticket == message->ticket@,
{
}

/// The view of a message to a host tells its kind, and every text in it.
pub proof fn law_clientbound_views_keep_everything(message: ClientboundControlMessage)
    ensures
        message is UnknownMessage <==> message@ is UnknownMessage,
        message is HasCapabilities <==> message@ is HasCapabilities,
        message is DomainAssignmentComplete <==> message@ is DomainAssignmentComplete,
        message is RequestMessageBroadcast <==> message@ is RequestMessageBroadcast,
        message is TicketRegistered <==> message@ is TicketRegistered,
        message is DomainAssignmentComplete ==> message@->domain == message->domain@,
        message is RequestMessageBroadcast ==> message@->message == message->message@,
        message is HasCapabilities ==> {
            &&& message@->caps.len() == message->caps@.len()
            &&& forall|i: int|
                0 <= i < message->caps@.len() ==> #[trigger] message@->caps[i]
                    == message->caps@[i]@
        },
{
}

} // verus!
