//! How a player who is turned away is told so.

use crate::netty::{
    packet, read_long, read_varint, to_unsigned, write_string, write_u64, write_varint, HandshakeType, ReadError,
};
use crate::netty::{
    big_endian, big_endian_value, law_long_written_back, law_packet_read_back,
    law_varint_read_back, length_bytes, packet_bytes, parse_varint, string_bytes, unsigned,
    varint_bytes,
};
use crate::text::append_prefixed_hex;
use crate::text::prefixed_hex;
use vstd::prelude::*;
use vstd::string::*;
use vstd::utf8::encode_utf8;

verus! {

/// What the relay waits for from a player whom it turns away.
#[derive(Debug)]
pub enum Disconnect {
    /// A status request, to be answered with a server list entry.
    StatusRequest { response: String },
    /// A ping request, to be answered with its payload.
    PingRequest,
    /// The start of a login, to be answered with the reason of the refusal.
    LoginStart { response: String },
}

/// A `Disconnect` with its text as characters.
pub enum DisconnectView {
    StatusRequest { response: Seq<char> },
    PingRequest,
    LoginStart { response: Seq<char> },
}

impl View for Disconnect {
    type V = DisconnectView;

    open spec fn view(&self) -> DisconnectView {
        match *self {
            Disconnect::StatusRequest { response } => {
                DisconnectView::StatusRequest { response: response@ }
            },
            Disconnect::PingRequest => DisconnectView::PingRequest,
            Disconnect::LoginStart { response } => {
                DisconnectView::LoginStart { response: response@ }
            },
        }
    }
}

/// The packets that a status conversation consists of.
#[derive(Clone, Copy, Debug, PartialEq, Eq, Structural)]
pub enum StatusPacket {
    StatusRequest,
    PingRequest,
}

/// Why a conversation with a player broke off.
#[derive(Clone, Copy, Debug, PartialEq, Eq, Structural)]
pub enum DisconnectError {
    /// The packet could not be read.
    Read(ReadError),
    /// The packet is another one than the expected one.
    UnexpectedPacket { expected: StatusPacket, id: i32 },
}

/// What is said of a packet with the number `id` in place of `expected`.
pub open spec fn unexpected_message(expected: StatusPacket, id: i32) -> Seq<char> {
    let opening = match expected {
        StatusPacket::StatusRequest => "Packet isn't a Status Request(0x00), but "@,
        StatusPacket::PingRequest => "Packet isn't a Ping Request(0x01), but "@,
    };
    opening + prefixed_hex(unsigned(id))
}

/// The packet with number 0 and one text, which answers a status request or the start of a login.
pub open spec fn text_packet(text: Seq<char>) -> Seq<u8> {
    packet_bytes(varint_bytes(0) + string_bytes(text))
}

/// The packet with number 1 and a payload, which answers a ping.
pub open spec fn pong_packet(payload: nat) -> Seq<u8> {
    packet_bytes(varint_bytes(1) + big_endian(payload, 8))
}

/// What the relay sends back when `packet` comes in, and what it waits for then.
pub open spec fn answer(waiting: DisconnectView, packet: Seq<u8>) -> Result<
    (Seq<u8>, Option<DisconnectView>),
    DisconnectError,
> {
    match waiting {
        DisconnectView::StatusRequest { response } => match parse_varint(packet) {
            Err(error) => Err(DisconnectError::Read(error)),
            Ok((id, _)) => if id == 0 {
                Ok((text_packet(response), Some(DisconnectView::PingRequest)))
            } else {
                Err(
                    DisconnectError::UnexpectedPacket { expected: StatusPacket::StatusRequest, id },
                )
            },
        },
        DisconnectView::PingRequest => match parse_varint(packet) {
            Err(error) => Err(DisconnectError::Read(error)),
            Ok((id, used)) => if id != 1 {
                Err(DisconnectError::UnexpectedPacket { expected: StatusPacket::PingRequest, id })
            } else if used + 8 > packet.len() {
                Err(DisconnectError::Read(ReadError::UnexpectedEnd))
            } else {
                Ok(
                    (
                        pong_packet(
                            big_endian_value(packet.subrange(used as int, used as int + 8)),
                        ),
                        None,
                    ),
                )
            },
        },
        DisconnectView::LoginStart { response } => Ok((text_packet(response), None)),
    }
}

impl DisconnectError {
    /// What is logged about an unexpected packet; `None` for a packet that could not be read.
    pub fn message(&self) -> (message: Option<String>)
        ensures
            match *self {
                DisconnectError::Read(_) => message is None,
                DisconnectError::UnexpectedPacket { expected, id } => message is Some
                    && message->0@ == unexpected_message(expected, id),
            },
    {
        match *self {
            DisconnectError::Read(_) => None,
            DisconnectError::UnexpectedPacket { expected, id } => {
                let mut message: String = match expected {
                    StatusPacket::StatusRequest => "Packet isn't a Status Request(0x00), but ".to_owned(),
                    StatusPacket::PingRequest => "Packet isn't a Ping Request(0x01), but ".to_owned(),
                };
                append_prefixed_hex(&mut message, to_unsigned(id));
                Some(message)
            },
        }
    }
}

impl Disconnect {
    /// The conversation with a player who came with the given intent: `slp_resp` answers a server
    /// list ping, `dc_resp` a login.
    pub fn new(next_state: HandshakeType, slp_resp: &str, dc_resp: &str) -> (waiting: Disconnect)
        ensures
            waiting@ == (match next_state {
                HandshakeType::Status => DisconnectView::StatusRequest { response: slp_resp@ },
                HandshakeType::Login => DisconnectView::LoginStart { response: dc_resp@ },
            }),
    {
        match next_state {
            HandshakeType::Status => Disconnect::StatusRequest { response: slp_resp.to_owned() },
            HandshakeType::Login => Disconnect::LoginStart { response: dc_resp.to_owned() },
        }
    }

    /// The longest packet that is read next, in bytes.
    pub fn max_packet(&self) -> (len: usize)
        ensures
            len == (match self@ {
                DisconnectView::StatusRequest { .. } => 1usize,
                DisconnectView::PingRequest => 9usize,
                DisconnectView::LoginStart { .. } => 128usize,
            }),
    {
        match self {
            Disconnect::StatusRequest { .. } => 1,
            Disconnect::PingRequest => 9,
            Disconnect::LoginStart { .. } => 128,
        }
    }

    /// Takes the next packet: the bytes to send back and what to wait for then, if anything.
    pub fn answer(&self, packet: &[u8]) -> (answered: Result<
        (Vec<u8>, Option<Disconnect>),
        DisconnectError,
    >)
        ensures
            match answered {
                Ok((bytes, next)) => answer(self@, packet@) == Ok::<_, DisconnectError>(
                    (
                        bytes@,
                        match next {
                            Some(next) => Some(next@),
                            None => None,
                        },
                    ),
                ),
                Err(error) => answer(self@, packet@) == Err::<
                    (Seq<u8>, Option<DisconnectView>),
                    DisconnectError,
                >(error),
            },
    {
        match self {
            Disconnect::StatusRequest { response } => {
                let id: i32 = match read_varint(packet) {
                    Ok((id, _)) => id,
                    Err(error) => return Err(DisconnectError::Read(error)),
                };
                if id != 0 {
                    return Err(
                        DisconnectError::UnexpectedPacket {
                            expected: StatusPacket::StatusRequest,
                            id,
                        },
                    );
                }
                Ok((write_text_packet(response.as_str()), Some(Disconnect::PingRequest)))
            },
            Disconnect::PingRequest => {
                let (id, used): (i32, usize) = match read_varint(packet) {
                    Ok(read) => read,
                    Err(error) => return Err(DisconnectError::Read(error)),
                };
                if id != 1 {
                    return Err(
                        DisconnectError::UnexpectedPacket {
                            expected: StatusPacket::PingRequest,
                            id,
                        },
                    );
                }
                match read_long(packet, used) {
                    Ok(payload) => Ok((write_pong_packet(payload), None)),
                    Err(error) => Err(DisconnectError::Read(error)),
                }
            },
            Disconnect::LoginStart { response } => Ok((write_text_packet(response.as_str()), None)),
        }
    }
}

/// The packet with number 0 and one text.
fn write_text_packet(text: &str) -> (bytes: Vec<u8>)
    ensures
        bytes@ == text_packet(text@),
{
    let mut body: Vec<u8> = Vec::new();
    write_varint(&mut body, 0);
    write_string(&mut body, text);
    assert(body@ =~= varint_bytes(0) + string_bytes(text@));
    packet(&body)
}

/// The packet with number 1 and a payload.
fn write_pong_packet(payload: u64) -> (bytes: Vec<u8>)
    ensures
        bytes@ == pong_packet(payload as nat),
{
    let mut body: Vec<u8> = Vec::new();
    write_varint(&mut body, 1);
    write_u64(&mut body, payload);
    assert(body@ =~= varint_bytes(1) + big_endian(payload as nat, 8));
    packet(&body)
}

/// A ping is answered with the eight bytes that it carried, and that ends the conversation.
pub proof fn law_ping_is_echoed(ping: Seq<u8>, used: nat)
    requires
        parse_varint(ping) == Ok::<(i32, nat), ReadError>((1, used)),
        used + 8 <= ping.len(),
    ensures
        answer(DisconnectView::PingRequest, ping) == Ok::<_, DisconnectError>(
            (
                seq![9u8, 1u8] + ping.subrange(used as int, used as int + 8),
                None::<DisconnectView>,
            ),
        ),
{
    let payload = ping.subrange(used as int, used as int + 8);
    law_long_written_back(payload);
    let body = varint_bytes(1) + payload;
    assert(varint_bytes(1) =~= seq![1u8]);
    assert(length_bytes(9) =~= seq![9u8]);
    assert(body.len() == 9);
    assert(packet_bytes(body) =~= seq![9u8, 1u8] + payload);
}

/// A player who asks for the server list is told `slp_resp` and waited for with the ping; a player
/// who logs in is told `dc_resp`, whatever the login holds, and that ends the conversation.
pub proof fn law_each_intent_has_its_text(
    slp_resp: Seq<char>,
    request: Seq<u8>,
    dc_resp: Seq<char>,
    login: Seq<u8>,
)
    requires
        parse_varint(request) matches Ok((id, _)) && id == 0,
    ensures
        answer(DisconnectView::StatusRequest { response: slp_resp }, request) == Ok::<
            _,
            DisconnectError,
        >((text_packet(slp_resp), Some(DisconnectView::PingRequest))),
        answer(DisconnectView::LoginStart { response: dc_resp }, login) == Ok::<
            _,
            DisconnectError,
        >((text_packet(dc_resp), None::<DisconnectView>)),
{
}

/// A text that fits in a packet is read back from it, whatever follows: the length of the packet,
/// the number 0, the length of the text, and the text.
pub proof fn law_text_read_back(text: Seq<char>, rest: Seq<u8>)
    requires
        encode_utf8(text).len() + 6 <= i32::MAX,
    ensures
        parse_varint(text_packet(text) + rest) matches Ok((len, head)) && {
            let body = (text_packet(text) + rest).subrange(head as int, head + len);
            &&& parse_varint(body) == Ok::<(i32, nat), ReadError>((0, 1))
            &&& parse_varint(body.skip(1)) matches Ok((size, used)) && {
                &&& body.skip(1 + used as int) == encode_utf8(text)
                &&& size == encode_utf8(text).len()
            }
        },
{
    let utf8 = encode_utf8(text);
    let size = utf8.len() as i32;
    let body = varint_bytes(0) + string_bytes(text);
    assert(varint_bytes(0) =~= seq![0u8]);
    law_varint_read_back(size, utf8);
    law_varint_read_back(0, string_bytes(text));
    law_packet_read_back(body, rest);
    assert(body.skip(1) =~= string_bytes(text));
    assert(body.skip(1 + length_bytes(utf8.len()).len() as int) =~= utf8);
}

/// The packet that carries a text holds, behind its length, the number 0 and the text, whatever
/// the text is and however long.
pub proof fn law_text_packet_layout(text: Seq<char>)
    ensures
        ({
            let body = seq![0u8] + string_bytes(text);
            &&& text_packet(text) == packet_bytes(body)
            &&& text_packet(text).skip(text_packet(text).len() - encode_utf8(text).len())
                == encode_utf8(text)
        }),
{
    assert(varint_bytes(0) =~= seq![0u8]);
    assert(text_packet(text).skip(text_packet(text).len() - encode_utf8(text).len())
        =~= encode_utf8(text));
}

/// A status request is one exactly by its number 0. Any other packet breaks the conversation off
/// with its number, and one without a number with the reason why it has none.
pub proof fn law_status_requests_have_number_0(response: Seq<char>, packet: Seq<u8>)
    ensures
        ({
            let answered = answer(DisconnectView::StatusRequest { response }, packet);
            match parse_varint(packet) {
                Ok((id, _)) => {
                    &&& id == 0 <==> answered is Ok
                    &&& id == 0 ==> answered == Ok::<_, DisconnectError>(
                        (text_packet(response), Some(DisconnectView::PingRequest)),
                    )
                    &&& id != 0 ==> answered == Err::<(Seq<u8>, Option<DisconnectView>), _>(
                        DisconnectError::UnexpectedPacket {
                            expected: StatusPacket::StatusRequest,
                            id,
                        },
                    )
                },
                Err(error) => answered == Err::<(Seq<u8>, Option<DisconnectView>), _>(
                    DisconnectError::Read(error),
                ),
            }
        }),
{
}

/// A ping is one exactly by its number 1 and eight more bytes. Any other packet breaks the
/// conversation off, with its number or with the reason why it cannot be read.
pub proof fn law_pings_have_number_1_and_a_payload(packet: Seq<u8>)
    ensures
        ({
            let answered = answer(DisconnectView::PingRequest, packet);
            match parse_varint(packet) {
                Ok((id, used)) => {
                    &&& id == 1 && used + 8 <= packet.len() <==> answered is Ok
                    &&& id != 1 ==> answered == Err::<(Seq<u8>, Option<DisconnectView>), _>(
                        DisconnectError::UnexpectedPacket {
                            expected: StatusPacket::PingRequest,
                            id,
                        },
                    )
                    &&& id == 1 && used + 8 > packet.len() ==> answered == Err::<
                        (Seq<u8>, Option<DisconnectView>),
                        _,
                    >(DisconnectError::Read(ReadError::UnexpectedEnd))
                },
                Err(error) => answered == Err::<(Seq<u8>, Option<DisconnectView>), _>(
                    DisconnectError::Read(error),
                ),
            }
        }),
{
}

/// The message about an unexpected packet names the expected one and ends with the number of the
/// packet.
pub proof fn law_unexpected_packets_are_named(id: i32)
    ensures
        unexpected_message(StatusPacket::StatusRequest, id)
            == "Packet isn't a Status Request(0x00), but "@ + prefixed_hex(unsigned(id)),
        unexpected_message(StatusPacket::PingRequest, id)
            == "Packet isn't a Ping Request(0x01), but "@ + prefixed_hex(unsigned(id)),
{
}

/// The view of a conversation tells its kind, and the whole text.
pub proof fn law_conversation_views_keep_everything(waiting: Disconnect)
    ensures
        match waiting {
            Disconnect::StatusRequest { response } => waiting@ == (DisconnectView::StatusRequest {
                response: response@,
            }),
            Disconnect::PingRequest => waiting@ == DisconnectView::PingRequest,
            Disconnect::LoginStart { response } => waiting@ == (DisconnectView::LoginStart {
                response: response@,
            }),
        },
{
}

} // verus!
