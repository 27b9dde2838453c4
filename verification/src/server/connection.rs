//! The decisions the server takes for one client connection: how a CONNECT
//! is answered, and what each packet the client sends afterwards leads to.
//! Reading and writing the packets is left to the caller.

use std::sync::Arc;

use vstd::prelude::*;

use super::handler::SimpleSubscriptionHandler;
use super::message::{share, LastWill, MqttMessage};
use super::state::{sent_with_level, ClientState};
use super::subscriptions::SubscriptionRequest;
use super::ClientId;
use crate::frame::{parse_packet, v3_packet, PacketView, ParsedPacket};
use crate::qos::QualityOfService;
use crate::util::copy_bytes;

verus! {

/// How the server answers a CONNECT.
#[derive(Debug, PartialEq, Eq, Structural, Clone, Copy)]
pub enum ConnectOutcome {
    /// A CONNACK "identifier rejected" goes out, and the client is turned
    /// away with an error: an empty client identifier needs a clean session.
    Rejected,
    /// A CONNACK "accepted" goes out with `session_present`; with
    /// `discard_session` a session kept for this client is dropped first.
    Accepted { session_present: bool, discard_session: bool },
}

/// Answers a CONNECT from a client with identifier `client_id` asking for a
/// clean session or not, while a session for it is (`session_exists`) or is
/// not kept.
pub fn decide_connect(client_id: &str, clean_session: bool, session_exists: bool) -> (res:
    ConnectOutcome)
    ensures
        client_id@.len() == 0 && !clean_session ==> res == ConnectOutcome::Rejected,
        clean_session ==> res == (ConnectOutcome::Accepted {
            session_present: false,
            discard_session: true,
        }),
        client_id@.len() > 0 && !clean_session ==> res == (ConnectOutcome::Accepted {
            session_present: session_exists,
            discard_session: false,
        }),
{
    let empty_client_id = client_id.is_empty();
    if empty_client_id && !clean_session {
        return ConnectOutcome::Rejected;
    }
    if clean_session {
        ConnectOutcome::Accepted { session_present: false, discard_session: true }
    } else {
        ConnectOutcome::Accepted { session_present: session_exists, discard_session: false }
    }
}

/// How long the server waits for the next packet of a client that connected
/// with keep-alive `keep_alive` seconds: one and a half times as long,
/// rounded down to whole seconds.
pub fn keep_alive_timeout_secs(keep_alive: u16) -> (res: u64)
    ensures
        res == (keep_alive * 150) / 100,
{
    (keep_alive as u64 * 150) / 100
}

/// A packet the server handles on an established connection.
#[derive(Debug)]
pub enum ClientPacket {
    Publish { qos: QualityOfService, retain: bool, topic: String, id: Option<u16>, payload: Vec<u8> },
    Puback(u16),
    Pubrec(u16),
    Pubrel(u16),
    Pubcomp(u16),
    Disconnect,
    Subscribe(Vec<SubscriptionRequest>),
    Pingreq,
    /// Any other packet: it is noted and ignored.
    Other,
}

/// A packet the server sends back right away.
#[derive(Debug, PartialEq, Eq, Structural, Clone, Copy)]
pub enum ServerReply {
    Puback(u16),
    Pubrec(u16),
    Pubrel(u16),
    Pubcomp(u16),
    Pingresp,
}

/// What one packet from the client leads to, in this order: a message to
/// route to the subscribers, subscriptions to file, a packet to send back;
/// whether the client's last will is dropped (it said goodbye), and whether
/// the connection is to be closed.
#[derive(Debug)]
pub struct PacketStep {
    pub route: Option<MqttMessage>,
    pub subscribe: Option<Vec<SubscriptionRequest>>,
    pub reply: Option<ServerReply>,
    pub forget_will: bool,
    pub stop: bool,
}

/// The packet carries what it needs: a PUBLISH of level 1 or 2 has an identifier.
pub open spec fn packet_complete(packet: ClientPacket) -> bool {
    match packet {
        ClientPacket::Publish { qos, id, .. } => qos != QualityOfService::AtMostOnce ==> id is Some,
        _ => true,
    }
}

/// Handles one packet that `author` sent on its connection, against its state.
pub fn handle_packet(state: &mut ClientState, author: &Arc<ClientId>, packet: ClientPacket) -> (res:
    PacketStep)
    requires
        old(state).wf(),
        packet_complete(packet),
    ensures
        final(state).wf(),
        final(state).counter() == old(state).counter(),
        match packet {
            ClientPacket::Publish { qos, retain, topic, id, payload } => {
                &&& res.route matches Some(m) && m@ == ((**author)@, payload@, topic@, retain, qos.level())
                &&& res.subscribe is None
                &&& !res.forget_will
                &&& final(state).table() == old(state).table()
                &&& match qos {
                    QualityOfService::AtMostOnce => {
                        &&& res.reply is None
                        &&& !res.stop
                        &&& final(state).awaiting_release() == old(state).awaiting_release()
                    },
                    QualityOfService::AtLeastOnce => {
                        &&& res.reply == Some(ServerReply::Puback(id.unwrap()))
                        &&& !res.stop
                        &&& final(state).awaiting_release() == old(state).awaiting_release()
                    },
                    QualityOfService::ExactlyOnce => if old(state).awaiting_release().contains(
                        id.unwrap(),
                    ) {
                        &&& res.reply is None
                        &&& res.stop
                        &&& final(state).awaiting_release() == old(state).awaiting_release()
                    } else {
                        &&& res.reply == Some(ServerReply::Pubrec(id.unwrap()))
                        &&& !res.stop
                        &&& final(state).awaiting_release() == old(state).awaiting_release().insert(
                            id.unwrap(),
                        )
                    },
                }
            },
            ClientPacket::Puback(id) => {
                &&& res.route is None && res.subscribe is None && res.reply is None && !res.forget_will
                &&& final(state).awaiting_release() == old(state).awaiting_release()
                &&& if sent_with_level(old(state).table(), id, 1) {
                    !res.stop && final(state).table() == old(state).table().remove(id)
                } else {
                    res.stop && final(state).table() == old(state).table()
                }
            },
            ClientPacket::Pubrec(id) => {
                &&& res.route is None && res.subscribe is None && !res.forget_will
                &&& final(state).awaiting_release() == old(state).awaiting_release()
                &&& if sent_with_level(old(state).table(), id, 2) {
                    &&& !res.stop
                    &&& res.reply == Some(ServerReply::Pubrel(id))
                    &&& final(state).table() == old(state).table().insert(id, None)
                } else {
                    res.stop && res.reply is None && final(state).table() == old(state).table()
                }
            },
            ClientPacket::Pubrel(id) => {
                &&& res.route is None && res.subscribe is None && !res.forget_will
                &&& final(state).table() == old(state).table()
                &&& if old(state).awaiting_release().contains(id) {
                    &&& !res.stop
                    &&& res.reply == Some(ServerReply::Pubcomp(id))
                    &&& final(state).awaiting_release() == old(state).awaiting_release().remove(id)
                } else {
                    &&& res.stop && res.reply is None
                    &&& final(state).awaiting_release() == old(state).awaiting_release()
                }
            },
            ClientPacket::Pubcomp(id) => {
                &&& res.route is None && res.subscribe is None && res.reply is None && !res.forget_will
                &&& final(state).awaiting_release() == old(state).awaiting_release()
                &&& if old(state).table().contains_key(id) && old(state).table()[id] is None {
                    !res.stop && final(state).table() == old(state).table().remove(id)
                } else {
                    res.stop && final(state).table() == old(state).table()
                }
            },
            ClientPacket::Disconnect => {
                &&& res.route is None && res.subscribe is None && res.reply is None
                &&& res.forget_will && res.stop
                &&& final(state).table() == old(state).table()
                &&& final(state).awaiting_release() == old(state).awaiting_release()
            },
            ClientPacket::Subscribe(requests) => {
                &&& res.route is None && res.reply is None && !res.forget_will && !res.stop
                &&& res.subscribe matches Some(r) && r@ == requests@
                &&& final(state).table() == old(state).table()
                &&& final(state).awaiting_release() == old(state).awaiting_release()
            },
            ClientPacket::Pingreq => {
                &&& res.route is None && res.subscribe is None && !res.forget_will && !res.stop
                &&& res.reply == Some(ServerReply::Pingresp)
                &&& final(state).table() == old(state).table()
                &&& final(state).awaiting_release() == old(state).awaiting_release()
            },
            ClientPacket::Other => {
                &&& res.route is None && res.subscribe is None && res.reply is None
                &&& !res.forget_will && !res.stop
                &&& final(state).table() == old(state).table()
                &&& final(state).awaiting_release() == old(state).awaiting_release()
            },
        },
{
    let mut step = PacketStep { route: None, subscribe: None, reply: None, forget_will: false, stop: false };
    match packet {
        ClientPacket::Publish { qos, retain, topic, id, payload } => {
            let author_id = share(author);
            step.route = Some(MqttMessage::new(author_id, payload, topic, retain, qos));
            match qos {
                QualityOfService::AtMostOnce => {},
                QualityOfService::AtLeastOnce => {
                    let id = id.unwrap();
                    step.reply = Some(ServerReply::Puback(id));
                },
                QualityOfService::ExactlyOnce => {
                    let id = id.unwrap();
                    match state.save_qos_exactly_once(id) {
                        Ok(()) => {
                            step.reply = Some(ServerReply::Pubrec(id));
                        },
                        Err(()) => {
                            step.stop = true;
                        },
                    }
                },
            }
        },
        ClientPacket::Puback(id) => {
            if state.receive_puback(id).is_err() {
                step.stop = true;
            }
        },
        ClientPacket::Pubrec(id) => {
            match state.receive_pubrec(id) {
                Ok(()) => {
                    step.reply = Some(ServerReply::Pubrel(id));
                },
                Err(()) => {
                    step.stop = true;
                },
            }
        },
        ClientPacket::Pubrel(id) => {
            match state.receive_pubrel(id) {
                Ok(()) => {
                    step.reply = Some(ServerReply::Pubcomp(id));
                },
                Err(()) => {
                    step.stop = true;
                },
            }
        },
        ClientPacket::Pubcomp(id) => {
            if state.receive_pubcomp(id).is_err() {
                step.stop = true;
            }
        },
        ClientPacket::Disconnect => {
            step.forget_will = true;
            step.stop = true;
        },
        ClientPacket::Subscribe(requests) => {
            step.subscribe = Some(requests);
        },
        ClientPacket::Pingreq => {
            step.reply = Some(ServerReply::Pingresp);
        },
        ClientPacket::Other => {},
    }
    step
}

/// Whether a routed `message` goes out to the client `receiver`: a client
/// does not get back what it published itself.
pub fn should_forward(message: &MqttMessage, receiver: &ClientId) -> (res: bool)
    ensures
        res == (message@.0 != receiver@),
{
    !message.author_id().same_as(receiver)
}

/// The delivery level numbered `level` (0, 1, and 2 or above).
pub open spec fn level_qos(level: u8) -> QualityOfService {
    if level == 0 {
        QualityOfService::AtMostOnce
    } else if level == 1 {
        QualityOfService::AtLeastOnce
    } else {
        QualityOfService::ExactlyOnce
    }
}

/// A CONNECT as the server reads it.
#[derive(Debug)]
pub struct ConnectRequest {
    pub client_id: String,
    pub clean_session: bool,
    pub keep_alive: u16,
    pub username: Option<String>,
    pub password: Option<Vec<u8>>,
    pub will: Option<LastWill>,
}

/// The will a CONNECT carries, when its level is a valid one (0, 1 or 2).
pub open spec fn will_of(will: Option<(Seq<char>, Seq<u8>, u8, bool)>, read: Option<LastWill>) -> bool {
    match will {
        Some((topic, payload, level, retain)) => if level <= 2 {
            read matches Some(w) && w.topic@ == topic && w.payload@ == payload && w.qos == level_qos(level)
                && w.retain == retain
        } else {
            read is None
        },
        None => read is None,
    }
}

/// Reads the first packet of a connection: the CONNECT it must be. `None`
/// when the bytes are not exactly one packet or the packet is not a
/// CONNECT; the connection is then closed.
pub fn read_connect(bytes: &[u8]) -> (res: Option<ConnectRequest>)
    ensures
        match v3_packet(bytes@) {
            Some(PacketView::Connect(id, clean, keep_alive, username, password, will)) => res matches Some(c) && {
                &&& c.client_id@ == id
                &&& c.clean_session == clean
                &&& c.keep_alive == keep_alive
                &&& match username {
                    Some(u) => c.username matches Some(cu) && cu@ == u,
                    None => c.username is None,
                }
                &&& match password {
                    Some(p) => c.password matches Some(cp) && cp@ == p,
                    None => c.password is None,
                }
                &&& will_of(will, c.will)
            },
            _ => res is None,
        },
{
    match parse_packet(bytes) {
        Some(ParsedPacket::Connect(id, clean_session, keep_alive, username, password, will)) => {
            let username = match username {
                Some(u) => Some(String::from_str(u)),
                None => None,
            };
            let password = match password {
                Some(p) => Some(copy_bytes(p)),
                None => None,
            };
            let will = match will {
                Some((topic, payload, level, retain)) => match QualityOfService::from_byte(level) {
                    Some(qos) => Some(
                        LastWill { topic: String::from_str(topic), payload: copy_bytes(payload), qos, retain },
                    ),
                    None => None,
                },
                None => None,
            };
            Some(
                ConnectRequest {
                    client_id: String::from_str(id),
                    clean_session,
                    keep_alive,
                    username,
                    password,
                    will,
                },
            )
        },
        _ => None,
    }
}

/// The level granted to a subscription to `topic` asked for at `level`:
/// none for an invalid level, else as [`SimpleSubscriptionHandler`] decides.
pub open spec fn granted_for(topic: Seq<char>, level: u8) -> Option<QualityOfService> {
    if level > 2 || topic == seq!['f', 'o', 'r', 'b', 'i', 'd', 'd', 'e', 'n'] {
        None
    } else {
        Some(level_qos(level))
    }
}

/// The kind of a packet, from the high four bits of its first byte (0 for
/// no bytes).
pub open spec fn packet_kind(bytes: Seq<u8>) -> u8 {
    if bytes.len() > 0 {
        bytes[0] / 16
    } else {
        0
    }
}

/// The packet identifier that closes a packet: its last two bytes, high
/// byte first.
pub open spec fn trailing_identifier(bytes: Seq<u8>) -> u16 {
    (bytes[bytes.len() - 2] * 256 + bytes[bytes.len() - 1]) as u16
}

/// `packet` is what the server handles for the packet `bytes`, read as
/// `view`: a PUBLISH of a valid level, a SUBSCRIBE whose requests are
/// granted as [`granted_for`] says; of the other packets, by their kind,
/// the four acknowledgements (kinds 4 to 7, with the identifier they end
/// with), a PINGREQ (12) and a DISCONNECT (14). Anything else (a CONNECT
/// too, or a PUBLISH of no valid level) is noted and ignored.
pub open spec fn client_packet_of(bytes: Seq<u8>, view: PacketView, packet: ClientPacket) -> bool {
    match view {
        PacketView::Publish(level, retain, topic, id, payload) => if level <= 2 {
            packet matches ClientPacket::Publish { qos: q, retain: r, topic: t, id: i, payload: p } && q
                == level_qos(level) && r == retain && t@ == topic && i == id && p@ == payload
        } else {
            packet is Other
        },
        PacketView::Subscribe(requests) => packet matches ClientPacket::Subscribe(rs) && rs@.len() == requests.len()
            && forall|k: int|
            0 <= k < requests.len() ==> (#[trigger] rs@[k]).topic@ == requests[k].0 && rs@[k].granted
                == granted_for(requests[k].0, requests[k].1),
        PacketView::Other => {
            let kind = packet_kind(bytes);
            if 4 <= kind <= 7 && bytes.len() >= 4 {
                let id = trailing_identifier(bytes);
                if kind == 4 {
                    packet matches ClientPacket::Puback(i) && i == id
                } else if kind == 5 {
                    packet matches ClientPacket::Pubrec(i) && i == id
                } else if kind == 6 {
                    packet matches ClientPacket::Pubrel(i) && i == id
                } else {
                    packet matches ClientPacket::Pubcomp(i) && i == id
                }
            } else if kind == 12 {
                packet is Pingreq
            } else if kind == 14 {
                packet is Disconnect
            } else {
                packet is Other
            }
        },
        PacketView::Connect(..) => packet is Other,
    }
}

/// What the server handles of a packet that is neither a CONNECT, a
/// PUBLISH nor a SUBSCRIBE, by its kind (see [`client_packet_of`]).
fn other_packet(bytes: &[u8]) -> (res: ClientPacket)
    ensures
        client_packet_of(bytes@, PacketView::Other, res),
{
    if bytes.len() == 0 {
        return ClientPacket::Other;
    }
    let kind = bytes[0] / 16;
    let len = bytes.len();
    if 4 <= kind && kind <= 7 && len >= 4 {
        let id = (bytes[len - 2] as u16) * 256 + (bytes[len - 1] as u16);
        assert(id == trailing_identifier(bytes@));
        if kind == 4 {
            ClientPacket::Puback(id)
        } else if kind == 5 {
            ClientPacket::Pubrec(id)
        } else if kind == 6 {
            ClientPacket::Pubrel(id)
        } else {
            ClientPacket::Pubcomp(id)
        }
    } else if kind == 12 {
        ClientPacket::Pingreq
    } else if kind == 14 {
        ClientPacket::Disconnect
    } else {
        ClientPacket::Other
    }
}

/// Reads a packet a connected client sent: `None` when the bytes are not
/// exactly one packet, else what the server handles of it
/// ([`client_packet_of`]).
pub fn read_client_packet(bytes: &[u8]) -> (res: Option<ClientPacket>)
    ensures
        match v3_packet(bytes@) {
            None => res is None,
            Some(view) => res matches Some(packet) && client_packet_of(bytes@, view, packet),
        },
{
    proof {
        reveal_strlit("forbidden");
    }
    let parsed = match parse_packet(bytes) {
        Some(p) => p,
        None => return None,
    };
    let packet = match parsed {
        ParsedPacket::Publish(level, retain, topic, id, payload) => match QualityOfService::from_byte(level) {
            Some(qos) => ClientPacket::Publish {
                qos,
                retain,
                topic: String::from_str(topic),
                id,
                payload: copy_bytes(payload),
            },
            None => ClientPacket::Other,
        },
        ParsedPacket::Subscribe(requests) => {
            let mut granted: Vec<SubscriptionRequest> = Vec::new();
            let mut k: usize = 0;
            while k < requests.len()
                invariant
                    k <= requests@.len(),
                    granted@.len() == k,
                    forall|j: int|
                        0 <= j < k ==> (#[trigger] granted@[j]).topic@ == requests@[j].0@
                            && granted@[j].granted == granted_for(requests@[j].0@, requests@[j].1),
                decreases requests@.len() - k,
            {
                let (topic, level) = requests[k];
                let decision = match QualityOfService::from_byte(level) {
                    Some(qos) => SimpleSubscriptionHandler.allow_subscription(topic, qos),
                    None => None,
                };
                granted.push(SubscriptionRequest { topic: String::from_str(topic), granted: decision });
                k = k + 1;
            }
            ClientPacket::Subscribe(granted)
        },
        ParsedPacket::Other => other_packet(bytes),
        ParsedPacket::Connect(..) => ClientPacket::Other,
    };
    Some(packet)
}

} // verus!
