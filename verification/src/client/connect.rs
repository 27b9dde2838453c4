//! Connecting a client: what goes into the CONNECT, and what the client
//! makes of the server's answer.

use vstd::prelude::*;

use super::state::{ConnectState, OutstandingPackets, SessionState};
use crate::bytes::MqttBytes;
use crate::client_identifier::ProposedClientIdentifier;
use crate::keep_alive::KeepAlive;
use crate::packet_identifier::PacketIdentifier;
use crate::qos::QualityOfService;
use crate::string::{utf8_len, MqttString};

verus! {

/// Whether the client asks the server to start a fresh session.
#[derive(Debug, PartialEq, Eq, Structural, Clone, Copy)]
pub enum CleanStart {
    No,
    Yes,
}

impl CleanStart {
    /// The flag as the CONNECT carries it.
    pub fn as_bool(&self) -> (res: bool)
        ensures
            res == (*self == CleanStart::Yes),
    {
        match self {
            CleanStart::No => false,
            CleanStart::Yes => true,
        }
    }
}

/// The last will a client leaves with the server: a message published on its
/// behalf when it goes away without saying goodbye.
pub struct MqttWill {
    pub topic: MqttString,
    pub payload: MqttBytes,
    pub qos: QualityOfService,
    pub retain: bool,
}

/// Why connecting failed.
#[derive(Debug, Clone, Copy)]
pub enum MqttClientConnectError {
    /// Encoding or sending the CONNECT failed.
    Send,
    /// Decoding or receiving the answer failed.
    Receive,
    /// The connection closed before the server answered.
    TransportUnexpectedlyClosed,
    /// The server's answer breaks the protocol; `reason` names the
    /// normative statement it breaks.
    ServerProtocolError { reason: &'static str },
}

/// Everything that goes into a CONNECT.
pub struct MqttClientConnector {
    pub client_identifier: ProposedClientIdentifier,
    pub clean_start: CleanStart,
    pub keep_alive: KeepAlive,
    pub username: Option<MqttString>,
    pub password: Option<MqttBytes>,
    pub will: Option<MqttWill>,
    /// Whether authentication data is among the CONNECT's properties.
    pub authentication: bool,
}

impl MqttClientConnector {
    /// A CONNECT with the given identifier, clean-start flag and keep-alive,
    /// and nothing else.
    pub fn new(client_identifier: ProposedClientIdentifier, clean_start: CleanStart, keep_alive: KeepAlive) -> (res:
        MqttClientConnector)
        ensures
            res.client_identifier == client_identifier,
            res.clean_start == clean_start,
            res.keep_alive == keep_alive,
            res.username is None,
            res.password is None,
            res.will is None,
            !res.authentication,
    {
        MqttClientConnector {
            client_identifier,
            clean_start,
            keep_alive,
            username: None,
            password: None,
            will: None,
            authentication: false,
        }
    }

    /// Adds a user name.
    pub fn with_username(&mut self, username: MqttString) -> (res: &mut Self)
        ensures
            res.username == Some(username),
            res.client_identifier == old(self).client_identifier,
            res.clean_start == old(self).clean_start,
            res.keep_alive == old(self).keep_alive,
            res.password == old(self).password,
            res.will == old(self).will,
            res.authentication == old(self).authentication,
            *final(self) == *final(res),
    {
        self.username = Some(username);
        self
    }

    /// Adds a password.
    pub fn with_password(&mut self, password: MqttBytes) -> (res: &mut Self)
        ensures
            res.password == Some(password),
            res.client_identifier == old(self).client_identifier,
            res.clean_start == old(self).clean_start,
            res.keep_alive == old(self).keep_alive,
            res.username == old(self).username,
            res.will == old(self).will,
            res.authentication == old(self).authentication,
            *final(self) == *final(res),
    {
        self.password = Some(password);
        self
    }

    /// Adds a last will.
    pub fn with_will(&mut self, will: MqttWill) -> (res: &mut Self)
        ensures
            res.will == Some(will),
            res.client_identifier == old(self).client_identifier,
            res.clean_start == old(self).clean_start,
            res.keep_alive == old(self).keep_alive,
            res.username == old(self).username,
            res.password == old(self).password,
            res.authentication == old(self).authentication,
            *final(self) == *final(res),
    {
        self.will = Some(will);
        self
    }
}

/// What the client reads from a CONNACK: whether the server kept a
/// session, whether it accepted the connection, and the properties that
/// shape the connection.
pub struct ConnackInfo {
    pub session_present: bool,
    pub success: bool,
    pub receive_maximum: Option<u16>,
    pub maximum_qos: Option<QualityOfService>,
    pub retain_available: Option<bool>,
    pub maximum_packet_size: Option<u32>,
    pub topic_alias_maximum: Option<u16>,
    pub server_keep_alive: Option<u16>,
    pub assigned_client_identifier: Option<String>,
}

/// The first packet the server answers a CONNECT with.
pub enum ServerResponse {
    Connack(ConnackInfo),
    Auth,
    Other,
}

/// The server's answer can be handled: an AUTH is only handled when the
/// CONNECT carried no authentication data (and is then an error), and a
/// CONNACK only when it accepts the connection.
pub open spec fn response_handled(response: ServerResponse, authentication: bool) -> bool {
    match response {
        ServerResponse::Connack(info) => info.success,
        ServerResponse::Auth => !authentication,
        ServerResponse::Other => true,
    }
}

/// The keep-alive the connection ends up with: the server's, when it sent
/// one (0 disabling it), else the one asked for.
pub open spec fn effective_keep_alive(server_keep_alive: Option<u16>, asked: KeepAlive) -> u16 {
    match server_keep_alive {
        Some(s) => s,
        None => asked.seconds(),
    }
}

/// The reason the server's answer is refused, if it is.
pub open spec fn connack_refusal(
    response: ServerResponse,
    clean_start: CleanStart,
    proposed: ProposedClientIdentifier,
) -> Option<&'static str> {
    match response {
        ServerResponse::Auth => Some("MQTT-4.12.0-6"),
        ServerResponse::Other => Some("MQTT-3.1.4-5"),
        ServerResponse::Connack(info) => if info.session_present && clean_start == CleanStart::Yes {
            Some("MQTT-3.2.2-2")
        } else {
            match info.assigned_client_identifier {
                Some(assigned) => if proposed is PotentiallyServerProvided {
                    if utf8_len(assigned@) > 65535 {
                        Some("MQTT-1.5.4")
                    } else {
                        None
                    }
                } else {
                    Some("MQTT-3.2.2.3.7")
                },
                None => if proposed is PotentiallyServerProvided {
                    Some("MQTT-3.2.2.3.7")
                } else {
                    None
                },
            }
        },
    }
}

/// A CONNACK is accepted whenever it does not contradict the CONNECT: no
/// session is said to be kept for a clean start, and a client identifier is
/// assigned exactly when the client proposed none (and then fits in an
/// MQTT string).
pub proof fn lemma_connack_accepts(response: ServerResponse, clean_start: CleanStart, proposed: ProposedClientIdentifier)
    ensures
        match response {
            ServerResponse::Connack(info) => !(info.session_present && clean_start == CleanStart::Yes) ==> match info.assigned_client_identifier {
                None => !(proposed is PotentiallyServerProvided) ==> connack_refusal(response, clean_start, proposed) is None,
                Some(a) => proposed is PotentiallyServerProvided && utf8_len(a@) <= 65535 ==> connack_refusal(
                    response,
                    clean_start,
                    proposed,
                ) is None,
            },
            _ => true,
        },
{
}

/// Takes the server's answer to a CONNECT made with `connector`: refuses it
/// as [`connack_refusal`] says, or gives the state of the new connection and
/// session. The session's client identifier is the one the server assigned,
/// if it did, else the one proposed; no packet is outstanding yet, and
/// identifiers start at 1.
pub fn process_connack(response: ServerResponse, connector: MqttClientConnector) -> (res: Result<
    (ConnectState, SessionState),
    MqttClientConnectError,
>)
    requires
        response_handled(response, connector.authentication),
    ensures
        match response {
            ServerResponse::Connack(info) => !(info.session_present && connector.clean_start == CleanStart::Yes)
                ==> match info.assigned_client_identifier {
                None => !(connector.client_identifier is PotentiallyServerProvided) ==> (res matches Ok((_, sess))
                    && sess.client_identifier@ == connector.client_identifier@),
                Some(a) => connector.client_identifier is PotentiallyServerProvided && utf8_len(a@) <= 65535 ==> (
                res matches Ok((_, sess)) && sess.client_identifier@ == a@),
            },
            _ => true,
        },
        match connack_refusal(response, connector.clean_start, connector.client_identifier) {
            Some(reason) => res == Err::<(ConnectState, SessionState), MqttClientConnectError>(
                MqttClientConnectError::ServerProtocolError { reason },
            ),
            None => res matches Ok((conn, sess)) && match response {
                ServerResponse::Connack(info) => {
                    &&& conn.session_present == info.session_present
                    &&& conn.receive_maximum == info.receive_maximum
                    &&& conn.maximum_qos == info.maximum_qos
                    &&& conn.retain_available == info.retain_available
                    &&& conn.maximum_packet_size == info.maximum_packet_size
                    &&& conn.topic_alias_maximum == info.topic_alias_maximum
                    &&& conn.keep_alive.seconds() == effective_keep_alive(
                        info.server_keep_alive,
                        connector.keep_alive,
                    )
                    &&& conn.next_packet_identifier@ == 1
                    &&& sess.client_identifier@ == match info.assigned_client_identifier {
                        Some(assigned) => assigned@,
                        None => connector.client_identifier@,
                    }
                    &&& sess.outstanding_packets@.len() == 0
                    &&& sess.outstanding_packets.wf()
                },
                _ => false,
            },
        },
{
    proof {
        lemma_connack_accepts(response, connector.clean_start, connector.client_identifier);
    }
    let info = match response {
        ServerResponse::Connack(info) => info,
        ServerResponse::Auth => {
            return Err(MqttClientConnectError::ServerProtocolError { reason: "MQTT-4.12.0-6" });
        },
        ServerResponse::Other => {
            return Err(MqttClientConnectError::ServerProtocolError { reason: "MQTT-3.1.4-5" });
        },
    };
    if info.session_present && connector.clean_start == CleanStart::Yes {
        return Err(MqttClientConnectError::ServerProtocolError { reason: "MQTT-3.2.2-2" });
    }
    let keep_alive = match info.server_keep_alive {
        Some(seconds) => KeepAlive::from_u16(seconds),
        None => connector.keep_alive,
    };
    let connect_state = ConnectState {
        session_present: info.session_present,
        receive_maximum: info.receive_maximum,
        maximum_qos: info.maximum_qos,
        retain_available: info.retain_available,
        maximum_packet_size: info.maximum_packet_size,
        topic_alias_maximum: info.topic_alias_maximum,
        keep_alive,
        next_packet_identifier: PacketIdentifier::min(),
    };
    let client_identifier = match info.assigned_client_identifier {
        Some(assigned) => {
            if matches!(connector.client_identifier, ProposedClientIdentifier::PotentiallyServerProvided) {
                match MqttString::try_from_string(assigned) {
                    Ok(id) => id,
                    Err(_) => {
                        return Err(MqttClientConnectError::ServerProtocolError { reason: "MQTT-1.5.4" });
                    },
                }
            } else {
                return Err(MqttClientConnectError::ServerProtocolError { reason: "MQTT-3.2.2.3.7" });
            }
        },
        None => match connector.client_identifier {
            ProposedClientIdentifier::PotentiallyServerProvided => {
                return Err(MqttClientConnectError::ServerProtocolError { reason: "MQTT-3.2.2.3.7" });
            },
            ProposedClientIdentifier::MinimalRequired(mr) => mr.into_inner(),
            ProposedClientIdentifier::PotentiallyAccepted(pa) => pa.into_inner(),
        },
    };
    let session_state = SessionState {
        client_identifier,
        outstanding_packets: OutstandingPackets::empty(),
    };
    Ok((connect_state, session_state))
}

/// How often a connected client sends a PINGREQ when it has sent nothing
/// else: every `keep_alive` seconds, or never when keep-alive is disabled.
pub fn heartbeat_period(keep_alive: KeepAlive) -> (res: Option<u16>)
    ensures
        keep_alive.seconds() == 0 ==> res is None,
        keep_alive.seconds() != 0 ==> res == Some(keep_alive.seconds()),
{
    match keep_alive {
        KeepAlive::Disabled => None,
        KeepAlive::Seconds(s) => Some(s.get()),
    }
}

/// What the heartbeat of a connection learns while it waits.
#[derive(Debug, PartialEq, Eq, Structural, Clone, Copy)]
pub enum HeartbeatEvent {
    /// A packet went out: the connection showed life.
    PacketSent,
    /// Nobody can tell of sent packets any more: the connection is gone.
    SendersGone,
    /// A whole period passed without a packet going out.
    PeriodElapsed,
}

/// What the heartbeat does next.
#[derive(Debug, PartialEq, Eq, Structural, Clone, Copy)]
pub enum HeartbeatAction {
    /// Wait a whole period again.
    RestartTimer,
    /// End the heartbeat.
    Stop,
    /// Send a PINGREQ, and go on waiting.
    SendPingreq,
}

/// The heartbeat's decision on `event`: a packet sent restarts the wait,
/// silence for a whole period sends a PINGREQ, and the end of the
/// connection ends the heartbeat.
pub fn heartbeat_step(event: HeartbeatEvent) -> (res: HeartbeatAction)
    ensures
        res == match event {
            HeartbeatEvent::PacketSent => HeartbeatAction::RestartTimer,
            HeartbeatEvent::SendersGone => HeartbeatAction::Stop,
            HeartbeatEvent::PeriodElapsed => HeartbeatAction::SendPingreq,
        },
{
    match event {
        HeartbeatEvent::PacketSent => HeartbeatAction::RestartTimer,
        HeartbeatEvent::SendersGone => HeartbeatAction::Stop,
        HeartbeatEvent::PeriodElapsed => HeartbeatAction::SendPingreq,
    }
}

} // verus!
