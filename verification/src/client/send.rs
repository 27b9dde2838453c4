use futures::channel::oneshot::Sender;

use vstd::prelude::*;

use super::receive::{outstanding_of, session_wf, Qos1Callbacks, Qos2CompleteCallback, Qos2ReceiveCallback};
use super::state::{has_id, ConnectState, OutstandingPackets, SessionState};
use super::InnerClient;
use crate::packets::MqttPacket;
use crate::codecs::VARIABLE_INTEGER_MAX;
use crate::packet_identifier::{next_identifier_value, PacketIdentifier};
use crate::payload::MqttPayload;
use crate::qos::QualityOfService;
use crate::topic::MqttTopic;

verus! {

/// The identifier reached after `steps` cyclic steps from `start`
/// (1, 2, ..., 65535, 1, ...).
pub open spec fn cyclic_identifier(start: u16, steps: int) -> u16 {
    (((start - 1 + steps) % 65535) + 1) as u16
}

/// `id` is the first identifier, walking cyclically from `start`, that no
/// entry of `entries` has.
pub open spec fn first_free_identifier(entries: Seq<(u16, Seq<u8>)>, start: u16, id: u16) -> bool {
    &&& exists|steps: int|
        0 <= steps < 65535 && id == cyclic_identifier(start, steps) && forall|k: int|
            0 <= k < steps ==> has_id(entries, #[trigger] cyclic_identifier(start, k))
    &&& !has_id(entries, id)
}

/// Every identifier, walking cyclically from `start`, is had by an entry of `entries`.
pub open spec fn all_identifiers_taken(entries: Seq<(u16, Seq<u8>)>, start: u16) -> bool {
    forall|k: int| 0 <= k < 65535 ==> has_id(entries, #[trigger] cyclic_identifier(start, k))
}

/// Every packet identifier is taken: there is nothing left to hand out.
#[derive(Debug, PartialEq, Eq)]
pub struct PacketIdentifierExhausted;

proof fn lemma_cyclic_step(start: u16, steps: int)
    requires
        1 <= start,
        0 <= steps,
    ensures
        cyclic_identifier(start, steps + 1) == next_identifier_value(cyclic_identifier(start, steps)),
        1 <= cyclic_identifier(start, steps) <= 65535,
{
}

proof fn lemma_cyclic_returns(start: u16, steps: int)
    requires
        1 <= start,
        0 < steps <= 65535,
    ensures
        cyclic_identifier(start, steps) == start <==> steps == 65535,
{
}

/// Picks the identifier for the next packet: starting at `*next_packet_ident`
/// and walking cyclically, the first identifier that is not outstanding.
/// `*next_packet_ident` is left on the identifier returned; when every
/// identifier is outstanding it is back where it started.
pub fn get_next_packet_ident(
    next_packet_ident: &mut PacketIdentifier,
    outstanding_packets: &OutstandingPackets,
) -> (res: Result<PacketIdentifier, PacketIdentifierExhausted>)
    requires
        outstanding_packets.wf(),
    ensures
        match res {
            Ok(id) => {
                &&& final(next_packet_ident)@ == id@
                &&& first_free_identifier(outstanding_packets@, old(next_packet_ident)@, id@)
            },
            Err(_) => {
                &&& final(next_packet_ident)@ == old(next_packet_ident)@
                &&& all_identifiers_taken(outstanding_packets@, old(next_packet_ident)@)
            },
        },
{
    let start = *next_packet_ident;
    let ghost s = start@;
    let ghost mut steps: int = 0;
    let start_value = start.get();
    assert(start@ == cyclic_identifier(s, 0)) by {
        assert(1 <= s);
    }
    loop
        invariant
            outstanding_packets.wf(),
            1 <= s,
            start@ == s,
            start_value == s,
            s == old(next_packet_ident)@,
            0 <= steps < 65535,
            next_packet_ident@ == cyclic_identifier(s, steps),
            forall|k: int| 0 <= k < steps ==> has_id(outstanding_packets@, #[trigger] cyclic_identifier(s, k)),
        decreases 65535 - steps,
    {
        let next = *next_packet_ident;
        if !outstanding_packets.exists_outstanding_packet(next) {
            return Ok(next);
        }
        *next_packet_ident = next.wrapping_next();
        proof {
            lemma_cyclic_step(s, steps);
            lemma_cyclic_returns(s, steps + 1);
            steps = steps + 1;
        }
        if start_value == next_packet_ident.get() {
            return Err(PacketIdentifierExhausted);
        }
    }
}

/// A message to publish; `H` is the type of the handler called with each
/// packet received in answer.
pub struct Publish<H> {
    pub topic: MqttTopic,
    pub qos: QualityOfService,
    pub retain: bool,
    pub payload: MqttPayload,
    pub on_packet_recv: Option<H>,
}

/// A message to publish with delivery level 1; `H` as for [`Publish`].
pub struct PublishQos1<H> {
    pub topic: MqttTopic,
    pub retain: bool,
    pub payload: MqttPayload,
    pub on_packet_recv: Option<H>,
}

/// A message to publish with delivery level 2; `H` as for [`Publish`].
pub struct PublishQos2<H> {
    pub topic: MqttTopic,
    pub retain: bool,
    pub payload: MqttPayload,
    pub on_packet_recv: Option<H>,
}

impl<H> PublishQos1<H> {
    /// Sets the handler for the packets received in answer; nothing else changes.
    pub fn with_on_packet_recv(self, on_packet_recv: H) -> (res: PublishQos1<H>)
        ensures
            res.topic == self.topic,
            res.retain == self.retain,
            res.payload == self.payload,
            res.on_packet_recv == Some(on_packet_recv),
    {
        PublishQos1 { on_packet_recv: Some(on_packet_recv), ..self }
    }

    /// The [`Publish`] that publishing this message makes: it carries
    /// delivery level 0 ("at most once").
    pub fn into_publish(self) -> (res: Publish<H>)
        ensures
            res.topic == self.topic,
            res.qos == QualityOfService::AtMostOnce,
            res.retain == self.retain,
            res.payload == self.payload,
            res.on_packet_recv == self.on_packet_recv,
    {
        Publish {
            topic: self.topic,
            qos: QualityOfService::AtMostOnce,
            retain: self.retain,
            payload: self.payload,
            on_packet_recv: self.on_packet_recv,
        }
    }
}

impl<H> PublishQos2<H> {
    /// Sets the handler for the packets received in answer; nothing else changes.
    pub fn with_on_packet_recv(self, on_packet_recv: H) -> (res: PublishQos2<H>)
        ensures
            res.topic == self.topic,
            res.retain == self.retain,
            res.payload == self.payload,
            res.on_packet_recv == Some(on_packet_recv),
    {
        PublishQos2 { on_packet_recv: Some(on_packet_recv), ..self }
    }

    /// The [`Publish`] that publishing this message makes, of level 2.
    pub fn into_publish(self) -> (res: Publish<H>)
        ensures
            res.topic == self.topic,
            res.qos == QualityOfService::ExactlyOnce,
            res.retain == self.retain,
            res.payload == self.payload,
            res.on_packet_recv == self.on_packet_recv,
    {
        Publish {
            topic: self.topic,
            qos: QualityOfService::ExactlyOnce,
            retain: self.retain,
            payload: self.payload,
            on_packet_recv: self.on_packet_recv,
        }
    }
}

/// Whether acknowledging a received message sends back an acknowledgement.
#[derive(Debug, PartialEq, Eq, Structural, Clone, Copy)]
pub enum Acknowledge {
    No,
    Yes,
    YesWithProps {},
}

/// Why a publish is refused before anything is sent.
#[derive(Debug, PartialEq, Eq, Structural, Clone, Copy)]
pub enum PublishRefusal {
    /// The client is not connected.
    NoConnection,
    /// The client has no session.
    NoSession,
    /// The retain flag is refused (see [`retain_refused`]).
    Retain,
    /// Every packet identifier is in use.
    IdentifiersExhausted,
}

/// The retain rule the client applies: a retained message is refused unless
/// the server said that retain is not available.
pub open spec fn retain_refused(retain_available: Option<bool>, retain: bool) -> bool {
    let available = match retain_available {
        Some(a) => a,
        None => true,
    };
    available && retain
}

/// How a message of level `qos` with retain flag `retain` goes out, given
/// the connection and session before (`conn`, `sess`) and the connection
/// after (`final_conn`): refused (nothing changes), without a packet
/// identifier (level 0), or with the first identifier not outstanding,
/// counting cyclically from the connection's counter, which then stands at
/// it.
pub open spec fn publish_decided(
    conn: Option<ConnectState>,
    sess: Option<SessionState>,
    qos: QualityOfService,
    retain: bool,
    final_conn: Option<ConnectState>,
    res: Result<Option<PacketIdentifier>, PublishRefusal>,
) -> bool {
    match (conn, sess) {
        (None, _) => res == Err::<Option<PacketIdentifier>, PublishRefusal>(PublishRefusal::NoConnection)
            && final_conn == conn,
        (Some(_), None) => res == Err::<Option<PacketIdentifier>, PublishRefusal>(PublishRefusal::NoSession)
            && final_conn == conn,
        (Some(c), Some(s)) => if retain_refused(c.retain_available, retain) {
            res == Err::<Option<PacketIdentifier>, PublishRefusal>(PublishRefusal::Retain) && final_conn == conn
        } else if qos == QualityOfService::AtMostOnce {
            res == Ok::<Option<PacketIdentifier>, PublishRefusal>(None) && final_conn == conn
        } else {
            final_conn matches Some(fc) && {
                &&& fc == (ConnectState { next_packet_identifier: fc.next_packet_identifier, ..c })
                &&& match res {
                    Ok(Some(id)) => {
                        &&& fc.next_packet_identifier@ == id@
                        &&& first_free_identifier(s.outstanding_packets@, c.next_packet_identifier@, id@)
                    },
                    Err(PublishRefusal::IdentifiersExhausted) => {
                        &&& fc.next_packet_identifier@ == c.next_packet_identifier@
                        &&& all_identifiers_taken(s.outstanding_packets@, c.next_packet_identifier@)
                    },
                    _ => false,
                }
            }
        },
    }
}

/// Exactly the acknowledged levels get a packet identifier: whatever the
/// connection and session, a publish that goes out without an identifier is
/// one of level 0, one of level 0 never gets one, and for a connected client
/// with a session whose retain flag is allowed, a publish of level 1 or 2
/// gets an identifier unless every identifier is in use.
pub proof fn lemma_acknowledged_levels_get_an_identifier(
    conn: Option<ConnectState>,
    sess: Option<SessionState>,
    qos: QualityOfService,
    retain: bool,
    final_conn: Option<ConnectState>,
    res: Result<Option<PacketIdentifier>, PublishRefusal>,
)
    requires
        publish_decided(conn, sess, qos, retain, final_conn, res),
    ensures
        res matches Ok(None) ==> qos.level() == 0,
        res matches Ok(Some(_)) ==> qos.level() > 0,
        conn is Some && sess is Some && !retain_refused(conn.unwrap().retain_available, retain) && qos.level() > 0
            ==> (res matches Ok(Some(_)) || res == Err::<Option<PacketIdentifier>, PublishRefusal>(
            PublishRefusal::IdentifiersExhausted,
        )),
{
}

/// Decides how a message of level `qos` with retain flag `retain` goes out,
/// as [`publish_decided`] says.
pub fn prepare_publish(
    conn: &mut Option<ConnectState>,
    sess: &Option<SessionState>,
    qos: QualityOfService,
    retain: bool,
) -> (res: Result<Option<PacketIdentifier>, PublishRefusal>)
    requires
        *sess matches Some(s) ==> s.outstanding_packets.wf(),
    ensures
        publish_decided(*old(conn), *sess, qos, retain, *final(conn), res),
        res matches Ok(None) ==> qos.level() == 0,
        res matches Ok(Some(_)) ==> qos.level() > 0,
        *old(conn) is Some && *sess is Some && !retain_refused(old(conn).unwrap().retain_available, retain)
            && qos.level() > 0 ==> (res matches Ok(Some(_)) || res == Err::<
            Option<PacketIdentifier>,
            PublishRefusal,
        >(PublishRefusal::IdentifiersExhausted)),
{
    let ghost before = *conn;
    let res = decide_publish(conn, sess, qos, retain);
    proof {
        lemma_acknowledged_levels_get_an_identifier(before, *sess, qos, retain, *conn, res);
    }
    res
}

/// The decision of [`prepare_publish`].
fn decide_publish(
    conn: &mut Option<ConnectState>,
    sess: &Option<SessionState>,
    qos: QualityOfService,
    retain: bool,
) -> (res: Result<Option<PacketIdentifier>, PublishRefusal>)
    requires
        *sess matches Some(s) ==> s.outstanding_packets.wf(),
    ensures
        publish_decided(*old(conn), *sess, qos, retain, *final(conn), res),
{
    let conn_state = match conn {
        Some(c) => c,
        None => return Err(PublishRefusal::NoConnection),
    };
    let sess_state = match sess {
        Some(s) => s,
        None => return Err(PublishRefusal::NoSession),
    };
    let available = match conn_state.retain_available {
        Some(a) => a,
        None => true,
    };
    if available && retain {
        return Err(PublishRefusal::Retain);
    }
    if matches!(qos, QualityOfService::AtMostOnce) {
        return Ok(None);
    }
    match get_next_packet_ident(&mut conn_state.next_packet_identifier, &sess_state.outstanding_packets) {
        Ok(id) => Ok(Some(id)),
        Err(PacketIdentifierExhausted) => Err(PublishRefusal::IdentifiersExhausted),
    }
}

/// Whether a packet of `size` bytes may be sent: it is at most the maximum
/// the server announced, or at most [`VARIABLE_INTEGER_MAX`] when it
/// announced none.
pub fn fits_maximum_packet_size(maximum_packet_size: Option<u32>, size: u32) -> (res: bool)
    ensures
        res == (size <= match maximum_packet_size {
            Some(m) => m,
            None => VARIABLE_INTEGER_MAX,
        }),
{
    let maximum = match maximum_packet_size {
        Some(m) => m,
        None => VARIABLE_INTEGER_MAX,
    };
    !(size > maximum)
}

/// The PUBLISH a client sends: never a duplicate, with the message's
/// level, retain flag, topic and payload, and the packet identifier chosen
/// for it (none at level 0).
pub struct PublishPacket {
    pub duplicate: bool,
    pub qos: QualityOfService,
    pub retain: bool,
    pub topic: MqttTopic,
    pub packet_identifier: Option<PacketIdentifier>,
    pub payload: MqttPayload,
}

/// Decides how `publish` goes out, as [`prepare_publish`] does, and gives
/// the PUBLISH to send, with the handler to call with the packets received
/// in answer.
pub fn publish_packet<H>(conn: &mut Option<ConnectState>, sess: &Option<SessionState>, publish: Publish<H>) -> (res:
    Result<(PublishPacket, Option<H>), PublishRefusal>)
    requires
        *sess matches Some(s) ==> s.outstanding_packets.wf(),
    ensures
        publish_decided(
            *old(conn),
            *sess,
            publish.qos,
            publish.retain,
            *final(conn),
            match res {
                Ok((packet, _)) => Ok(packet.packet_identifier),
                Err(refusal) => Err(refusal),
            },
        ),
        res matches Ok((packet, _)) ==> (packet.packet_identifier is None <==> publish.qos.level() == 0),
        res matches Ok((packet, handler)) ==> {
            &&& !packet.duplicate
            &&& packet.qos == publish.qos
            &&& packet.retain == publish.retain
            &&& packet.topic == publish.topic
            &&& packet.payload == publish.payload
            &&& handler == publish.on_packet_recv
        },
{
    let Publish { topic, qos, retain, payload, on_packet_recv } = publish;
    match prepare_publish(conn, sess, qos, retain) {
        Ok(packet_identifier) => Ok((
            PublishPacket { duplicate: false, qos, retain, topic, packet_identifier, payload },
            on_packet_recv,
        )),
        Err(refusal) => Err(refusal),
    }
}

/// Who waits for the answers to a publish of level 1 (one answer) or 2 (two).
pub enum PublishWaiting {
    Once(Qos1Callbacks),
    Twice(Qos2ReceiveCallback, Qos2CompleteCallback),
}

/// Records a publish that goes out under `id`: its frame is outstanding,
/// last in send order, and `waiting` waits for its answers.
pub fn record_publish(inner: &mut InnerClient, id: PacketIdentifier, frame: MqttPacket, waiting: PublishWaiting)
    requires
        session_wf(*old(inner)),
        !has_id(outstanding_of(*old(inner)), id@),
    ensures
        session_wf(*final(inner)),
        final(inner).connection_state == old(inner).connection_state,
        outstanding_of(*final(inner)) == outstanding_of(*old(inner)).push((id@, frame@)),
        final(inner).outstanding_callbacks.pings() == old(inner).outstanding_callbacks.pings(),
        match waiting {
            PublishWaiting::Once(cb) => {
                &&& final(inner).outstanding_callbacks.qos1_waiting()
                    == old(inner).outstanding_callbacks.qos1_waiting().insert(id@, cb)
                &&& final(inner).outstanding_callbacks.qos2_receive_waiting()
                    == old(inner).outstanding_callbacks.qos2_receive_waiting()
                &&& final(inner).outstanding_callbacks.qos2_complete_waiting()
                    == old(inner).outstanding_callbacks.qos2_complete_waiting()
            },
            PublishWaiting::Twice(rec, comp) => {
                &&& final(inner).outstanding_callbacks.qos1_waiting()
                    == old(inner).outstanding_callbacks.qos1_waiting()
                &&& final(inner).outstanding_callbacks.qos2_receive_waiting()
                    == old(inner).outstanding_callbacks.qos2_receive_waiting().insert(id@, rec)
                &&& final(inner).outstanding_callbacks.qos2_complete_waiting()
                    == old(inner).outstanding_callbacks.qos2_complete_waiting().insert(id@, comp)
            },
        },
{
    let mut session = inner.session_state.take().unwrap();
    session.outstanding_packets.insert(id, frame);
    inner.session_state = Some(session);
    match waiting {
        PublishWaiting::Once(cb) => inner.outstanding_callbacks.add_qos1(id, cb),
        PublishWaiting::Twice(rec, comp) => inner.outstanding_callbacks.add_qos2(id, rec, comp),
    }
}

/// A ping is about to go out: without a connection it is refused; with one,
/// `sender` waits for its answer, behind those already waiting.
pub fn register_ping(inner: &mut InnerClient, sender: Sender<()>) -> (res: Result<(), ()>)
    ensures
        res is Err <==> old(inner).connection_state is None,
        res is Err ==> *final(inner) == *old(inner),
        res is Ok ==> final(inner).outstanding_callbacks.pings()
            == old(inner).outstanding_callbacks.pings().push(sender),
        final(inner).connection_state == old(inner).connection_state,
        final(inner).session_state == old(inner).session_state,
        final(inner).outstanding_callbacks.qos1_waiting() == old(inner).outstanding_callbacks.qos1_waiting(),
        final(inner).outstanding_callbacks.qos2_receive_waiting()
            == old(inner).outstanding_callbacks.qos2_receive_waiting(),
        final(inner).outstanding_callbacks.qos2_complete_waiting()
            == old(inner).outstanding_callbacks.qos2_complete_waiting(),
{
    if inner.connection_state.is_none() {
        return Err(());
    }
    inner.outstanding_callbacks.add_ping_req(sender);
    Ok(())
}

} // verus!
