//! What the client does with the acknowledgements the server sends for its
//! own publications, and with the rest of what the server sends.

use std::collections::{HashMap, VecDeque};

use futures::channel::oneshot::Sender;
use mqtt_format::v3::identifier::MPacketIdentifier;
use mqtt_format::v3::packet::{MPacket, MPubrel};

use vstd::prelude::*;

use super::state::{has_id, without_id};
use super::InnerClient;
use crate::packet_identifier::PacketIdentifier;
use crate::packets::MqttPacket;
use crate::util::copy_bytes;

verus! {

broadcast use vstd::std_specs::hash::group_hash_axioms;

#[verifier::external_type_specification]
#[verifier::external_body]
#[verifier::reject_recursive_types(T)]
pub struct ExSender<T>(Sender<T>);

/// The reason code of a PUBACK.
#[derive(Debug, PartialEq, Eq, Structural, Clone, Copy)]
pub enum PubackReason {
    Success,
    NoMatchingSubscribers,
    /// Any of the error codes.
    Error,
}

/// The reason code of a PUBREC or a PUBCOMP: success, or one of the errors.
#[derive(Debug, PartialEq, Eq, Structural, Clone, Copy)]
pub enum AckReason {
    Success,
    Error,
}

/// The PUBREL that releases the publish with identifier `id`: the fixed
/// header 0x62, the remaining length 2, then the identifier, high byte
/// first (reason "success", which is left out).
pub open spec fn pubrel_frame(id: u16) -> Seq<u8> {
    seq![0x62u8, 0x02u8, (id / 256) as u8, (id % 256) as u8]
}

/// `MPacket::write_to` of `mqtt-format`, on the PUBREL for `id`, into a byte
/// vector: it writes the fixed header 0x62, the remaining length 2 and the
/// identifier in big-endian order, and writing into a vector does not fail.
#[verifier::external_body]
fn pubrel_bytes(id: u16) -> (res: Option<Vec<u8>>)
    ensures
        res is Some,
        res.unwrap()@ == pubrel_frame(id),
{
    let mut buffer: Vec<u8> = Vec::new();
    let packet = MPacket::Pubrel(MPubrel { id: MPacketIdentifier(id) });
    match futures::executor::block_on(packet.write_to(std::pin::Pin::new(&mut buffer))) {
        Ok(()) => Some(buffer),
        Err(_) => None,
    }
}

/// `futures::channel::oneshot::Sender::send`: hands `value` to whoever holds
/// the receiving end, and uses the sender up. Whether the value arrives
/// depends on that end still being there, so nothing is stated of it.
#[verifier::external_body]
fn deliver<T>(sender: Sender<T>, value: T) {
    let _ = sender.send(value);
}

/// The packets outstanding in the session of `inner` (empty without a session).
pub open spec fn outstanding_of(inner: InnerClient) -> Seq<(u16, Seq<u8>)> {
    match inner.session_state {
        Some(s) => s.outstanding_packets@,
        None => Seq::empty(),
    }
}

/// The client has a session whose record of outstanding packets is consistent.
pub open spec fn session_wf(inner: InnerClient) -> bool {
    inner.session_state matches Some(s) && s.outstanding_packets.wf()
}

/// The connection, the session's client identifier and the pings waited
/// for are as they were.
pub open spec fn only_outstanding_changed(before: InnerClient, after: InnerClient) -> bool {
    &&& after.connection_state == before.connection_state
    &&& after.session_state matches Some(a) && before.session_state matches Some(b)
        && a.client_identifier == b.client_identifier
    &&& after.outstanding_callbacks.pings() == before.outstanding_callbacks.pings()
}

/// A PUBACK for `id` arrived with `reason`: `on_qos1_acknowledge` is
/// called with it, the packet it acknowledges is no longer outstanding, and
/// whoever waited for the acknowledgement is handed `puback`. Only a PUBACK
/// of success (or of "no matching subscribers") for an outstanding packet,
/// with a session, is handled.
pub fn handle_puback<F: Fn(MqttPacket)>(
    inner: &mut InnerClient,
    on_qos1_acknowledge: &F,
    reason: PubackReason,
    id: PacketIdentifier,
    puback: MqttPacket,
)
    requires
        forall|p: MqttPacket| on_qos1_acknowledge.requires((p,)),
        reason != PubackReason::Error,
        session_wf(*old(inner)),
        has_id(outstanding_of(*old(inner)), id@),
    ensures
        session_wf(*final(inner)),
        only_outstanding_changed(*old(inner), *final(inner)),
        outstanding_of(*final(inner)) == without_id(outstanding_of(*old(inner)), id@),
        final(inner).outstanding_callbacks.qos1_waiting() == old(inner).outstanding_callbacks.qos1_waiting().remove(
            id@,
        ),
        final(inner).outstanding_callbacks.qos2_receive_waiting()
            == old(inner).outstanding_callbacks.qos2_receive_waiting(),
        final(inner).outstanding_callbacks.qos2_complete_waiting()
            == old(inner).outstanding_callbacks.qos2_complete_waiting(),
        exists|p: MqttPacket| p@ == puback@ && call_ensures(*on_qos1_acknowledge, (p,), ()),
{
    let copy = MqttPacket::from_frame(copy_bytes(puback.frame()));
    let ghost handed = copy;
    on_qos1_acknowledge(copy);
    assert(handed@ == puback@ && call_ensures(*on_qos1_acknowledge, (handed,), ()));
    let mut session = inner.session_state.take().unwrap();
    session.outstanding_packets.remove_by_id(id);
    inner.session_state = Some(session);
    if let Some(callback) = inner.outstanding_callbacks.take_qos1(id) {
        deliver(callback.on_acknowledge, puback);
    }
}

/// A PUBREC for `id` arrived with `reason`. When the packet is outstanding
/// it is replaced by the PUBREL for `id` ([`pubrel_frame`]), whoever waited
/// for the reception is handed `pubrec`, and that PUBREL comes back, to be
/// sent; otherwise nothing changes and nothing comes back. Only a PUBREC of
/// success is handled, with a connection and a session, and only when
/// someone waits for an outstanding packet's reception.
pub fn handle_pubrec(inner: &mut InnerClient, reason: AckReason, id: PacketIdentifier, pubrec: MqttPacket) -> (res:
    Option<MqttPacket>)
    requires
        reason == AckReason::Success,
        old(inner).connection_state is Some,
        session_wf(*old(inner)),
        has_id(outstanding_of(*old(inner)), id@)
            ==> old(inner).outstanding_callbacks.qos2_receive_waiting().contains_key(id@),
    ensures
        session_wf(*final(inner)),
        only_outstanding_changed(*old(inner), *final(inner)),
        final(inner).outstanding_callbacks.qos1_waiting() == old(inner).outstanding_callbacks.qos1_waiting(),
        final(inner).outstanding_callbacks.qos2_complete_waiting()
            == old(inner).outstanding_callbacks.qos2_complete_waiting(),
        if has_id(outstanding_of(*old(inner)), id@) {
            &&& outstanding_of(*final(inner)) == outstanding_of(*old(inner)).map_values(
                |e: (u16, Seq<u8>)| if e.0 == id@ { (e.0, pubrel_frame(id@)) } else { e },
            )
            &&& res matches Some(pubrel) && pubrel@ == pubrel_frame(id@)
            &&& final(inner).outstanding_callbacks.qos2_receive_waiting()
                == old(inner).outstanding_callbacks.qos2_receive_waiting().remove(id@)
        } else {
            &&& outstanding_of(*final(inner)) == outstanding_of(*old(inner))
            &&& res is None
            &&& final(inner).outstanding_callbacks.qos2_receive_waiting()
                == old(inner).outstanding_callbacks.qos2_receive_waiting()
        },
{
    let mut session = inner.session_state.take().unwrap();
    if session.outstanding_packets.exists_outstanding_packet(id) {
        let bytes = pubrel_bytes(id.get()).unwrap();
        session.outstanding_packets.update_by_id(id, MqttPacket::from_frame(copy_bytes(bytes.as_slice())));
        inner.session_state = Some(session);
        let callback = inner.outstanding_callbacks.take_qos2_receive(id).unwrap();
        deliver(callback.on_receive, pubrec);
        Some(MqttPacket::from_frame(bytes))
    } else {
        inner.session_state = Some(session);
        None
    }
}

/// A PUBCOMP for `id` arrived with `reason`. When the packet is outstanding
/// it is no longer, and whoever waited for the completion is handed
/// `pubcomp`; otherwise nothing changes. Only a PUBCOMP of success is
/// handled, with a session, and only when someone waits for an outstanding
/// packet's completion.
pub fn handle_pubcomp(inner: &mut InnerClient, reason: AckReason, id: PacketIdentifier, pubcomp: MqttPacket)
    requires
        reason == AckReason::Success,
        session_wf(*old(inner)),
        has_id(outstanding_of(*old(inner)), id@)
            ==> old(inner).outstanding_callbacks.qos2_complete_waiting().contains_key(id@),
    ensures
        session_wf(*final(inner)),
        only_outstanding_changed(*old(inner), *final(inner)),
        final(inner).outstanding_callbacks.qos1_waiting() == old(inner).outstanding_callbacks.qos1_waiting(),
        final(inner).outstanding_callbacks.qos2_receive_waiting()
            == old(inner).outstanding_callbacks.qos2_receive_waiting(),
        if has_id(outstanding_of(*old(inner)), id@) {
            &&& outstanding_of(*final(inner)) == without_id(outstanding_of(*old(inner)), id@)
            &&& final(inner).outstanding_callbacks.qos2_complete_waiting()
                == old(inner).outstanding_callbacks.qos2_complete_waiting().remove(id@)
        } else {
            &&& outstanding_of(*final(inner)) == outstanding_of(*old(inner))
            &&& final(inner).outstanding_callbacks.qos2_complete_waiting()
                == old(inner).outstanding_callbacks.qos2_complete_waiting()
        },
{
    let mut session = inner.session_state.take().unwrap();
    if session.outstanding_packets.exists_outstanding_packet(id) {
        session.outstanding_packets.remove_by_id(id);
        inner.session_state = Some(session);
        let callback = inner.outstanding_callbacks.take_qos2_complete(id).unwrap();
        deliver(callback.on_complete, pubcomp);
    } else {
        inner.session_state = Some(session);
    }
}

/// A PINGRESP arrived: whoever waits for the oldest ping is told, and no
/// longer waits. The result says whether a ping was waiting.
pub fn handle_pingresp(inner: &mut InnerClient) -> (res: bool)
    ensures
        final(inner).connection_state == old(inner).connection_state,
        final(inner).session_state == old(inner).session_state,
        res == (old(inner).outstanding_callbacks.pings().len() > 0),
        !res ==> final(inner).outstanding_callbacks.pings() == old(inner).outstanding_callbacks.pings(),
        res ==> final(inner).outstanding_callbacks.pings()
            == old(inner).outstanding_callbacks.pings().drop_first(),
        final(inner).outstanding_callbacks.qos1_waiting() == old(inner).outstanding_callbacks.qos1_waiting(),
        final(inner).outstanding_callbacks.qos2_receive_waiting()
            == old(inner).outstanding_callbacks.qos2_receive_waiting(),
        final(inner).outstanding_callbacks.qos2_complete_waiting()
            == old(inner).outstanding_callbacks.qos2_complete_waiting(),
{
    match inner.outstanding_callbacks.take_ping_req() {
        Some(sender) => {
            deliver(sender, ());
            true
        },
        None => false,
    }
}

/// The kinds of packet a server can send.
#[derive(Debug, PartialEq, Eq, Structural, Clone, Copy)]
pub enum PacketKind {
    Auth,
    Connack,
    Connect,
    Disconnect,
    Pingreq,
    Pingresp,
    Puback,
    Pubcomp,
    Publish,
    Pubrec,
    Pubrel,
    Suback,
    Subscribe,
    Unsuback,
    Unsubscribe,
}

/// A packet the client's receiving loop handles, as read from the server.
pub enum ReceivedPacket {
    Pingreq,
    Pingresp,
    Puback(PubackReason, PacketIdentifier),
    Pubrec(AckReason, PacketIdentifier),
    Pubcomp(AckReason, PacketIdentifier),
}

/// The packet can be handled in the state of `inner`: an acknowledgement
/// reports success, for a session (and, for a PUBREC, a connection), and
/// acknowledges an outstanding packet that someone waits for.
pub open spec fn can_handle(inner: InnerClient, received: ReceivedPacket) -> bool {
    match received {
        ReceivedPacket::Puback(reason, id) => {
            &&& reason != PubackReason::Error
            &&& session_wf(inner)
            &&& has_id(outstanding_of(inner), id@)
        },
        ReceivedPacket::Pubrec(reason, id) => {
            &&& reason == AckReason::Success
            &&& inner.connection_state is Some
            &&& session_wf(inner)
            &&& has_id(outstanding_of(inner), id@) ==> inner.outstanding_callbacks.qos2_receive_waiting().contains_key(
                id@,
            )
        },
        ReceivedPacket::Pubcomp(reason, id) => {
            &&& reason == AckReason::Success
            &&& session_wf(inner)
            &&& has_id(outstanding_of(inner), id@) ==> inner.outstanding_callbacks.qos2_complete_waiting().contains_key(
                id@,
            )
        },
        _ => true,
    }
}

/// One turn of the client's receiving loop: `on_packet_recv` is called with
/// `packet`, which was read as `received`; then a PINGREQ is ignored, a
/// PINGRESP answers the oldest ping, and a PUBACK, PUBREC or PUBCOMP is
/// handled as [`handle_puback`], [`handle_pubrec`] and [`handle_pubcomp`]
/// say. What comes back is the packet to send in reply: the PUBREL that a
/// PUBREC for an outstanding packet calls for, and nothing otherwise.
pub fn handle_received<P: Fn(MqttPacket), A: Fn(MqttPacket)>(
    inner: &mut InnerClient,
    on_packet_recv: &P,
    on_qos1_acknowledge: &A,
    received: ReceivedPacket,
    packet: MqttPacket,
) -> (res: Option<MqttPacket>)
    requires
        forall|p: MqttPacket| on_packet_recv.requires((p,)),
        forall|p: MqttPacket| on_qos1_acknowledge.requires((p,)),
        can_handle(*old(inner), received),
    ensures
        exists|p: MqttPacket| p@ == packet@ && call_ensures(*on_packet_recv, (p,), ()),
        final(inner).connection_state == old(inner).connection_state,
        match received {
            ReceivedPacket::Pingreq => res is None && *final(inner) == *old(inner),
            ReceivedPacket::Pingresp => {
                &&& res is None
                &&& final(inner).session_state == old(inner).session_state
                &&& final(inner).outstanding_callbacks.pings() == if old(inner).outstanding_callbacks.pings().len()
                    > 0 {
                    old(inner).outstanding_callbacks.pings().drop_first()
                } else {
                    old(inner).outstanding_callbacks.pings()
                }
                &&& final(inner).outstanding_callbacks.qos1_waiting()
                    == old(inner).outstanding_callbacks.qos1_waiting()
                &&& final(inner).outstanding_callbacks.qos2_receive_waiting()
                    == old(inner).outstanding_callbacks.qos2_receive_waiting()
                &&& final(inner).outstanding_callbacks.qos2_complete_waiting()
                    == old(inner).outstanding_callbacks.qos2_complete_waiting()
            },
            ReceivedPacket::Puback(_, id) => {
                &&& res is None
                &&& exists|p: MqttPacket| p@ == packet@ && call_ensures(*on_qos1_acknowledge, (p,), ())
                &&& session_wf(*final(inner))
                &&& only_outstanding_changed(*old(inner), *final(inner))
                &&& outstanding_of(*final(inner)) == without_id(outstanding_of(*old(inner)), id@)
                &&& final(inner).outstanding_callbacks.qos1_waiting()
                    == old(inner).outstanding_callbacks.qos1_waiting().remove(id@)
                &&& final(inner).outstanding_callbacks.qos2_receive_waiting()
                    == old(inner).outstanding_callbacks.qos2_receive_waiting()
                &&& final(inner).outstanding_callbacks.qos2_complete_waiting()
                    == old(inner).outstanding_callbacks.qos2_complete_waiting()
            },
            ReceivedPacket::Pubrec(_, id) => {
                &&& session_wf(*final(inner))
                &&& only_outstanding_changed(*old(inner), *final(inner))
                &&& final(inner).outstanding_callbacks.qos1_waiting()
                    == old(inner).outstanding_callbacks.qos1_waiting()
                &&& final(inner).outstanding_callbacks.qos2_complete_waiting()
                    == old(inner).outstanding_callbacks.qos2_complete_waiting()
                &&& if has_id(outstanding_of(*old(inner)), id@) {
                    &&& outstanding_of(*final(inner)) == outstanding_of(*old(inner)).map_values(
                        |e: (u16, Seq<u8>)| if e.0 == id@ { (e.0, pubrel_frame(id@)) } else { e },
                    )
                    &&& res matches Some(pubrel) && pubrel@ == pubrel_frame(id@)
                    &&& final(inner).outstanding_callbacks.qos2_receive_waiting()
                        == old(inner).outstanding_callbacks.qos2_receive_waiting().remove(id@)
                } else {
                    &&& outstanding_of(*final(inner)) == outstanding_of(*old(inner))
                    &&& res is None
                    &&& final(inner).outstanding_callbacks.qos2_receive_waiting()
                        == old(inner).outstanding_callbacks.qos2_receive_waiting()
                }
            },
            ReceivedPacket::Pubcomp(_, id) => {
                &&& res is None
                &&& session_wf(*final(inner))
                &&& only_outstanding_changed(*old(inner), *final(inner))
                &&& final(inner).outstanding_callbacks.qos1_waiting()
                    == old(inner).outstanding_callbacks.qos1_waiting()
                &&& final(inner).outstanding_callbacks.qos2_receive_waiting()
                    == old(inner).outstanding_callbacks.qos2_receive_waiting()
                &&& if has_id(outstanding_of(*old(inner)), id@) {
                    &&& outstanding_of(*final(inner)) == without_id(outstanding_of(*old(inner)), id@)
                    &&& final(inner).outstanding_callbacks.qos2_complete_waiting()
                        == old(inner).outstanding_callbacks.qos2_complete_waiting().remove(id@)
                } else {
                    &&& outstanding_of(*final(inner)) == outstanding_of(*old(inner))
                    &&& final(inner).outstanding_callbacks.qos2_complete_waiting()
                        == old(inner).outstanding_callbacks.qos2_complete_waiting()
                }
            },
        },
{
    let copy = MqttPacket::from_frame(copy_bytes(packet.frame()));
    let ghost handed = copy;
    on_packet_recv(copy);
    assert(handed@ == packet@ && call_ensures(*on_packet_recv, (handed,), ()));
    match received {
        ReceivedPacket::Pingreq => None,
        ReceivedPacket::Pingresp => {
            let _ = handle_pingresp(inner);
            None
        },
        ReceivedPacket::Puback(reason, id) => {
            handle_puback(inner, on_qos1_acknowledge, reason, id, packet);
            None
        },
        ReceivedPacket::Pubrec(reason, id) => handle_pubrec(inner, reason, id, packet),
        ReceivedPacket::Pubcomp(reason, id) => {
            handle_pubcomp(inner, reason, id, packet);
            None
        },
    }
}

/// What the client does with a received packet.
#[derive(Debug, PartialEq, Eq, Structural, Clone, Copy)]
pub enum ReceivedAction {
    /// Ignore it (a PINGREQ from the server).
    Ignore,
    /// Complete the oldest PINGREQ.
    CompletePing,
    /// Handle the PUBACK.
    Puback,
    /// Handle the PUBREC.
    Pubrec,
    /// Handle the PUBCOMP.
    Pubcomp,
}

/// What the client does with a received packet of kind `kind`; `None` for
/// the packets it does not handle.
pub fn received_action(kind: PacketKind) -> (res: Option<ReceivedAction>)
    ensures
        res == match kind {
            PacketKind::Pingreq => Some(ReceivedAction::Ignore),
            PacketKind::Pingresp => Some(ReceivedAction::CompletePing),
            PacketKind::Puback => Some(ReceivedAction::Puback),
            PacketKind::Pubrec => Some(ReceivedAction::Pubrec),
            PacketKind::Pubcomp => Some(ReceivedAction::Pubcomp),
            _ => None::<ReceivedAction>,
        },
{
    match kind {
        PacketKind::Pingreq => Some(ReceivedAction::Ignore),
        PacketKind::Pingresp => Some(ReceivedAction::CompletePing),
        PacketKind::Puback => Some(ReceivedAction::Puback),
        PacketKind::Pubrec => Some(ReceivedAction::Pubrec),
        PacketKind::Pubcomp => Some(ReceivedAction::Pubcomp),
        _ => None,
    }
}

/// Waits for the acknowledgement of a publish of level 1.
pub struct Qos1Callbacks {
    pub on_acknowledge: Sender<MqttPacket>,
}

/// Waits for the PUBREC of a publish of level 2.
pub struct Qos2ReceiveCallback {
    pub on_receive: Sender<MqttPacket>,
}

/// Waits for the PUBCOMP of a publish of level 2.
pub struct Qos2CompleteCallback {
    pub on_complete: Sender<MqttPacket>,
}

/// Who waits for what: the pings sent, oldest first, and the publications
/// awaiting an acknowledgement, by packet identifier.
pub struct Callbacks {
    ping_req: VecDeque<Sender<()>>,
    qos1: HashMap<u16, Qos1Callbacks>,
    qos2_receive: HashMap<u16, Qos2ReceiveCallback>,
    qos2_complete: HashMap<u16, Qos2CompleteCallback>,
}

impl Callbacks {
    /// The pings waiting for a PINGRESP, oldest first.
    pub closed spec fn pings(&self) -> Seq<Sender<()>> {
        self.ping_req@
    }

    /// Who waits for the acknowledgement of each publish of level 1.
    pub closed spec fn qos1_waiting(&self) -> Map<u16, Qos1Callbacks> {
        self.qos1@
    }

    /// Who waits for the PUBREC of each publish of level 2.
    pub closed spec fn qos2_receive_waiting(&self) -> Map<u16, Qos2ReceiveCallback> {
        self.qos2_receive@
    }

    /// Who waits for the PUBCOMP of each publish of level 2.
    pub closed spec fn qos2_complete_waiting(&self) -> Map<u16, Qos2CompleteCallback> {
        self.qos2_complete@
    }

    /// Nobody waits for anything.
    pub fn new() -> (res: Callbacks)
        ensures
            res.pings().len() == 0,
            res.qos1_waiting().is_empty(),
            res.qos2_receive_waiting().is_empty(),
            res.qos2_complete_waiting().is_empty(),
    {
        Callbacks {
            ping_req: VecDeque::new(),
            qos1: HashMap::new(),
            qos2_receive: HashMap::new(),
            qos2_complete: HashMap::new(),
        }
    }

    /// Someone waits for the answer to the ping just sent.
    pub fn add_ping_req(&mut self, cb: Sender<()>)
        ensures
            final(self).pings() == old(self).pings().push(cb),
            final(self).qos1_waiting() == old(self).qos1_waiting(),
            final(self).qos2_receive_waiting() == old(self).qos2_receive_waiting(),
            final(self).qos2_complete_waiting() == old(self).qos2_complete_waiting(),
    {
        self.ping_req.push_back(cb);
    }

    /// Someone waits for the acknowledgement of `id`.
    pub fn add_qos1(&mut self, id: PacketIdentifier, cb: Qos1Callbacks)
        ensures
            final(self).qos1_waiting() == old(self).qos1_waiting().insert(id@, cb),
            final(self).pings() == old(self).pings(),
            final(self).qos2_receive_waiting() == old(self).qos2_receive_waiting(),
            final(self).qos2_complete_waiting() == old(self).qos2_complete_waiting(),
    {
        self.qos1.insert(id.get(), cb);
    }

    /// Someone waits for the PUBREC and the PUBCOMP of `id`.
    pub fn add_qos2(&mut self, id: PacketIdentifier, rec: Qos2ReceiveCallback, comp: Qos2CompleteCallback)
        ensures
            final(self).qos2_receive_waiting() == old(self).qos2_receive_waiting().insert(id@, rec),
            final(self).qos2_complete_waiting() == old(self).qos2_complete_waiting().insert(id@, comp),
            final(self).pings() == old(self).pings(),
            final(self).qos1_waiting() == old(self).qos1_waiting(),
    {
        let key = id.get();
        self.qos2_receive.insert(key, rec);
        self.qos2_complete.insert(key, comp);
    }

    /// The oldest ping still waiting for its answer, taken out.
    pub fn take_ping_req(&mut self) -> (res: Option<Sender<()>>)
        ensures
            old(self).pings().len() == 0 ==> res is None && final(self).pings() == old(self).pings(),
            old(self).pings().len() > 0 ==> res == Some(old(self).pings()[0]) && final(self).pings()
                == old(self).pings().drop_first(),
            final(self).qos1_waiting() == old(self).qos1_waiting(),
            final(self).qos2_receive_waiting() == old(self).qos2_receive_waiting(),
            final(self).qos2_complete_waiting() == old(self).qos2_complete_waiting(),
    {
        self.ping_req.pop_front()
    }

    /// Who waits for the acknowledgement of `id`, taken out.
    pub fn take_qos1(&mut self, id: PacketIdentifier) -> (res: Option<Qos1Callbacks>)
        ensures
            old(self).qos1_waiting().contains_key(id@) ==> res == Some(old(self).qos1_waiting()[id@]),
            !old(self).qos1_waiting().contains_key(id@) ==> res is None,
            final(self).qos1_waiting() == old(self).qos1_waiting().remove(id@),
            final(self).pings() == old(self).pings(),
            final(self).qos2_receive_waiting() == old(self).qos2_receive_waiting(),
            final(self).qos2_complete_waiting() == old(self).qos2_complete_waiting(),
    {
        let key = id.get();
        self.qos1.remove(&key)
    }

    /// Who waits for the PUBREC of `id`, taken out.
    pub fn take_qos2_receive(&mut self, id: PacketIdentifier) -> (res: Option<Qos2ReceiveCallback>)
        ensures
            old(self).qos2_receive_waiting().contains_key(id@) ==> res == Some(
                old(self).qos2_receive_waiting()[id@],
            ),
            !old(self).qos2_receive_waiting().contains_key(id@) ==> res is None,
            final(self).qos2_receive_waiting() == old(self).qos2_receive_waiting().remove(id@),
            final(self).pings() == old(self).pings(),
            final(self).qos1_waiting() == old(self).qos1_waiting(),
            final(self).qos2_complete_waiting() == old(self).qos2_complete_waiting(),
    {
        let key = id.get();
        self.qos2_receive.remove(&key)
    }

    /// Who waits for the PUBCOMP of `id`, taken out.
    pub fn take_qos2_complete(&mut self, id: PacketIdentifier) -> (res: Option<Qos2CompleteCallback>)
        ensures
            old(self).qos2_complete_waiting().contains_key(id@) ==> res == Some(
                old(self).qos2_complete_waiting()[id@],
            ),
            !old(self).qos2_complete_waiting().contains_key(id@) ==> res is None,
            final(self).qos2_complete_waiting() == old(self).qos2_complete_waiting().remove(id@),
            final(self).pings() == old(self).pings(),
            final(self).qos1_waiting() == old(self).qos1_waiting(),
            final(self).qos2_receive_waiting() == old(self).qos2_receive_waiting(),
    {
        let key = id.get();
        self.qos2_complete.remove(&key)
    }
}

/// A publish of level 1 recorded under a fresh identifier and then
/// acknowledged leaves the outstanding packets as they were, in their send
/// order, and hands back who was waiting for it, who then waits no more.
pub proof fn lemma_publish_then_puback(
    entries: Seq<(u16, Seq<u8>)>,
    id: u16,
    frame: Seq<u8>,
    waiting: Map<u16, Qos1Callbacks>,
    cb: Qos1Callbacks,
)
    requires
        !has_id(entries, id),
        !waiting.contains_key(id),
    ensures
        without_id(entries.push((id, frame)), id) == entries,
        waiting.insert(id, cb).contains_key(id),
        waiting.insert(id, cb)[id] == cb,
        waiting.insert(id, cb).remove(id) == waiting,
{
    super::state::lemma_send_then_acknowledge(entries, id, frame);
    assert(waiting.insert(id, cb).remove(id) =~= waiting);
}

/// What is registered for an acknowledgement is what taking it gives back,
/// and it is then no longer registered.
pub proof fn lemma_register_then_take<V>(waiting: Map<u16, V>, id: u16, cb: V)
    ensures
        waiting.insert(id, cb).contains_key(id),
        waiting.insert(id, cb)[id] == cb,
        !waiting.insert(id, cb).remove(id).contains_key(id),
{
}

} // verus!
