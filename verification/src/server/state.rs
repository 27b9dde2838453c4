//! The delivery state the server keeps for one client.
//!
//! Nothing a client must still acknowledge gets lost: a message of level 1
//! or 2 is stored under a fresh packet identifier before it goes out. A
//! PUBACK (level 1) or a PUBCOMP after a PUBREC (level 2) removes it again,
//! and on a new connection every stored message that was sent but not yet
//! acknowledged goes out once more.

use dashmap::DashMap;

use vstd::prelude::*;

use super::message::{MessageView, MqttMessage};
use crate::qos::QualityOfService;
use crate::util::lemma_u16_range_count;

verus! {

#[verifier::external_type_specification]
#[verifier::external_body]
#[verifier::reject_recursive_types(K)]
#[verifier::reject_recursive_types(V)]
#[verifier::reject_recursive_types(S)]
pub struct ExDashMap<K, V, S>(DashMap<K, V, S>);

/// A message stored until the client has acknowledged it.
#[derive(Debug, Clone)]
pub enum StoredMessage {
    /// A message of level 1 or 2 that went out and may have to go out again.
    Sent(MqttMessage),
    /// A message of level 2 whose reception the client confirmed (PUBREC),
    /// waiting for the PUBCOMP.
    Acknowledged,
}

impl View for StoredMessage {
    type V = Option<MessageView>;

    open spec fn view(&self) -> Option<MessageView> {
        match self {
            StoredMessage::Sent(m) => Some(m@),
            StoredMessage::Acknowledged => None,
        }
    }
}

/// What a table of stored messages holds: for each packet identifier, the
/// message sent under it (`Some`), or `None` once the client confirmed its
/// reception.
pub uninterp spec fn stored_table(m: DashMap<u16, StoredMessage>) -> Map<u16, Option<MessageView>>;

/// `DashMap::new`: an empty table.
#[verifier::external_body]
fn table_new() -> (res: DashMap<u16, StoredMessage>)
    ensures
        stored_table(res).is_empty(),
{
    DashMap::new()
}

/// `DashMap::len`: the number of entries.
#[verifier::external_body]
fn table_len(m: &DashMap<u16, StoredMessage>) -> (res: usize)
    ensures
        res == stored_table(*m).dom().len(),
{
    m.len()
}

/// `DashMap::contains_key`.
#[verifier::external_body]
fn table_contains(m: &DashMap<u16, StoredMessage>, id: u16) -> (res: bool)
    ensures
        res == stored_table(*m).contains_key(id),
{
    m.contains_key(&id)
}

/// `DashMap::get`: a copy of the entry stored under `id`.
#[verifier::external_body]
fn table_get(m: &DashMap<u16, StoredMessage>, id: u16) -> (res: Option<StoredMessage>)
    ensures
        match res {
            Some(s) => stored_table(*m).contains_key(id) && stored_table(*m)[id] == s@,
            None => !stored_table(*m).contains_key(id),
        },
{
    match m.get(&id) {
        Some(entry) => Some(entry.value().clone()),
        None => None,
    }
}

/// `DashMap::insert`: stores `value` under `id`, replacing what was there.
#[verifier::external_body]
fn table_insert(m: &mut DashMap<u16, StoredMessage>, id: u16, value: StoredMessage)
    ensures
        stored_table(*final(m)) == stored_table(*old(m)).insert(id, value@),
{
    let _ = m.insert(id, value);
}

/// `DashMap::remove`: drops the entry stored under `id`, if any.
#[verifier::external_body]
fn table_remove(m: &mut DashMap<u16, StoredMessage>, id: u16)
    ensures
        stored_table(*final(m)) == stored_table(*old(m)).remove(id),
{
    let _ = m.remove(&id);
}

/// A PUBLISH the server is to send to a client: the message, and the packet
/// identifier it is stored under when it must be acknowledged.
#[derive(Debug)]
pub struct OutgoingPublish {
    pub message: MqttMessage,
    pub id: Option<u16>,
}

/// The server-side state of one client: the identifier to try next and the
/// messages waiting for an acknowledgement.
pub struct ClientState {
    current_id: u16,
    stored_messages: DashMap<u16, StoredMessage>,
    awaiting_release: Vec<u16>,
}

/// The identifier reached after `steps` steps of a 16-bit counter starting at `start`.
pub open spec fn counter_value(start: u16, steps: int) -> u16 {
    ((start + steps) % 65536) as u16
}

/// `id` is the first identifier, counting up from `start` (wrapping past
/// 65535 and skipping 0), that is not in `taken`.
pub open spec fn first_free_from(taken: Set<u16>, start: u16, id: u16) -> bool {
    exists|steps: int|
        0 <= steps < 65537 && counter_value(start, steps) == id && id != 0 && !taken.contains(id)
            && forall|k: int|
            0 <= k < steps ==> (#[trigger] counter_value(start, k) == 0 || taken.contains(
                counter_value(start, k),
            ))
}

/// Under `id` the table holds a sent message of delivery level `level`.
pub open spec fn sent_with_level(table: Map<u16, Option<MessageView>>, id: u16, level: u8) -> bool {
    &&& table.contains_key(id)
    &&& match table[id] {
        Some(m) => m.4 == level,
        None => false,
    }
}

/// A finite set of identifiers that leaves out 0 has at most 65535 members,
/// and exactly 65535 when it holds every other one.
proof fn lemma_nonzero_count(taken: Set<u16>)
    requires
        taken.finite(),
        !taken.contains(0),
    ensures
        taken.len() <= 65535,
        (forall|x: u16| x != 0 ==> taken.contains(x)) ==> taken.len() == 65535,
{
    lemma_u16_range_count(taken, 1);
}

impl ClientState {
    /// The table is finite and files nothing under identifier 0.
    pub closed spec fn wf(&self) -> bool {
        &&& stored_table(self.stored_messages).dom().finite()
        &&& !stored_table(self.stored_messages).contains_key(0)
        &&& self.awaiting_release@.no_duplicates()
    }

    /// The identifiers of the level-2 messages received from the client
    /// whose PUBREL is still awaited.
    pub closed spec fn awaiting_release(&self) -> Set<u16> {
        self.awaiting_release@.to_set()
    }

    /// The stored messages, by packet identifier.
    pub closed spec fn table(&self) -> Map<u16, Option<MessageView>> {
        stored_table(self.stored_messages)
    }

    /// The value of the identifier counter.
    pub closed spec fn counter(&self) -> u16 {
        self.current_id
    }

    /// How many messages are stored.
    pub fn stored_count(&self) -> (res: usize)
        ensures
            res == self.table().dom().len(),
    {
        table_len(&self.stored_messages)
    }

    /// A client with nothing stored, counting identifiers from 0.
    pub fn new() -> (res: ClientState)
        ensures
            res.wf(),
            res.table() == Map::<u16, Option<MessageView>>::empty(),
            res.counter() == 0,
            res.awaiting_release() == Set::<u16>::empty(),
    {
        let res = ClientState { current_id: 0, stored_messages: table_new(), awaiting_release: Vec::new() };
        assert(res.awaiting_release() =~= Set::<u16>::empty());
        res
    }

    /// Picks the identifier for the next stored message: counting up from
    /// the counter (wrapping past 65535 and skipping 0), the first identifier
    /// under which nothing is stored; the counter then stands right after it.
    /// With 65535 messages stored there is none, and nothing changes.
    pub fn get_next_packet_entry(&mut self) -> (res: Option<u16>)
        requires
            old(self).wf(),
        ensures
            final(self).wf(),
            final(self).awaiting_release() == old(self).awaiting_release(),
            final(self).table() == old(self).table(),
            match res {
                Some(id) => {
                    &&& first_free_from(old(self).table().dom(), old(self).counter(), id)
                    &&& final(self).counter() == counter_value(id, 1)
                },
                None => {
                    &&& old(self).table().dom().len() == 65535
                    &&& final(self).counter() == old(self).counter()
                },
            },
    {
        if table_len(&self.stored_messages) == 65535 {
            return None;
        }
        let ghost start = self.current_id;
        let ghost table = stored_table(self.stored_messages);
        let ghost taken = table.dom();
        let ghost mut steps: int = 0;
        proof {
            lemma_nonzero_count(taken);
        }
        loop
            invariant
                self.wf(),
                stored_table(self.stored_messages) == table,
                table == old(self).table(),
                start == old(self).counter(),
                self.awaiting_release@ == old(self).awaiting_release@,
                taken == table.dom(),
                taken.finite(),
                !taken.contains(0),
                taken.len() != 65535,
                0 <= steps <= 65536,
                self.current_id == counter_value(start, steps),
                forall|k: int|
                    0 <= k < steps ==> (#[trigger] counter_value(start, k) == 0 || taken.contains(
                        counter_value(start, k),
                    )),
            decreases 65536 - steps,
        {
            proof {
                if steps == 65536 {
                    assert forall|x: u16| x != 0 implies taken.contains(x) by {
                        let k = ((x - start) % 65536) as int;
                        assert(counter_value(start, k) == x);
                    }
                    lemma_nonzero_count(taken);
                    assert(false);
                }
            }
            let next = self.current_id;
            self.current_id = self.current_id.wrapping_add(1);
            if next != 0 && !table_contains(&self.stored_messages, next) {
                proof {
                    assert(counter_value(start, steps) == next);
                    assert(counter_value(next, 1) == self.current_id);
                }
                return Some(next);
            }
            proof {
                steps = steps + 1;
            }
        }
    }

    /// Takes a message to deliver to this client. An identifier is picked
    /// first (see [`ClientState::get_next_packet_entry`]); a message of level
    /// 1 or 2 is then stored under it and goes out with it, one of level 0
    /// goes out without one and is not stored.
    pub fn send_message(&mut self, msg: MqttMessage) -> (res: OutgoingPublish)
        requires
            old(self).wf(),
            old(self).table().dom().len() != 65535,
        ensures
            final(self).wf(),
            final(self).awaiting_release() == old(self).awaiting_release(),
            res.message@ == msg@,
            exists|id: u16|
                {
                    &&& first_free_from(old(self).table().dom(), old(self).counter(), id)
                    &&& final(self).counter() == counter_value(id, 1)
                    &&& if msg@.4 == 0 {
                        &&& res.id is None
                        &&& final(self).table() == old(self).table()
                    } else {
                        &&& res.id == Some(id)
                        &&& final(self).table() == old(self).table().insert(id, Some(msg@))
                    }
                },
    {
        let id = match self.get_next_packet_entry() {
            Some(id) => id,
            None => {
                proof {
                    assert(false);
                }
                0
            },
        };
        match msg.qos() {
            QualityOfService::AtMostOnce => OutgoingPublish { message: msg, id: None },
            QualityOfService::AtLeastOnce | QualityOfService::ExactlyOnce => {
                table_insert(&mut self.stored_messages, id, StoredMessage::Sent(msg.duplicate()));
                OutgoingPublish { message: msg, id: Some(id) }
            },
        }
    }

    /// A PUBACK for `id` came in. It completes a stored, sent message of
    /// level 1, which is dropped; for anything else it is an error and
    /// nothing changes.
    pub fn receive_puback(&mut self, id: u16) -> (res: Result<(), ()>)
        requires
            old(self).wf(),
        ensures
            final(self).wf(),
            final(self).awaiting_release() == old(self).awaiting_release(),
            final(self).counter() == old(self).counter(),
            res is Ok <==> sent_with_level(old(self).table(), id, 1),
            res is Ok ==> final(self).table() == old(self).table().remove(id),
            res is Err ==> final(self).table() == old(self).table(),
    {
        match table_get(&self.stored_messages, id) {
            Some(StoredMessage::Sent(msg)) => {
                if !matches!(msg.qos(), QualityOfService::AtLeastOnce) {
                    return Err(());
                }
            },
            Some(StoredMessage::Acknowledged) => {
                return Err(());
            },
            None => {
                return Err(());
            },
        }
        table_remove(&mut self.stored_messages, id);
        Ok(())
    }

    /// A PUBREC for `id` came in. It confirms the reception of a stored,
    /// sent message of level 2, which is replaced by the mark that its
    /// PUBCOMP is awaited; for anything else it is an error and nothing
    /// changes.
    pub fn receive_pubrec(&mut self, id: u16) -> (res: Result<(), ()>)
        requires
            old(self).wf(),
        ensures
            final(self).wf(),
            final(self).awaiting_release() == old(self).awaiting_release(),
            final(self).counter() == old(self).counter(),
            res is Ok <==> sent_with_level(old(self).table(), id, 2),
            res is Ok ==> final(self).table() == old(self).table().insert(id, None),
            res is Err ==> final(self).table() == old(self).table(),
    {
        match table_get(&self.stored_messages, id) {
            Some(StoredMessage::Sent(msg)) => {
                if !matches!(msg.qos(), QualityOfService::ExactlyOnce) {
                    return Err(());
                }
            },
            Some(StoredMessage::Acknowledged) => {
                return Err(());
            },
            None => {
                return Err(());
            },
        }
        table_insert(&mut self.stored_messages, id, StoredMessage::Acknowledged);
        Ok(())
    }

    /// A PUBCOMP for `id` came in. It completes a message of level 2 whose
    /// reception was confirmed, which is dropped; for anything else it is an
    /// error and nothing changes.
    pub fn receive_pubcomp(&mut self, id: u16) -> (res: Result<(), ()>)
        requires
            old(self).wf(),
        ensures
            final(self).wf(),
            final(self).awaiting_release() == old(self).awaiting_release(),
            final(self).counter() == old(self).counter(),
            res is Ok <==> (old(self).table().contains_key(id) && old(self).table()[id] is None),
            res is Ok ==> final(self).table() == old(self).table().remove(id),
            res is Err ==> final(self).table() == old(self).table(),
    {
        match table_get(&self.stored_messages, id) {
            Some(StoredMessage::Sent(_)) => {
                return Err(());
            },
            Some(StoredMessage::Acknowledged) => {},
            None => {
                return Err(());
            },
        }
        table_remove(&mut self.stored_messages, id);
        Ok(())
    }

    /// A PUBLISH of level 2 with identifier `id` came in from the client:
    /// the identifier is kept until the client releases it. An identifier
    /// that is already kept is an error, and nothing changes.
    pub fn save_qos_exactly_once(&mut self, id: u16) -> (res: Result<(), ()>)
        requires
            old(self).wf(),
        ensures
            final(self).wf(),
            final(self).table() == old(self).table(),
            final(self).counter() == old(self).counter(),
            res is Ok <==> !old(self).awaiting_release().contains(id),
            res is Ok ==> final(self).awaiting_release() == old(self).awaiting_release().insert(id),
            res is Err ==> final(self).awaiting_release() == old(self).awaiting_release(),
    {
        if self.awaiting_release_position(id).is_some() {
            return Err(());
        }
        let ghost before = self.awaiting_release@;
        self.awaiting_release.push(id);
        proof {
            assert(self.awaiting_release@ == before.push(id));
            assert(self.awaiting_release@.to_set() =~= before.to_set().insert(id)) by {
                assert forall|x: u16| self.awaiting_release@.to_set().contains(x) <==> before.to_set().insert(
                    id,
                ).contains(x) by {
                    if x != id && self.awaiting_release@.contains(x) {
                        let j = choose|j: int| 0 <= j < self.awaiting_release@.len() && self.awaiting_release@[j] == x;
                        assert(before[j] == x);
                    }
                    if before.contains(x) {
                        let j = choose|j: int| 0 <= j < before.len() && before[j] == x;
                        assert(self.awaiting_release@[j] == x);
                    }
                    assert(self.awaiting_release@[before.len() as int] == id);
                }
            }
        }
        Ok(())
    }

    /// A PUBREL for `id` came in from the client: the kept identifier is
    /// released. An identifier that is not kept is an error, and nothing
    /// changes.
    pub fn receive_pubrel(&mut self, id: u16) -> (res: Result<(), ()>)
        requires
            old(self).wf(),
        ensures
            final(self).wf(),
            final(self).table() == old(self).table(),
            final(self).counter() == old(self).counter(),
            res is Ok <==> old(self).awaiting_release().contains(id),
            res is Ok ==> final(self).awaiting_release() == old(self).awaiting_release().remove(id),
            res is Err ==> final(self).awaiting_release() == old(self).awaiting_release(),
    {
        match self.awaiting_release_position(id) {
            None => Err(()),
            Some(i) => {
                let ghost before = self.awaiting_release@;
                self.awaiting_release.remove(i);
                proof {
                    let after = self.awaiting_release@;
                    assert(after == before.remove(i as int));
                    assert forall|a: int, b: int| 0 <= a < b < after.len() implies after[a] != after[b] by {
                        let a2 = if a < i { a } else { a + 1 };
                        let b2 = if b < i { b } else { b + 1 };
                        assert(after[a] == before[a2] && after[b] == before[b2]);
                    }
                    assert(after.to_set() =~= before.to_set().remove(id)) by {
                        assert forall|x: u16| after.to_set().contains(x) <==> before.to_set().remove(id).contains(x) by {
                            if after.contains(x) {
                                let j = choose|j: int| 0 <= j < after.len() && after[j] == x;
                                let j2 = if j < i { j } else { j + 1 };
                                assert(before[j2] == x);
                                assert(j2 != i);
                            }
                            if before.contains(x) && x != id {
                                let j = choose|j: int| 0 <= j < before.len() && before[j] == x;
                                assert(j != i);
                                if j < i {
                                    assert(after[j] == x);
                                } else {
                                    assert(after[j - 1] == x);
                                }
                            }
                        }
                    }
                }
                Ok(())
            },
        }
    }

    /// Where `id` stands among the kept identifiers.
    fn awaiting_release_position(&self, id: u16) -> (res: Option<usize>)
        ensures
            match res {
                Some(i) => i < self.awaiting_release@.len() && self.awaiting_release@[i as int] == id,
                None => !self.awaiting_release@.contains(id),
            },
            res is None <==> !self.awaiting_release().contains(id),
    {
        let mut i: usize = 0;
        while i < self.awaiting_release.len()
            invariant
                i <= self.awaiting_release@.len(),
                forall|j: int| 0 <= j < i ==> self.awaiting_release@[j] != id,
            decreases self.awaiting_release@.len() - i,
        {
            if self.awaiting_release[i] == id {
                return Some(i);
            }
            i = i + 1;
        }
        None
    }

    /// The messages to send again over a new connection: every stored
    /// message that was sent and not yet acknowledged, each once with its
    /// identifier, in identifier order starting at the counter and wrapping
    /// past 65535 ([`resend_order`]).
    pub fn messages_to_resend(&self) -> (res: Vec<(u16, MqttMessage)>)
        requires
            self.wf(),
        ensures
            resend_view(res@) == resend_order(self.table(), self.counter(), 65536),
    {
        let start = self.current_id;
        let ghost table = self.table();
        let mut res: Vec<(u16, MqttMessage)> = Vec::new();
        let mut steps: u32 = 0;
        while steps < 65536
            invariant
                steps <= 65536,
                start == self.counter(),
                table == self.table(),
                table == stored_table(self.stored_messages),
                resend_view(res@) == resend_order(table, start, steps as int),
            decreases 65536 - steps,
        {
            let key: u16 = if (start as u32) + steps < 65536 {
                ((start as u32) + steps) as u16
            } else {
                ((start as u32) + steps - 65536) as u16
            };
            assert(key == counter_value(start, steps as int));
            let ghost before = res@;
            match table_get(&self.stored_messages, key) {
                Some(StoredMessage::Sent(msg)) => {
                    let ghost entry = (key, msg@);
                    res.push((key, msg));
                    assert(resend_view(res@) =~= resend_view(before).push(entry));
                },
                _ => {},
            }
            steps = steps + 1;
        }
        res
    }
}

/// The messages that go out again over a new connection, as views: those of
/// `resend_order`'s identifiers, with their messages.
pub open spec fn resend_view(res: Seq<(u16, MqttMessage)>) -> Seq<(u16, MessageView)> {
    res.map_values(|e: (u16, MqttMessage)| (e.0, e.1@))
}

/// The sent and unacknowledged messages of `table` met in the first `n`
/// steps counting up from `start` (wrapping past 65535), in that order.
pub open spec fn resend_order(table: Map<u16, Option<MessageView>>, start: u16, n: int) -> Seq<(u16, MessageView)>
    decreases n,
{
    if n <= 0 {
        Seq::empty()
    } else {
        let before = resend_order(table, start, n - 1);
        let key = counter_value(start, n - 1);
        if table.contains_key(key) && table[key] is Some {
            before.push((key, table[key].unwrap()))
        } else {
            before
        }
    }
}

/// A message the table holds as sent under the identifier reached at a step
/// among the first `n` is listed by `resend_order` within those steps.
proof fn lemma_resend_order_holds(table: Map<u16, Option<MessageView>>, start: u16, n: int, s: int)
    requires
        0 <= s < n,
        table.contains_key(counter_value(start, s)),
        table[counter_value(start, s)] is Some,
    ensures
        resend_order(table, start, n).contains((counter_value(start, s), table[counter_value(start, s)].unwrap())),
    decreases n,
{
    let key = counter_value(start, s);
    let entry = (key, table[key].unwrap());
    if s == n - 1 {
        let r = resend_order(table, start, n);
        assert(r[r.len() - 1] == entry);
    } else {
        lemma_resend_order_holds(table, start, n - 1, s);
        let before = resend_order(table, start, n - 1);
        let i = choose|i: int| 0 <= i < before.len() && before[i] == entry;
        let r = resend_order(table, start, n);
        assert(r[i] == entry);
    }
}

/// An identifier handed out for a stored message is never 0 and never one
/// that is still in use.
pub proof fn lemma_fresh_identifier(taken: Set<u16>, start: u16, id: u16)
    requires
        first_free_from(taken, start, id),
    ensures
        id != 0,
        !taken.contains(id),
{
}

/// A message of level 1 stored under a fresh identifier is completed by the
/// PUBACK for that identifier, which leaves the table as it was before.
pub proof fn lemma_puback_completes_qos1(before: Map<u16, Option<MessageView>>, id: u16, msg: MessageView)
    requires
        !before.contains_key(id),
        msg.4 == 1,
    ensures
        sent_with_level(before.insert(id, Some(msg)), id, 1),
        before.insert(id, Some(msg)).remove(id) == before,
{
    assert(before.insert(id, Some(msg)).remove(id) =~= before);
}

/// A message of level 2 stored under a fresh identifier goes through PUBREC
/// and then PUBCOMP for that identifier, after which the table is as it was
/// before; a PUBACK would have been refused.
pub proof fn lemma_pubrec_pubcomp_complete_qos2(
    before: Map<u16, Option<MessageView>>,
    id: u16,
    msg: MessageView,
)
    requires
        !before.contains_key(id),
        msg.4 == 2,
    ensures
        !sent_with_level(before.insert(id, Some(msg)), id, 1),
        sent_with_level(before.insert(id, Some(msg)), id, 2),
        before.insert(id, Some(msg)).insert(id, None).contains_key(id),
        before.insert(id, Some(msg)).insert(id, None)[id] is None,
        before.insert(id, Some(msg)).insert(id, None).remove(id) == before,
{
    assert(before.insert(id, Some(msg)).insert(id, None).remove(id) =~= before);
}

/// No data loss: a message stored as sent and not yet acknowledged is among
/// those sent again over a new connection, whatever the counter stands at.
pub proof fn lemma_stored_message_is_resent(table: Map<u16, Option<MessageView>>, start: u16, id: u16)
    requires
        table.contains_key(id),
        table[id] is Some,
    ensures
        resend_order(table, start, 65536).contains((id, table[id].unwrap())),
{
    let s: int = if id >= start { id - start } else { id + 65536 - start };
    assert(counter_value(start, s) == id);
    lemma_resend_order_holds(table, start, 65536, s);
}

} // verus!
