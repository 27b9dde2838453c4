use std::collections::BTreeMap;

use vstd::prelude::*;

use crate::keep_alive::KeepAlive;
use crate::packet_identifier::PacketIdentifier;
use crate::packets::MqttPacket;
use crate::qos::QualityOfService;
use crate::string::MqttString;

verus! {

broadcast use {vstd::laws_cmp::group_laws_cmp, vstd::std_specs::btree::group_btree_axioms};

/// True when `id` is the identifier of one of the entries of `entries`.
pub open spec fn has_id(entries: Seq<(u16, Seq<u8>)>, id: u16) -> bool {
    exists|i: int| 0 <= i < entries.len() && (#[trigger] entries[i]).0 == id
}

/// Whether an entry has an identifier other than `id`.
pub open spec fn other_id(id: u16) -> spec_fn((u16, Seq<u8>)) -> bool {
    |e: (u16, Seq<u8>)| e.0 != id
}

/// The entries of `entries` other than those with identifier `id`, in order.
pub open spec fn without_id(entries: Seq<(u16, Seq<u8>)>, id: u16) -> Seq<(u16, Seq<u8>)> {
    entries.filter(other_id(id))
}

/// True when no identifier occurs twice in `entries`.
pub open spec fn distinct_ids(entries: Seq<(u16, Seq<u8>)>) -> bool {
    forall|i: int, j: int|
        0 <= i < j < entries.len() ==> (#[trigger] entries[i]).0 != (#[trigger] entries[j]).0
}

/// Packets that were sent with an identifier and are not yet acknowledged,
/// remembered in the order in which they were sent.
///
/// Its model is the sequence of `(identifier, frame)` pairs in send order.
pub struct OutstandingPackets {
    packet_ident_order: Vec<PacketIdentifier>,
    outstanding_packets: BTreeMap<u16, MqttPacket>,
}

impl View for OutstandingPackets {
    type V = Seq<(u16, Seq<u8>)>;

    closed spec fn view(&self) -> Seq<(u16, Seq<u8>)> {
        self.packet_ident_order@.map_values(
            |id: PacketIdentifier| (id@, self.outstanding_packets@[id@]@),
        )
    }
}

impl OutstandingPackets {
    /// The internal consistency of the record: the send order names every stored
    /// packet exactly once, and only stored packets.
    pub closed spec fn wf(self) -> bool {
        &&& forall|i: int, j: int|
            0 <= i < j < self.packet_ident_order@.len() ==> (#[trigger] self.packet_ident_order@[i])@
                != (#[trigger] self.packet_ident_order@[j])@
        &&& forall|i: int|
            0 <= i < self.packet_ident_order@.len() ==> self.outstanding_packets@.contains_key(
                (#[trigger] self.packet_ident_order@[i])@,
            )
        &&& forall|i: int|
            0 <= i < self.packet_ident_order@.len() ==> (#[trigger] self.packet_ident_order@[i])@
                != 0
        &&& forall|k: u16|
            #[trigger] self.outstanding_packets@.contains_key(k) ==> exists|i: int|
                0 <= i < self.packet_ident_order@.len() && (#[trigger] self.packet_ident_order@[i])@
                    == k
    }

    /// A well-formed record has no identifier twice, and no zero identifier.
    pub proof fn lemma_wf_entries(self)
        requires
            self.wf(),
        ensures
            distinct_ids(self@),
            forall|i: int| 0 <= i < self@.len() ==> (#[trigger] self@[i]).0 != 0,
    {
    }

    /// The record without any packet.
    pub fn empty() -> (res: OutstandingPackets)
        ensures
            res.wf(),
            res@ == Seq::<(u16, Seq<u8>)>::empty(),
    {
        let res = OutstandingPackets {
            packet_ident_order: Vec::new(),
            outstanding_packets: BTreeMap::new(),
        };
        assert(res@ =~= Seq::<(u16, Seq<u8>)>::empty());
        res
    }

    /// Records a packet that was just sent under an identifier that is not yet in use.
    pub fn insert(&mut self, ident: PacketIdentifier, packet: MqttPacket)
        requires
            old(self).wf(),
            !has_id(old(self)@, ident@),
        ensures
            final(self).wf(),
            final(self)@ == old(self)@.push((ident@, packet@)),
    {
        let ghost old_order = self.packet_ident_order@;
        let ghost old_map = self.outstanding_packets@;
        let ghost pv = packet@;
        let key = ident.get();
        assert forall|i: int| 0 <= i < old_order.len() implies (#[trigger] old_order[i])@ != key by {
            assert(old(self)@[i].0 == old_order[i]@);
        }
        self.packet_ident_order.push(ident);
        let _ = self.outstanding_packets.insert(key, packet);
        assert(self@ =~= old(self)@.push((ident@, pv))) by {
            assert forall|i: int| 0 <= i < old_order.len() implies self@[i] == old(self)@[i] by {
                assert(self.packet_ident_order@[i] == old_order[i]);
            }
        }
        assert forall|k: u16| #[trigger] self.outstanding_packets@.contains_key(k) implies exists|i: int|
            0 <= i < self.packet_ident_order@.len() && (#[trigger] self.packet_ident_order@[i])@ == k by {
            if k == key {
                assert(self.packet_ident_order@[old_order.len() as int]@ == k);
            } else {
                assert(old_map.contains_key(k));
                let i = choose|i: int| 0 <= i < old_order.len() && (#[trigger] old_order[i])@ == k;
                assert(self.packet_ident_order@[i]@ == k);
            }
        }
    }

    /// Replaces the stored packet of an identifier that is in use; its place in
    /// the send order does not change.
    pub fn update_by_id(&mut self, ident: PacketIdentifier, packet: MqttPacket)
        requires
            old(self).wf(),
            has_id(old(self)@, ident@),
        ensures
            final(self).wf(),
            final(self)@ == old(self)@.map_values(
                |e: (u16, Seq<u8>)| if e.0 == ident@ { (e.0, packet@) } else { e },
            ),
    {
        let ghost pv = packet@;
        let ghost old_map = self.outstanding_packets@;
        let key = ident.get();
        let _ = self.outstanding_packets.insert(key, packet);
        assert(self@ =~= old(self)@.map_values(
            |e: (u16, Seq<u8>)| if e.0 == ident@ { (e.0, pv) } else { e },
        ));
        assert forall|k: u16| #[trigger] self.outstanding_packets@.contains_key(k) implies exists|i: int|
            0 <= i < self.packet_ident_order@.len() && (#[trigger] self.packet_ident_order@[i])@ == k by {
            assert(old_map.contains_key(k));
        }
    }

    /// Whether a packet with this identifier is outstanding.
    pub fn exists_outstanding_packet(&self, ident: PacketIdentifier) -> (res: bool)
        requires
            self.wf(),
        ensures
            res == has_id(self@, ident@),
    {
        let key = ident.get();
        let res = self.outstanding_packets.contains_key(&key);
        proof {
            if res {
                let i = choose|i: int|
                    0 <= i < self.packet_ident_order@.len() && (#[trigger] self.packet_ident_order@[i])@
                        == key;
                assert(self@[i].0 == key);
            } else {
                assert forall|i: int| 0 <= i < self@.len() implies (#[trigger] self@[i]).0 != key by {
                    assert(self@[i].0 == self.packet_ident_order@[i]@);
                }
            }
        }
        res
    }

    /// The outstanding packets with their identifiers, in the order in which they were sent.
    pub fn iter_in_send_order(&self) -> (res: Vec<(PacketIdentifier, &MqttPacket)>)
        requires
            self.wf(),
        ensures
            res@.map_values(|e: (PacketIdentifier, &MqttPacket)| (e.0@, e.1@)) == self@,
    {
        let mut res: Vec<(PacketIdentifier, &MqttPacket)> = Vec::new();
        let mut i: usize = 0;
        while i < self.packet_ident_order.len()
            invariant
                self.wf(),
                i <= self.packet_ident_order@.len(),
                res@.map_values(|e: (PacketIdentifier, &MqttPacket)| (e.0@, e.1@)) =~= self@.subrange(
                    0,
                    i as int,
                ),
            decreases self.packet_ident_order@.len() - i,
        {
            let id = self.packet_ident_order[i];
            let key = id.get();
            let packet = self.outstanding_packets.get(&key).unwrap();
            let ghost before = res@;
            res.push((id, packet));
            proof {
                assert(self@[i as int] == (id@, packet@));
                assert(res@ == before.push((id, packet)));
                assert(self@.subrange(0, i + 1) =~= self@.subrange(0, i as int).push(self@[i as int]));
                assert(res@.map_values(|e: (PacketIdentifier, &MqttPacket)| (e.0@, e.1@)) =~= before.map_values(
                    |e: (PacketIdentifier, &MqttPacket)| (e.0@, e.1@),
                ).push((id@, packet@)));
            }
            i = i + 1;
        }
        res
    }

    /// Forgets the packet with this identifier, keeping the order of the others.
    pub fn remove_by_id(&mut self, id: PacketIdentifier)
        requires
            old(self).wf(),
        ensures
            final(self).wf(),
            final(self)@ == without_id(old(self)@, id@),
    {
        let ghost old_view = self@;
        let ghost old_order = self.packet_ident_order@;
        let ghost old_map = self.outstanding_packets@;
        let ghost pred = other_id(id@);
        let key = id.get();
        let mut kept: Vec<PacketIdentifier> = Vec::new();
        let ghost mut origin: Seq<int> = Seq::empty();
        let mut i: usize = 0;
        while i < self.packet_ident_order.len()
            invariant
                self.packet_ident_order@ == old_order,
                self.outstanding_packets@ == old_map,
                old(self).wf(),
                old_view == old(self)@,
                old(self).packet_ident_order@ == old_order,
                old(self).outstanding_packets@ == old_map,
                pred == other_id(id@),
                key == id@,
                i <= old_order.len(),
                origin.len() == kept@.len(),
                forall|a: int| 0 <= a < origin.len() ==> 0 <= #[trigger] origin[a] < i,
                forall|a: int, b: int| 0 <= a < b < origin.len() ==> #[trigger] origin[a] < #[trigger] origin[b],
                forall|a: int| 0 <= a < origin.len() ==> kept@[a] == old_order[#[trigger] origin[a]],
                forall|a: int| 0 <= a < kept@.len() ==> (#[trigger] kept@[a])@ != key,
                forall|j: int| 0 <= j < i && (#[trigger] old_order[j])@ != key ==> exists|a: int|
                    0 <= a < kept@.len() && kept@[a] == old_order[j],
                kept@.map_values(|p: PacketIdentifier| (p@, old_map[p@]@)) =~= old_view.subrange(
                    0,
                    i as int,
                ).filter(pred),
            decreases old_order.len() - i,
        {
            let cur = self.packet_ident_order[i];
            proof {
                let prefix = old_view.subrange(0, i as int);
                assert(old_view.subrange(0, i + 1) =~= prefix.push(old_view[i as int]));
                prefix.lemma_filter_push(old_view[i as int], pred);
                assert(old_view[i as int] == (old_order[i as int]@, old_map[old_order[i as int]@]@));
            }
            if cur.get() != key {
                let ghost before = kept@;
                kept.push(cur);
                proof {
                    origin = origin.push(i as int);
                    assert(kept@[kept@.len() - 1] == old_order[i as int]);
                    assert forall|a: int| 0 <= a < before.len() implies kept@[a] == before[a] by {}
                    assert(kept@.map_values(|p: PacketIdentifier| (p@, old_map[p@]@)) =~= before.map_values(
                        |p: PacketIdentifier| (p@, old_map[p@]@),
                    ).push((cur@, old_map[cur@]@)));
                }
            }
            i = i + 1;
        }
        assert(old_view.subrange(0, old_order.len() as int) =~= old_view);
        let _ = self.outstanding_packets.remove(&key);
        self.packet_ident_order = kept;
        assert forall|a: int| 0 <= a < self.packet_ident_order@.len() implies self.outstanding_packets@.contains_key(
            (#[trigger] self.packet_ident_order@[a])@) && self.outstanding_packets@[self.packet_ident_order@[a]@]
            == old_map[self.packet_ident_order@[a]@] by {
            assert(self.packet_ident_order@[a] == old_order[origin[a]]);
            assert(old_map.contains_key(old_order[origin[a]]@));
        }
        assert(self@ =~= old_view.filter(pred));
        assert forall|a: int, b: int|
            0 <= a < b < self.packet_ident_order@.len() implies (#[trigger] self.packet_ident_order@[a])@
            != (#[trigger] self.packet_ident_order@[b])@ by {
            assert(origin[a] < origin[b]);
        }
        assert forall|a: int|
            0 <= a < self.packet_ident_order@.len() implies (#[trigger] self.packet_ident_order@[a])@ != 0 by {
            assert(self.packet_ident_order@[a] == old_order[origin[a]]);
        }
        assert forall|k: u16| #[trigger] self.outstanding_packets@.contains_key(k) implies exists|a: int|
            0 <= a < self.packet_ident_order@.len() && (#[trigger] self.packet_ident_order@[a])@ == k by {
            assert(old_map.contains_key(k));
            let j = choose|j: int| 0 <= j < old_order.len() && (#[trigger] old_order[j])@ == k;
            assert(old_order[j]@ != key);
        }
    }
}

/// What the client knows of its connection: what the server said in its
/// CONNACK, and the identifier to try for the next packet.
pub struct ConnectState {
    pub session_present: bool,
    pub receive_maximum: Option<u16>,
    pub maximum_qos: Option<QualityOfService>,
    pub retain_available: Option<bool>,
    pub topic_alias_maximum: Option<u16>,
    pub maximum_packet_size: Option<u32>,
    pub keep_alive: KeepAlive,
    pub next_packet_identifier: PacketIdentifier,
}

/// The client's session: its identifier and the packets still to be
/// acknowledged.
pub struct SessionState {
    pub client_identifier: MqttString,
    pub outstanding_packets: OutstandingPackets,
}

/// Acknowledging the packet just sent under a fresh identifier leaves the
/// outstanding packets as they were, in the same send order.
pub proof fn lemma_send_then_acknowledge(entries: Seq<(u16, Seq<u8>)>, id: u16, frame: Seq<u8>)
    requires
        !has_id(entries, id),
    ensures
        without_id(entries.push((id, frame)), id) == entries,
{
    let f = other_id(id);
    entries.lemma_filter_push((id, frame), f);
    lemma_filter_keeps_all(entries, id);
}

/// Filtering out an identifier that no entry has keeps every entry.
proof fn lemma_filter_keeps_all(entries: Seq<(u16, Seq<u8>)>, id: u16)
    requires
        !has_id(entries, id),
    ensures
        without_id(entries, id) == entries,
    decreases entries.len(),
{
    let f = other_id(id);
    if entries.len() > 0 {
        let init = entries.drop_last();
        assert(!has_id(init, id)) by {
            if has_id(init, id) {
                let i = choose|i: int| 0 <= i < init.len() && (#[trigger] init[i]).0 == id;
                assert(entries[i] == init[i]);
            }
        }
        lemma_filter_keeps_all(init, id);
        assert(entries == init.push(entries.last()));
        init.lemma_filter_push(entries.last(), f);
        assert(entries[entries.len() - 1].0 != id);
    } else {
        assert(entries.filter(f) =~= entries);
    }
}

/// One change of a record of outstanding packets, as `insert`,
/// `update_by_id` and `remove_by_id` make it.
pub enum OutstandingChange {
    Insert(u16, Seq<u8>),
    Update(u16, Seq<u8>),
    Remove(u16),
}

/// The identifiers of `entries`, in order.
pub open spec fn ids_of(entries: Seq<(u16, Seq<u8>)>) -> Seq<u16> {
    entries.map_values(|e: (u16, Seq<u8>)| e.0)
}

/// Whether an identifier is other than `id`.
pub open spec fn not_id(id: u16) -> spec_fn(u16) -> bool {
    |x: u16| x != id
}

/// The record after `changes`, starting empty, each change applied as the
/// method that makes it states.
pub open spec fn after_changes(changes: Seq<OutstandingChange>) -> Seq<(u16, Seq<u8>)>
    decreases changes.len(),
{
    if changes.len() == 0 {
        Seq::empty()
    } else {
        let before = after_changes(changes.drop_last());
        match changes.last() {
            OutstandingChange::Insert(id, frame) => before.push((id, frame)),
            OutstandingChange::Update(id, frame) => before.map_values(
                |e: (u16, Seq<u8>)| if e.0 == id { (e.0, frame) } else { e },
            ),
            OutstandingChange::Remove(id) => without_id(before, id),
        }
    }
}

/// Every insert among `changes` is of an identifier not in use at the time,
/// as `insert` requires.
pub open spec fn inserts_fresh(changes: Seq<OutstandingChange>) -> bool
    decreases changes.len(),
{
    if changes.len() == 0 {
        true
    } else {
        &&& inserts_fresh(changes.drop_last())
        &&& changes.last() matches OutstandingChange::Insert(id, _) ==> !has_id(
            after_changes(changes.drop_last()),
            id,
        )
    }
}

/// The identifiers inserted by `changes` and not removed since, in the
/// order of their inserts.
pub open spec fn live_ids(changes: Seq<OutstandingChange>) -> Seq<u16>
    decreases changes.len(),
{
    if changes.len() == 0 {
        Seq::empty()
    } else {
        let before = live_ids(changes.drop_last());
        match changes.last() {
            OutstandingChange::Insert(id, _) => before.push(id),
            OutstandingChange::Update(_, _) => before,
            OutstandingChange::Remove(id) => before.filter(not_id(id)),
        }
    }
}

/// The frame that the latest insert or update of `id` among `changes` gave.
pub open spec fn latest_frame(changes: Seq<OutstandingChange>, id: u16) -> Seq<u8>
    decreases changes.len(),
{
    if changes.len() == 0 {
        Seq::empty()
    } else {
        match changes.last() {
            OutstandingChange::Insert(i, frame) => if i == id {
                frame
            } else {
                latest_frame(changes.drop_last(), id)
            },
            OutstandingChange::Update(i, frame) => if i == id {
                frame
            } else {
                latest_frame(changes.drop_last(), id)
            },
            OutstandingChange::Remove(_) => latest_frame(changes.drop_last(), id),
        }
    }
}

/// Dropping the entries of one identifier drops it from the identifiers,
/// and keeps only entries that were there.
proof fn lemma_without_id_ids(entries: Seq<(u16, Seq<u8>)>, id: u16)
    ensures
        ids_of(without_id(entries, id)) == ids_of(entries).filter(not_id(id)),
        forall|i: int|
            0 <= i < without_id(entries, id).len() ==> entries.contains(#[trigger] without_id(entries, id)[i]),
    decreases entries.len(),
{
    if entries.len() == 0 {
        assert(without_id(entries, id) =~= Seq::<(u16, Seq<u8>)>::empty());
        assert(ids_of(entries) =~= Seq::<u16>::empty());
        assert(ids_of(entries).filter(not_id(id)) =~= Seq::<u16>::empty());
    } else {
        let init = entries.drop_last();
        let last = entries.last();
        lemma_without_id_ids(init, id);
        assert(entries =~= init.push(last));
        init.lemma_filter_push(last, other_id(id));
        assert(ids_of(entries) =~= ids_of(init).push(last.0));
        ids_of(init).lemma_filter_push(last.0, not_id(id));
        let w = without_id(entries, id);
        if last.0 != id {
            assert(ids_of(w) =~= ids_of(without_id(init, id)).push(last.0));
        }
        assert forall|i: int| 0 <= i < w.len() implies entries.contains(#[trigger] w[i]) by {
            if i < without_id(init, id).len() {
                assert(w[i] == without_id(init, id)[i]);
                let j = choose|j: int| 0 <= j < init.len() && init[j] == w[i];
                assert(entries[j] == init[j]);
            } else {
                assert(w[i] == last);
                assert(entries[entries.len() - 1] == last);
            }
        }
    }
}

/// Send order follows insert order: after any changes that insert only
/// identifiers not in use, the record holds exactly the identifiers inserted
/// and not removed since, in the order of their inserts, each with the
/// frame of its latest insert or update.
pub proof fn lemma_send_order_follows_inserts(changes: Seq<OutstandingChange>)
    requires
        inserts_fresh(changes),
    ensures
        ids_of(after_changes(changes)) == live_ids(changes),
        forall|i: int|
            0 <= i < after_changes(changes).len() ==> (#[trigger] after_changes(changes)[i]).1
                == latest_frame(changes, after_changes(changes)[i].0),
    decreases changes.len(),
{
    if changes.len() > 0 {
        let prev = changes.drop_last();
        lemma_send_order_follows_inserts(prev);
        let before = after_changes(prev);
        let after = after_changes(changes);
        match changes.last() {
            OutstandingChange::Insert(id, frame) => {
                assert(ids_of(after) =~= ids_of(before).push(id));
                assert forall|i: int| 0 <= i < after.len() implies (#[trigger] after[i]).1 == latest_frame(
                    changes,
                    after[i].0,
                ) by {
                    if i < before.len() {
                        assert(after[i] == before[i]);
                        assert(before[i].0 != id);
                    }
                }
            },
            OutstandingChange::Update(id, frame) => {
                assert(ids_of(after) =~= ids_of(before));
            },
            OutstandingChange::Remove(id) => {
                lemma_without_id_ids(before, id);
                assert forall|i: int| 0 <= i < after.len() implies (#[trigger] after[i]).1 == latest_frame(
                    changes,
                    after[i].0,
                ) by {
                    let j = choose|j: int| 0 <= j < before.len() && before[j] == after[i];
                    assert(before[j].1 == latest_frame(prev, before[j].0));
                }
            },
        }
    }
}

} // verus!
