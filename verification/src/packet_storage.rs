//! Where a client keeps the messages it received until they are
//! acknowledged, each under a 16-bit key.

use dashmap::DashMap;

use vstd::prelude::*;

use crate::packets::MqttPacket;
use crate::server::state::counter_value;
use crate::util::lemma_u16_range_count;

verus! {

/// What a storage table holds: the frame of the packet kept under each key.
pub uninterp spec fn stored_packets(m: DashMap<u16, MqttPacket>) -> Map<u16, Seq<u8>>;

/// `DashMap::new`: an empty table.
#[verifier::external_body]
fn packets_new() -> (res: DashMap<u16, MqttPacket>)
    ensures
        stored_packets(res).is_empty(),
{
    DashMap::new()
}

/// `DashMap::contains_key`.
#[verifier::external_body]
fn packets_contains(m: &DashMap<u16, MqttPacket>, id: u16) -> (res: bool)
    ensures
        res == stored_packets(*m).contains_key(id),
{
    m.contains_key(&id)
}

/// `DashMap::insert`: keeps `packet` under `id`; what was kept there before
/// comes back.
#[verifier::external_body]
fn packets_insert(m: &mut DashMap<u16, MqttPacket>, id: u16, packet: MqttPacket) -> (res: Option<MqttPacket>)
    ensures
        stored_packets(*final(m)) == stored_packets(*old(m)).insert(id, packet@),
        match res {
            Some(p) => stored_packets(*old(m)).contains_key(id) && stored_packets(*old(m))[id] == p@,
            None => !stored_packets(*old(m)).contains_key(id),
        },
{
    m.insert(id, packet)
}

/// `DashMap::get`: a copy of the packet kept under `id`.
#[verifier::external_body]
fn packets_get(m: &DashMap<u16, MqttPacket>, id: u16) -> (res: Option<MqttPacket>)
    ensures
        match res {
            Some(p) => stored_packets(*m).contains_key(id) && stored_packets(*m)[id] == p@,
            None => !stored_packets(*m).contains_key(id),
        },
{
    match m.get(&id) {
        Some(entry) => Some(entry.value().clone()),
        None => None,
    }
}

/// `id` is the first key, counting up from `start` and wrapping past 65535,
/// that is not in `taken`.
pub open spec fn first_free_key(taken: Set<u16>, start: u16, id: u16) -> bool {
    exists|steps: int|
        0 <= steps < 65536 && counter_value(start, steps) == id && !taken.contains(id) && forall|k: int|
            0 <= k < steps ==> taken.contains(#[trigger] counter_value(start, k))
}

/// The received packets kept until acknowledged, and the key to try next.
pub struct PacketStorage {
    last_id: u16,
    messages: DashMap<u16, MqttPacket>,
}

impl PacketStorage {
    /// The table is finite.
    pub closed spec fn wf(&self) -> bool {
        stored_packets(self.messages).dom().finite()
    }

    /// The kept packets, by key.
    pub closed spec fn table(&self) -> Map<u16, Seq<u8>> {
        stored_packets(self.messages)
    }

    /// The key counter.
    pub closed spec fn counter(&self) -> u16 {
        self.last_id
    }

    /// An empty storage, counting keys from 0.
    pub fn new() -> (res: PacketStorage)
        ensures
            res.wf(),
            res.table().is_empty(),
            res.counter() == 0,
    {
        PacketStorage { last_id: 0, messages: packets_new() }
    }

    /// Keeps `packet` under the first free key counting up from the
    /// counter, and returns that key; the counter then stands right after
    /// it. With all 65536 keys in use there is no room.
    pub fn push_to_storage(&mut self, packet: MqttPacket) -> (res: u16)
        requires
            old(self).wf(),
            old(self).table().dom().len() < 65536,
        ensures
            final(self).wf(),
            first_free_key(old(self).table().dom(), old(self).counter(), res),
            final(self).counter() == counter_value(res, 1),
            final(self).table() == old(self).table().insert(res, packet@),
    {
        let id = self.get_next_free_id();
        let previous = packets_insert(&mut self.messages, id, packet);
        assert(previous is None);
        id
    }

    /// The first free key counting up from the counter; the counter then
    /// stands right after it.
    fn get_next_free_id(&mut self) -> (res: u16)
        requires
            old(self).wf(),
            old(self).table().dom().len() < 65536,
        ensures
            final(self).wf(),
            final(self).table() == old(self).table(),
            first_free_key(old(self).table().dom(), old(self).counter(), res),
            final(self).counter() == counter_value(res, 1),
    {
        let ghost start = self.last_id;
        let ghost taken = stored_packets(self.messages).dom();
        let ghost mut steps: int = 0;
        loop
            invariant
                self.wf(),
                stored_packets(self.messages) == old(self).table(),
                taken == old(self).table().dom(),
                start == old(self).counter(),
                taken.len() < 65536,
                0 <= steps <= 65536,
                self.last_id == counter_value(start, steps),
                forall|k: int| 0 <= k < steps ==> taken.contains(#[trigger] counter_value(start, k)),
            decreases 65536 - steps,
        {
            proof {
                if steps == 65536 {
                    assert forall|x: u16| x >= 0 implies taken.contains(x) by {
                        let k = ((x - start) % 65536) as int;
                        assert(counter_value(start, k) == x);
                    }
                    lemma_u16_range_count(taken, 0);
                    assert(false);
                }
            }
            let id = self.last_id;
            self.last_id = self.last_id.wrapping_add(1);
            if !packets_contains(&self.messages, id) {
                proof {
                    assert(counter_value(start, steps) == id);
                    assert(counter_value(id, 1) == self.last_id);
                }
                return id;
            }
            proof {
                steps = steps + 1;
            }
        }
    }

    /// A copy of the packet kept under `id`, if there is one.
    pub fn get_from_storage(&self, id: u16) -> (res: Option<MqttPacket>)
        ensures
            match res {
                Some(p) => self.table().contains_key(id) && self.table()[id] == p@,
                None => !self.table().contains_key(id),
            },
    {
        packets_get(&self.messages, id)
    }
}

} // verus!
