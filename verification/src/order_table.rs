use std::collections::hash_map::Entry;
use std::collections::HashMap;

use vstd::prelude::*;

use crate::order_info::OrderInfo;
use crate::order_model::OrderInfoView;

verus! {

broadcast use vstd::std_specs::hash::group_hash_axioms;

/// The queues of one topic and group, under their key.
#[derive(Debug)]
pub struct TopicGroupOrders {
    /// The key, as `build_key` makes it.
    pub key: String,
    /// The order info of each queue id.
    pub queues: HashMap<i32, OrderInfo>,
}

/// The abstract value of the queues of one topic and group.
pub open spec fn queues_view(queues: Map<i32, OrderInfo>) -> Map<i32, OrderInfoView> {
    queues.map_values(|info: OrderInfo| info@)
}

/// The table of order infos: for each key the order infos of its queues, by queue id.
#[derive(Debug)]
pub struct ConsumerOrderInfoWrapper {
    entries: Vec<TopicGroupOrders>,
}

/// Whether no two entries have the same key.
pub open spec fn keys_distinct(entries: Seq<TopicGroupOrders>) -> bool {
    forall|i: int, j: int|
        0 <= i < j < entries.len() ==> (#[trigger] entries[i]).key@ != (#[trigger] entries[j]).key@
}

/// Whether entry `i` has the key `key`.
pub open spec fn has_key(entries: Seq<TopicGroupOrders>, i: int, key: Seq<char>) -> bool {
    0 <= i < entries.len() && entries[i].key@ == key
}

/// The map from key to queues that a list of entries stands for.
pub open spec fn entries_view(entries: Seq<TopicGroupOrders>) -> Map<
    Seq<char>,
    Map<i32, OrderInfoView>,
> {
    Map::new(
        |key: Seq<char>| exists|i: int| has_key(entries, i, key),
        |key: Seq<char>| queues_view(entries[choose|i: int| has_key(entries, i, key)].queues@),
    )
}

impl View for ConsumerOrderInfoWrapper {
    type V = Map<Seq<char>, Map<i32, OrderInfoView>>;

    closed spec fn view(&self) -> Self::V {
        entries_view(self.entries@)
    }
}

/// What became of a request to set a visible time.
#[derive(Debug, Clone, Copy, PartialEq, Eq, Structural)]
pub enum UpdateOutcome {
    /// The table has no entry under the key.
    NoSuchKey,
    /// The entry has no order info for the queue.
    NoSuchQueue,
    /// The order info is of a batch that was popped at another time.
    PopTimeMismatch,
    /// The visible time was set.
    Updated,
}

impl ConsumerOrderInfoWrapper {
    #[verifier::type_invariant]
    spec fn well_formed(self) -> bool {
        keys_distinct(self.entries@)
    }

    /// An empty table.
    pub fn new() -> (table: Self)
        ensures
            table@ == Map::<Seq<char>, Map<i32, OrderInfoView>>::empty(),
    {
        let table = ConsumerOrderInfoWrapper { entries: Vec::new() };
        assert(table@ =~= Map::<Seq<char>, Map<i32, OrderInfoView>>::empty());
        table
    }

    /// Whether the table has no entry.
    pub fn is_empty(&self) -> (empty: bool)
        ensures
            empty == (self@ == Map::<Seq<char>, Map<i32, OrderInfoView>>::empty()),
    {
        if self.entries.len() == 0 {
            assert(self@ =~= Map::<Seq<char>, Map<i32, OrderInfoView>>::empty());
            true
        } else {
            assert(has_key(self.entries@, 0, self.entries@[0].key@));
            assert(self@.contains_key(self.entries@[0].key@));
            false
        }
    }

    /// The entries of the table, no two of them under the same key, in no particular order.
    pub fn entries(&self) -> (entries: &Vec<TopicGroupOrders>)
        ensures
            keys_distinct(entries@),
            entries_view(entries@) == self@,
    {
        proof {
            use_type_invariant(self);
        }
        &self.entries
    }

    /// The queues under `key`, if the table has an entry there.
    pub fn get(&self, key: &String) -> (queues: Option<&HashMap<i32, OrderInfo>>)
        ensures
            match queues {
                Some(queues) => self@.contains_key(key@) && queues_view(queues@) == self@[key@],
                None => !self@.contains_key(key@),
            },
    {
        proof {
            use_type_invariant(self);
        }
        match Self::index_of(&self.entries, key) {
            Some(index) => {
                proof {
                    lemma_entry_at(self.entries@, index as int);
                }
                Some(&self.entries[index].queues)
            },
            None => None,
        }
    }

    /// Puts `queues` under `key`, in place of what was there.
    pub fn insert(&mut self, key: String, queues: HashMap<i32, OrderInfo>)
        ensures
            final(self)@ == old(self)@.insert(key@, queues_view(queues@)),
    {
        proof {
            use_type_invariant(&*self);
        }
        let index = Self::index_of(&self.entries, &key);
        let mut entries: Vec<TopicGroupOrders> = Vec::new();
        std::mem::swap(&mut self.entries, &mut entries);
        let entry = TopicGroupOrders { key, queues };
        match index {
            Some(index) => {
                proof {
                    lemma_replace_entry(entries@, index as int, entry);
                }
                entries.set(index, entry);
            },
            None => {
                proof {
                    lemma_push_entry(entries@, entry);
                }
                entries.push(entry);
            },
        }
        self.entries = entries;
    }

    /// The index of the entry with the key `key`.
    fn index_of(entries: &Vec<TopicGroupOrders>, key: &String) -> (index: Option<usize>)
        ensures
            match index {
                Some(i) => has_key(entries@, i as int, key@),
                None => forall|i: int| !has_key(entries@, i, key@),
            },
    {
        for i in 0..entries.len()
            invariant
                forall|j: int| 0 <= j < i ==> !#[trigger] has_key(entries@, j, key@),
        {
            if entries[i].key == *key {
                assert(has_key(entries@, i as int, key@));
                return Some(i);
            }
        }
        None
    }

    /// Sets the visible time of a queue offset in the order info of a queue, provided that the
    /// batch was popped at `pop_time`. Otherwise the table stays as it is.
    pub fn update_next_visible_time(
        &mut self,
        key: &String,
        queue_id: i32,
        queue_offset: u64,
        pop_time: u64,
        next_visible_time: u64,
    ) -> (outcome: UpdateOutcome)
        ensures
            outcome == update_outcome(old(self)@, key@, queue_id, pop_time),
            final(self)@ == updated_table(
                old(self)@,
                key@,
                queue_id,
                queue_offset,
                pop_time,
                next_visible_time,
            ),
    {
        proof {
            use_type_invariant(&*self);
        }
        let index = match Self::index_of(&self.entries, key) {
            Some(index) => index,
            None => {
                return UpdateOutcome::NoSuchKey;
            },
        };
        let mut entries: Vec<TopicGroupOrders> = Vec::new();
        std::mem::swap(&mut self.entries, &mut entries);
        let ghost before = entries@;
        let outcome = match entries[index].queues.entry(queue_id) {
            Entry::Vacant(_) => UpdateOutcome::NoSuchQueue,
            Entry::Occupied(occupied) => {
                let info = occupied.into_mut();
                if pop_time != info.pop_time {
                    UpdateOutcome::PopTimeMismatch
                } else {
                    info.update_offset_next_visible_time(queue_offset, next_visible_time);
                    UpdateOutcome::Updated
                }
            },
        };
        proof {
            lemma_entry_at(before, index as int);
            lemma_replace_entry(before, index as int, entries@[index as int]);
            let queues_before = queues_view(before[index as int].queues@);
            let queues_after = queues_view(entries@[index as int].queues@);
            if outcome == UpdateOutcome::Updated {
                assert(queues_after =~= queues_before.insert(
                    queue_id,
                    queues_before[queue_id].with_next_visible_time(queue_offset, next_visible_time),
                ));
            } else {
                assert(queues_after =~= queues_before);
                assert(entries_view(entries@) =~= entries_view(before));
            }
        }
        self.entries = entries;
        outcome
    }
}

impl Default for ConsumerOrderInfoWrapper {
    fn default() -> (table: Self)
        ensures
            table@ == Map::<Seq<char>, Map<i32, OrderInfoView>>::empty(),
    {
        Self::new()
    }
}

impl Clone for ConsumerOrderInfoWrapper {
    fn clone(&self) -> (table: Self)
        ensures
            table@ == self@,
    {
        proof {
            use_type_invariant(self);
        }
        let mut entries: Vec<TopicGroupOrders> = Vec::new();
        for i in 0..self.entries.len()
            invariant
                entries@.len() == i,
                forall|j: int|
                    0 <= j < i ==> (#[trigger] entries@[j]).key@ == self.entries@[j].key@
                        && entries@[j].queues@ == self.entries@[j].queues@,
        {
            let entry = &self.entries[i];
            entries.push(
                TopicGroupOrders { key: entry.key.clone(), queues: entry.queues.clone() },
            );
        }
        proof {
            lemma_same_entries(self.entries@, entries@);
        }
        ConsumerOrderInfoWrapper { entries }
    }
}

/// Where keys are distinct, the map holds the queues of each entry under its key.
pub proof fn lemma_entry_at(entries: Seq<TopicGroupOrders>, i: int)
    requires
        keys_distinct(entries),
        0 <= i < entries.len(),
    ensures
        entries_view(entries).contains_key(entries[i].key@),
        entries_view(entries)[entries[i].key@] == queues_view(entries[i].queues@),
{
    let key = entries[i].key@;
    assert(has_key(entries, i, key));
    let j = choose|j: int| has_key(entries, j, key);
    assert(has_key(entries, j, key));
    assert(i == j);
}

/// To replace an entry by one with the same key is to replace its value in the map.
proof fn lemma_replace_entry(entries: Seq<TopicGroupOrders>, i: int, entry: TopicGroupOrders)
    requires
        keys_distinct(entries),
        has_key(entries, i, entry.key@),
    ensures
        keys_distinct(entries.update(i, entry)),
        entries_view(entries.update(i, entry)) == entries_view(entries).insert(
            entry.key@,
            queues_view(entry.queues@),
        ),
{
    let after = entries.update(i, entry);
    let expected = entries_view(entries).insert(entry.key@, queues_view(entry.queues@));
    assert(keys_distinct(after));
    assert forall|key: Seq<char>|
        expected.contains_key(key) <==> #[trigger] entries_view(after).contains_key(key) by {
        if expected.contains_key(key) {
            if key == entry.key@ {
                assert(has_key(after, i, key));
            } else {
                let j = choose|j: int| has_key(entries, j, key);
                assert(has_key(after, j, key));
            }
        }
        if entries_view(after).contains_key(key) {
            let j = choose|j: int| has_key(after, j, key);
            assert(has_key(entries, j, key));
        }
    }
    assert forall|key: Seq<char>| #[trigger] entries_view(after).contains_key(key) implies expected[key]
        == entries_view(after)[key] by {
        let j = choose|j: int| has_key(after, j, key);
        lemma_entry_at(after, j);
        lemma_entry_at(entries, j);
    }
    assert(entries_view(after) =~= expected);
}

/// To add an entry with a new key is to add its key to the map.
proof fn lemma_push_entry(entries: Seq<TopicGroupOrders>, entry: TopicGroupOrders)
    requires
        keys_distinct(entries),
        forall|i: int| !has_key(entries, i, entry.key@),
    ensures
        keys_distinct(entries.push(entry)),
        entries_view(entries.push(entry)) == entries_view(entries).insert(
            entry.key@,
            queues_view(entry.queues@),
        ),
{
    let after = entries.push(entry);
    let n = entries.len() as int;
    let expected = entries_view(entries).insert(entry.key@, queues_view(entry.queues@));
    assert(keys_distinct(after)) by {
        assert forall|i: int, j: int| 0 <= i < j < after.len() implies (#[trigger] after[i]).key@
            != (#[trigger] after[j]).key@ by {
            assert(!has_key(entries, i, entry.key@));
        }
    }
    assert forall|key: Seq<char>|
        expected.contains_key(key) <==> #[trigger] entries_view(after).contains_key(key) by {
        if expected.contains_key(key) {
            if key == entry.key@ {
                assert(has_key(after, n, key));
            } else {
                let j = choose|j: int| has_key(entries, j, key);
                assert(has_key(after, j, key));
            }
        }
        if entries_view(after).contains_key(key) {
            let j = choose|j: int| has_key(after, j, key);
            if j < n {
                assert(has_key(entries, j, key));
            }
        }
    }
    assert forall|key: Seq<char>| #[trigger] entries_view(after).contains_key(key) implies expected[key]
        == entries_view(after)[key] by {
        let j = choose|j: int| has_key(after, j, key);
        lemma_entry_at(after, j);
        if j < n {
            assert(has_key(entries, j, key));
            lemma_entry_at(entries, j);
        }
    }
    assert(entries_view(after) =~= expected);
}

/// Entries with the same keys and queues stand for the same map.
proof fn lemma_same_entries(a: Seq<TopicGroupOrders>, b: Seq<TopicGroupOrders>)
    requires
        keys_distinct(a),
        a.len() == b.len(),
        forall|i: int|
            0 <= i < a.len() ==> (#[trigger] b[i]).key@ == a[i].key@ && b[i].queues@ == a[i].queues@,
    ensures
        keys_distinct(b),
        entries_view(a) == entries_view(b),
{
    assert forall|i: int, key: Seq<char>| #[trigger]
        has_key(a, i, key) <==> has_key(b, i, key) by {
        if 0 <= i < a.len() {
            assert(b[i].key@ == a[i].key@);
        }
    }
    assert forall|i: int, j: int| 0 <= i < j < b.len() implies (#[trigger] b[i]).key@ != (
    #[trigger] b[j]).key@ by {
        assert(a[i].key@ != a[j].key@);
    }
    assert forall|key: Seq<char>| #[trigger] entries_view(a).contains_key(key) <==> entries_view(
        b,
    ).contains_key(key) by {
        if entries_view(a).contains_key(key) {
            let i = choose|i: int| has_key(a, i, key);
            assert(has_key(b, i, key));
        }
        if entries_view(b).contains_key(key) {
            let i = choose|i: int| has_key(b, i, key);
            assert(has_key(a, i, key));
        }
    }
    assert forall|key: Seq<char>| #[trigger] entries_view(a).contains_key(key) implies entries_view(
        a,
    )[key] == entries_view(b)[key] by {
        let i = choose|i: int| has_key(a, i, key);
        lemma_entry_at(a, i);
        lemma_entry_at(b, i);
    }
    assert(entries_view(a) =~= entries_view(b));
}

/// The outcome of a request to set a visible time in `table`.
pub open spec fn update_outcome(
    table: Map<Seq<char>, Map<i32, OrderInfoView>>,
    key: Seq<char>,
    queue_id: i32,
    pop_time: u64,
) -> UpdateOutcome {
    if !table.contains_key(key) {
        UpdateOutcome::NoSuchKey
    } else if !table[key].contains_key(queue_id) {
        UpdateOutcome::NoSuchQueue
    } else if table[key][queue_id].pop_time != pop_time {
        UpdateOutcome::PopTimeMismatch
    } else {
        UpdateOutcome::Updated
    }
}

/// The table after a request to set a visible time in `table`.
pub open spec fn updated_table(
    table: Map<Seq<char>, Map<i32, OrderInfoView>>,
    key: Seq<char>,
    queue_id: i32,
    queue_offset: u64,
    pop_time: u64,
    next_visible_time: u64,
) -> Map<Seq<char>, Map<i32, OrderInfoView>> {
    if update_outcome(table, key, queue_id, pop_time) == UpdateOutcome::Updated {
        table.insert(
            key,
            table[key].insert(
                queue_id,
                table[key][queue_id].with_next_visible_time(queue_offset, next_visible_time),
            ),
        )
    } else {
        table
    }
}

} // verus!
