use std::collections::HashMap;
use std::collections::HashSet;

use vstd::prelude::*;

use crate::clock;
#[allow(unused_imports)]
use crate::order_model;
use crate::order_model::OrderInfoView;

verus! {

broadcast use vstd::std_specs::hash::group_hash_axioms;

/// What is known of the batch of messages that was last popped, in order, from one queue of a
/// topic by one consumer group.
#[derive(Debug)]
pub struct OrderInfo {
    /// When the batch was popped, in milliseconds.
    pub pop_time: u64,
    /// For how long the batch stays invisible, in milliseconds.
    pub invisible_time: Option<u64>,
    /// The offsets of the batch; see `build_offset_list`.
    pub offset_list: Vec<u64>,
    /// The time at which a single queue offset becomes visible again.
    pub offset_next_visible_time: HashMap<u64, u64>,
    /// How often a queue offset was consumed before.
    pub offset_consumed_count: HashMap<u64, i32>,
    /// When the batch was last consumed, in milliseconds.
    pub last_consume_timestamp: u64,
    /// Bit `i` is set once entry `i` of the list is acknowledged.
    pub commit_offset_bit: u64,
    /// The attempt that popped the batch.
    pub attempt_id: String,
}

impl View for OrderInfo {
    type V = OrderInfoView;

    open spec fn view(&self) -> OrderInfoView {
        OrderInfoView {
            pop_time: self.pop_time,
            invisible_time: self.invisible_time,
            offset_list: self.offset_list@,
            offset_next_visible_time: self.offset_next_visible_time@,
            offset_consumed_count: self.offset_consumed_count@,
            last_consume_timestamp: self.last_consume_timestamp,
            commit_offset_bit: self.commit_offset_bit,
            attempt_id: self.attempt_id@,
        }
    }
}

impl Default for OrderInfo {
    fn default() -> (info: Self)
        ensures
            info@ == (OrderInfoView {
                pop_time: 0,
                invisible_time: None,
                offset_list: Seq::empty(),
                offset_next_visible_time: Map::empty(),
                offset_consumed_count: Map::empty(),
                last_consume_timestamp: 0,
                commit_offset_bit: 0,
                attempt_id: Seq::empty(),
            }),
    {
        OrderInfo {
            pop_time: 0,
            invisible_time: None,
            offset_list: Vec::new(),
            offset_next_visible_time: HashMap::new(),
            offset_consumed_count: HashMap::new(),
            last_consume_timestamp: 0,
            commit_offset_bit: 0,
            attempt_id: String::new(),
        }
    }
}

impl Clone for OrderInfo {
    fn clone(&self) -> (info: Self)
        ensures
            info@ == self@,
    {
        OrderInfo {
            pop_time: self.pop_time,
            invisible_time: self.invisible_time,
            offset_list: self.offset_list.clone(),
            offset_next_visible_time: self.offset_next_visible_time.clone(),
            offset_consumed_count: self.offset_consumed_count.clone(),
            last_consume_timestamp: self.last_consume_timestamp,
            commit_offset_bit: self.commit_offset_bit,
            attempt_id: self.attempt_id.clone(),
        }
    }
}

impl OrderInfo {
    /// Builds a list of offsets from a given list of queue offsets. The first offset is kept as it
    /// is, each later one is stored as its distance from the first. A list of one offset is
    /// therefore returned unchanged.
    pub fn build_offset_list(queue_offset_list: Vec<u64>) -> (offset_list: Vec<u64>)
        requires
            queue_offset_list@.len() > 0,
            forall|i: int|
                0 <= i < queue_offset_list@.len() ==> queue_offset_list@[0]
                    <= #[trigger] queue_offset_list@[i],
        ensures
            offset_list@ == order_model::relative_to_first(queue_offset_list@),
    {
        if queue_offset_list.len() == 1 {
            return queue_offset_list;
        }
        let first: u64 = queue_offset_list[0];
        let mut simple: Vec<u64> = Vec::new();
        simple.push(first);
        for i in 1..queue_offset_list.len()
            invariant
                first == queue_offset_list@[0],
                1 <= i <= queue_offset_list@.len(),
                forall|j: int|
                    0 <= j < queue_offset_list@.len() ==> first <= #[trigger] queue_offset_list@[j],
                simple@ == order_model::relative_to_first(queue_offset_list@).take(i as int),
        {
            simple.push(queue_offset_list[i] - first);
        }
        simple
    }

    /// Determines if a request of `attempt_id` has to wait for this batch, by the current time.
    ///
    /// A request waits as long as some entry of a batch that another attempt popped is neither
    /// acknowledged nor visible again. A batch that has no invisible time yet takes over
    /// `current_invisible_time`.
    pub fn need_block(&mut self, attempt_id: &str, current_invisible_time: u64) -> (blocked: bool)
        requires
            old(self)@.concerns(attempt_id@) ==> old(self)@.after_need_block(
                attempt_id@,
                current_invisible_time,
            ).all_pending_fit(),
        ensures
            exists|now: u64|
                clock::clock_showed(now) && blocked == #[trigger] old(self)@.blocks(
                    attempt_id@,
                    current_invisible_time,
                    now,
                ),
            final(self)@ == old(self)@.after_need_block(attempt_id@, current_invisible_time),
    {
        let current_time: u64 = clock::get_current_millis();
        self.need_block_at(attempt_id, current_invisible_time, current_time)
    }

    /// Determines if a request of `attempt_id` has to wait for this batch at `current_time`; see
    /// `need_block`.
    pub fn need_block_at(
        &mut self,
        attempt_id: &str,
        current_invisible_time: u64,
        current_time: u64,
    ) -> (blocked: bool)
        requires
            old(self)@.concerns(attempt_id@) ==> old(self)@.after_need_block(
                attempt_id@,
                current_invisible_time,
            ).scan_fits(current_time),
        ensures
            blocked == old(self)@.blocks(attempt_id@, current_invisible_time, current_time),
            final(self)@ == old(self)@.after_need_block(attempt_id@, current_invisible_time),
    {
        if self.offset_list.is_empty() {
            return false;
        }
        if self.attempt_id == attempt_id.to_owned() {
            return false;
        }
        if self.invisible_time.is_none() || self.invisible_time.unwrap_or(0) == 0 {
            self.invisible_time = Some(current_invisible_time);
        }
        let ghost state = self@;
        let num: usize = self.offset_list.len();
        for i in 0..num
            invariant
                self@ == state,
                num == state.offset_list.len(),
                state.scan_fits(current_time),
                forall|j: int| 0 <= j < i ==> !#[trigger] state.holds_back(j, current_time),
                state == old(self)@.after_need_block(attempt_id@, current_invisible_time),
                old(self)@.concerns(attempt_id@),
        {
            if self.is_not_ack(i) {
                assert(state.pending(i as int));
                let mut next_visible_time: u64 = self.pop_time + self.invisible_time.unwrap_or(0);
                if let Some(time) = self.offset_next_visible_time.get(&self.get_queue_offset(i)) {
                    next_visible_time = *time;
                }
                if current_time < next_visible_time {
                    assert(state.holds_back(i as int, current_time));
                    return true;
                }
            }
        }
        false
    }

    /// Gets the time, by the current time, at which the lock on this batch may be released.
    pub fn get_lock_free_timestamp(&self) -> (timestamp: Option<u64>)
        requires
            self@.has_invisible_time() ==> self@.all_pending_fit(),
        ensures
            exists|now: u64|
                clock::clock_showed(now) && #[trigger] self@.lock_free_timestamp_is(
                    now,
                    timestamp,
                ),
    {
        let current_time: u64 = clock::get_current_millis();
        self.get_lock_free_timestamp_at(current_time)
    }

    /// Gets the time at which the lock on this batch may be released, at `current_time`.
    ///
    /// There is none for an empty batch, nor for one with an offset that is not acknowledged and
    /// no invisible time. Otherwise it is the visible time of the first offset that is neither
    /// acknowledged nor visible again, and `current_time` where there is no such offset.
    pub fn get_lock_free_timestamp_at(&self, current_time: u64) -> (timestamp: Option<u64>)
        requires
            self@.has_invisible_time() ==> self@.scan_fits(current_time),
        ensures
            self@.lock_free_timestamp_is(current_time, timestamp),
    {
        if self.offset_list.is_empty() {
            return None;
        }
        for i in 0..self.offset_list.len()
            invariant
                self@.has_invisible_time() ==> self@.scan_fits(current_time),
                self@.offset_list.len() > 0,
                self@.has_invisible_time() ==> forall|j: int|
                    0 <= j < i ==> !#[trigger] self@.holds_back(j, current_time),
                !self@.has_invisible_time() ==> forall|j: int|
                    0 <= j < i ==> !#[trigger] self@.pending(j),
        {
            if self.is_not_ack(i) {
                assert(self@.pending(i as int));
                if self.invisible_time.is_none() || self.invisible_time.unwrap_or(0) == 0 {
                    return None;
                }
                let mut next_visible_time: u64 = self.pop_time + self.invisible_time.unwrap_or(0);
                if let Some(time) = self.offset_next_visible_time.get(&self.get_queue_offset(i)) {
                    next_visible_time = *time;
                }
                if current_time < next_visible_time {
                    assert(self@.first_holding_back(i as int, current_time));
                    return Some(next_visible_time);
                }
            }
        }
        Some(current_time)
    }

    /// Updates the next visible time for a given queue offset.
    pub fn update_offset_next_visible_time(&mut self, queue_offset: u64, next_visible_time: u64)
        ensures
            final(self)@ == old(self)@.with_next_visible_time(queue_offset, next_visible_time),
    {
        self.offset_next_visible_time.insert(queue_offset, next_visible_time);
    }

    /// Gets the offset at which consumption goes on: the first queue offset that is not
    /// acknowledged, or one past the last where all are. Returns -2 if the offset list is empty.
    ///
    /// An offset past `i64::MAX` is returned as the negative number of the same 64 bits.
    pub fn get_next_offset(&self) -> (next_offset: i64)
        requires
            self@.next_offset_fits(),
        ensures
            self@.offset_list.len() == 0 ==> next_offset == -2,
            forall|i: int| #[trigger]
                self@.first_pending(i) ==> next_offset == order_model::as_signed(
                    self@.queue_offset(i),
                ),
            self@.offset_list.len() > 0 && self@.all_acked() ==> next_offset
                == order_model::as_signed(self@.queue_offset(self@.offset_list.len() - 1)) + 1,
    {
        if self.offset_list.is_empty() {
            return -2;
        }
        let num: usize = self.offset_list.len();
        let mut i: usize = 0;
        while i < num
            invariant_except_break
                forall|j: int| 0 <= j < i ==> !#[trigger] self@.pending(j),
            invariant
                i <= num,
                num == self@.offset_list.len(),
            ensures
                i < num ==> self@.first_pending(i as int),
                i == num ==> self@.all_acked(),
            decreases num - i,
        {
            if self.is_not_ack(i) {
                assert(self@.pending(i as int));
                break;
            }
            i += 1;
        }
        if i == num {
            let offset: u64 = self.get_queue_offset(num - 1);
            to_signed(offset) + 1
        } else {
            to_signed(self.get_queue_offset(i))
        }
    }

    /// Gets the queue offset for a given offset index.
    pub fn get_queue_offset(&self, offset_index: usize) -> (offset: u64)
        requires
            offset_index < self@.offset_list.len(),
            self@.queue_offset(offset_index as int) <= u64::MAX,
        ensures
            offset == self@.queue_offset(offset_index as int),
    {
        if offset_index == 0 {
            return self.offset_list[0];
        }
        self.offset_list[0] + self.offset_list[offset_index]
    }

    /// Checks if the offset at the given index is not acknowledged. An index past the 64 that the
    /// bitmap tracks counts as acknowledged.
    pub fn is_not_ack(&self, offset_index: usize) -> (not_ack: bool)
        ensures
            not_ack == self@.not_acked(offset_index as int),
    {
        if offset_index >= 64 {
            return false;
        }
        (self.commit_offset_bit & (1u64 << offset_index as u64)) == 0
    }

    /// Merges the consumed counts of the previous batch into this one.
    ///
    /// The same attempt keeps the previous counts. Another attempt counts each queue offset that
    /// both batches list once more than before, and drops the rest.
    pub fn merge_offset_consumed_count(
        &mut self,
        pre_attempt_id: &str,
        pre_offset_list: Vec<u64>,
        prev_offset_consumed_count: HashMap<u64, i32>,
    )
        requires
            old(self)@.merge_fits(
                pre_attempt_id@,
                pre_offset_list@,
                prev_offset_consumed_count@,
            ),
        ensures
            final(self)@ == (OrderInfoView {
                offset_consumed_count: old(self)@.merged_counts(
                    pre_attempt_id@,
                    pre_offset_list@,
                    prev_offset_consumed_count@,
                ),
                ..old(self)@
            }),
    {
        if self.attempt_id == pre_attempt_id.to_owned() {
            self.offset_consumed_count = prev_offset_consumed_count;
            return;
        }
        let ghost own_list = self.offset_list@;
        let ghost pre_list = pre_offset_list@;
        let ghost prev_counts = prev_offset_consumed_count@;
        let mut pre_queue_offset_set: HashSet<u64> = HashSet::new();
        for index in 0..pre_offset_list.len()
            invariant
                pre_list == pre_offset_list@,
                order_model::offsets_fit(pre_list),
                forall|offset: u64| #[trigger]
                    pre_queue_offset_set@.contains(offset) <==> order_model::lists_offset_before(
                        pre_list,
                        index as int,
                        offset as int,
                    ),
        {
            pre_queue_offset_set.insert(Self::get_queue_offset_from_list(&pre_offset_list, index));
        }
        let mut offset_consumed_count: HashMap<u64, i32> = HashMap::new();
        for i in 0..self.offset_list.len()
            invariant
                own_list == self.offset_list@,
                order_model::offsets_fit(own_list),
                prev_counts == prev_offset_consumed_count@,
                forall|offset: u64|
                    #![trigger prev_counts.contains_key(offset)]
                    order_model::lists_offset(own_list, offset as int)
                        && order_model::lists_offset(pre_list, offset as int)
                        && prev_counts.contains_key(offset) ==> prev_counts[offset] < i32::MAX,
                forall|offset: u64| #[trigger]
                    pre_queue_offset_set@.contains(offset) <==> order_model::lists_offset(
                        pre_list,
                        offset as int,
                    ),
                forall|offset: u64| #[trigger]
                    offset_consumed_count@.contains_key(offset)
                        <==> order_model::lists_offset_before(own_list, i as int, offset as int)
                        && order_model::lists_offset(pre_list, offset as int),
                forall|offset: u64| #[trigger]
                    offset_consumed_count@.contains_key(offset) ==> offset_consumed_count@[offset]
                        == order_model::count_once_more(prev_counts, offset),
        {
            let queue_offset: u64 = self.get_queue_offset(i);
            if pre_queue_offset_set.contains(&queue_offset) {
                let mut count: i32 = 1;
                if let Some(pre_count) = prev_offset_consumed_count.get(&queue_offset) {
                    count = count + *pre_count;
                }
                offset_consumed_count.insert(queue_offset, count);
            }
        }
        self.offset_consumed_count = offset_consumed_count;
    }

    /// Gets the queue offset from a list of offsets for a given index.
    pub fn get_queue_offset_from_list(pre_offset_list: &[u64], offset_index: usize) -> (offset: u64)
        requires
            offset_index < pre_offset_list@.len(),
            order_model::offset_at(pre_offset_list@, offset_index as int) <= u64::MAX,
        ensures
            offset == order_model::offset_at(pre_offset_list@, offset_index as int),
    {
        if offset_index == 0 {
            return pre_offset_list[0];
        }
        pre_offset_list[0] + pre_offset_list[offset_index]
    }
}

/// Reads the bits of an unsigned value as a signed one.
fn to_signed(value: u64) -> (signed: i64)
    ensures
        signed == order_model::as_signed(value as int),
{
    assert(value <= 0x7fff_ffff_ffff_ffff ==> value as i64 == value) by (bit_vector);
    assert(value > 0x7fff_ffff_ffff_ffff ==> value as i64 == value - 0x1_0000_0000_0000_0000)
        by (bit_vector);
    #[verifier::truncate]
    (value as i64)
}

} // verus!
