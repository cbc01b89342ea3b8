use vstd::prelude::*;

#[allow(unused_imports)]
use crate::order_model;
#[allow(unused_imports)]
use crate::order_model::OrderInfoView;
#[allow(unused_imports)]
use crate::order_table;
#[allow(unused_imports)]
use crate::order_table::UpdateOutcome;
#[allow(unused_imports)]
use crate::topic_group;

verus! {

/// An offset list stands for exactly the queue offsets that it was built from.
pub proof fn law_offset_list_round_trip(offsets: Seq<u64>)
    requires
        offsets.len() > 0,
        forall|i: int| 0 <= i < offsets.len() ==> offsets[0] <= #[trigger] offsets[i],
    ensures
        order_model::relative_to_first(offsets).len() == offsets.len(),
        forall|i: int|
            0 <= i < offsets.len() ==> #[trigger] order_model::offset_at(
                order_model::relative_to_first(offsets),
                i,
            ) == offsets[i],
        order_model::offsets_fit(order_model::relative_to_first(offsets)),
{
}

/// A list of one offset is stored as it is.
pub proof fn law_single_offset_unchanged(offsets: Seq<u64>)
    requires
        offsets.len() == 1,
    ensures
        order_model::relative_to_first(offsets) == offsets,
{
    assert(order_model::relative_to_first(offsets) =~= offsets);
}

/// While no bit of the bitmap is set, every entry that it tracks is pending.
pub proof fn law_fresh_batch_is_pending(state: OrderInfoView)
    requires
        state.commit_offset_bit == 0,
    ensures
        forall|i: int|
            0 <= i < 64 && i < state.offset_list.len() ==> #[trigger] state.pending(i),
{
    assert forall|i: int| 0 <= i < 64 && i < state.offset_list.len() implies #[trigger] state.pending(
        i,
    ) by {
        let bit = i as u64;
        assert(0u64 & (1u64 << bit) == 0) by (bit_vector);
    }
}

/// To set one bit of the bitmap acknowledges that entry and no other.
pub proof fn law_one_bit_acknowledges_one_entry(state: OrderInfoView, acked: u64, i: int)
    requires
        acked < 64,
    ensures
        (OrderInfoView {
            commit_offset_bit: state.commit_offset_bit | (1u64 << acked),
            ..state
        }).pending(i) == (state.pending(i) && i != acked),
{
    if 0 <= i < 64 {
        let bits = state.commit_offset_bit;
        let bit = i as u64;
        assert(bit != acked ==> (bits | (1u64 << acked)) & (1u64 << bit) == bits & (1u64 << bit))
            by (bit_vector)
            requires
                acked < 64,
                bit < 64,
        ;
        assert((bits | (1u64 << acked)) & (1u64 << acked) != 0) by (bit_vector)
            requires
                acked < 64,
        ;
    }
}

/// Either every entry is acknowledged, or there is exactly one first pending entry.
pub proof fn law_first_pending_exists(state: OrderInfoView)
    ensures
        state.all_acked() <==> !exists|i: int| #[trigger] state.first_pending(i),
        forall|i: int, j: int| #[trigger]
            state.first_pending(i) && #[trigger] state.first_pending(j) ==> i == j,
{
    if !state.all_acked() {
        let i = choose|i: int| #[trigger] state.pending(i);
        lemma_first_pending_up_to(state, i);
    }
}

proof fn lemma_first_pending_up_to(state: OrderInfoView, i: int)
    requires
        state.pending(i),
    ensures
        exists|k: int| #[trigger] state.first_pending(k),
    decreases i,
{
    if !state.first_pending(i) {
        let j = choose|j: int| 0 <= j < i && #[trigger] state.pending(j);
        lemma_first_pending_up_to(state, j);
    }
}

/// To acknowledge one more entry never moves the first pending entry back.
pub proof fn law_acknowledging_moves_forward(
    state: OrderInfoView,
    acked: u64,
    before: int,
    after: int,
)
    requires
        acked < 64,
        state.first_pending(before),
        (OrderInfoView {
            commit_offset_bit: state.commit_offset_bit | (1u64 << acked),
            ..state
        }).first_pending(after),
    ensures
        before <= after,
        acked != before ==> before == after,
{
    law_one_bit_acknowledges_one_entry(state, acked, before);
    law_one_bit_acknowledges_one_entry(state, acked, after);
}

/// In a batch of ascending offsets, consumption goes on at an offset of the batch that is not
/// acknowledged, and every smaller offset of the batch is acknowledged.
pub proof fn law_next_offset_skips_acknowledged(state: OrderInfoView, offsets: Seq<u64>, i: int)
    requires
        offsets.len() > 0,
        forall|j: int, k: int| 0 <= j < k < offsets.len() ==> offsets[j] < offsets[k],
        state.offset_list == order_model::relative_to_first(offsets),
        state.first_pending(i),
    ensures
        state.queue_offset(i) == offsets[i],
        forall|j: int|
            0 <= j < offsets.len() && #[trigger] offsets[j] < offsets[i] ==> !state.pending(j),
{
    law_offset_list_round_trip(offsets);
}

/// An empty batch holds back nothing and has no lock-free timestamp.
pub proof fn law_empty_batch(
    state: OrderInfoView,
    attempt_id: Seq<char>,
    current_invisible_time: u64,
    now: u64,
    timestamp: Option<u64>,
)
    requires
        state.offset_list.len() == 0,
    ensures
        !state.blocks(attempt_id, current_invisible_time, now),
        state.after_need_block(attempt_id, current_invisible_time) == state,
        state.lock_free_timestamp_is(now, timestamp) <==> timestamp is None,
{
}

/// An attempt never waits for its own batch, and asking leaves the batch as it is.
pub proof fn law_own_batch_never_blocks(
    state: OrderInfoView,
    current_invisible_time: u64,
    now: u64,
)
    ensures
        !state.blocks(state.attempt_id, current_invisible_time, now),
        state.after_need_block(state.attempt_id, current_invisible_time) == state,
{
}

/// A batch that is acknowledged as a whole holds back nothing, and its lock is free at once.
pub proof fn law_acknowledged_batch_is_free(
    state: OrderInfoView,
    attempt_id: Seq<char>,
    current_invisible_time: u64,
    now: u64,
    timestamp: Option<u64>,
)
    requires
        state.all_acked(),
        state.offset_list.len() > 0,
    ensures
        !state.blocks(attempt_id, current_invisible_time, now),
        state.lock_free_timestamp_is(now, timestamp) <==> timestamp == Some(now),
{
    let after = state.after_need_block(attempt_id, current_invisible_time);
    assert forall|i: int| !#[trigger] after.holds_back(i, now) by {
        assert(!state.pending(i));
    }
}

/// A request that need not wait now need not wait later either.
pub proof fn law_waiting_ends_for_good(
    state: OrderInfoView,
    attempt_id: Seq<char>,
    current_invisible_time: u64,
    now: u64,
    later: u64,
)
    requires
        now <= later,
        !state.blocks(attempt_id, current_invisible_time, now),
    ensures
        !state.blocks(attempt_id, current_invisible_time, later),
{
    let after = state.after_need_block(attempt_id, current_invisible_time);
    assert forall|i: int| state.concerns(attempt_id) implies !#[trigger] after.holds_back(
        i,
        later,
    ) by {
        assert(!after.holds_back(i, now));
    }
}

/// To ask twice is the same as to ask once.
pub proof fn law_asking_again_changes_nothing(
    state: OrderInfoView,
    attempt_id: Seq<char>,
    current_invisible_time: u64,
    now: u64,
)
    ensures
        ({
            let after = state.after_need_block(attempt_id, current_invisible_time);
            &&& after.after_need_block(attempt_id, current_invisible_time) == after
            &&& after.blocks(attempt_id, current_invisible_time, now) == state.blocks(
                attempt_id,
                current_invisible_time,
                now,
            )
        }),
{
}

/// Once a batch has taken over an invisible time other than zero, no later request changes it.
pub proof fn law_invisible_time_is_kept(
    state: OrderInfoView,
    attempt_id: Seq<char>,
    current_invisible_time: u64,
    later_attempt_id: Seq<char>,
    later_invisible_time: u64,
)
    requires
        state.concerns(attempt_id),
        current_invisible_time != 0 || state.has_invisible_time(),
    ensures
        ({
            let after = state.after_need_block(attempt_id, current_invisible_time);
            &&& after.has_invisible_time()
            &&& after.after_need_block(later_attempt_id, later_invisible_time) == after
        }),
{
}

/// A state has exactly one lock-free timestamp at a given time, and never one in the past.
pub proof fn law_lock_free_timestamp_is_one_value(
    state: OrderInfoView,
    now: u64,
    timestamp: Option<u64>,
    other: Option<u64>,
)
    requires
        state.lock_free_timestamp_is(now, timestamp),
        state.lock_free_timestamp_is(now, other),
    ensures
        timestamp == other,
        timestamp is Some ==> now <= timestamp->0,
{
    if state.offset_list.len() > 0 && !state.all_acked() && state.has_invisible_time() && exists|
        i: int,
    |
        state.holds_back(i, now) {
        let i = choose|i: int| #[trigger]
            state.first_holding_back(i, now) && state.next_visible(i) == timestamp->0;
        let j = choose|j: int| #[trigger]
            state.first_holding_back(j, now) && state.next_visible(j) == other->0;
        assert(state.holds_back(i, now) && state.holds_back(j, now));
        assert(i == j);
    }
}

/// The lock-free timestamp lies in the future exactly as long as requests of other attempts have
/// to wait.
pub proof fn law_lock_is_free_when_nothing_blocks(
    state: OrderInfoView,
    attempt_id: Seq<char>,
    current_invisible_time: u64,
    now: u64,
    timestamp: Option<u64>,
)
    requires
        state.concerns(attempt_id),
        state.has_invisible_time(),
        state.lock_free_timestamp_is(now, timestamp),
    ensures
        timestamp is Some,
        now < timestamp->0 <==> state.blocks(attempt_id, current_invisible_time, now),
{
    assert(state.after_need_block(attempt_id, current_invisible_time) == state);
    if exists|i: int| state.holds_back(i, now) {
        let i = choose|i: int| #[trigger] state.holds_back(i, now);
        assert(state.pending(i));
        let k = choose|k: int| #[trigger]
            state.first_holding_back(k, now) && state.next_visible(k) == timestamp->0;
        assert(state.holds_back(k, now));
    }
}

/// A visible time that was set holds for the entries of that offset, and for no other entry.
pub proof fn law_visible_time_is_read_back(
    state: OrderInfoView,
    queue_offset: u64,
    next_visible_time: u64,
    i: int,
)
    ensures
        ({
            let after = state.with_next_visible_time(queue_offset, next_visible_time);
            &&& after.pending(i) == state.pending(i)
            &&& after.queue_offset(i) == state.queue_offset(i)
            &&& after.next_visible(i) == if state.queue_offset(i) == queue_offset {
                next_visible_time as int
            } else {
                state.next_visible(i)
            }
        }),
{
}

/// To set the visible time of a pending offset into the future makes other attempts wait.
pub proof fn law_future_visible_time_blocks(
    state: OrderInfoView,
    queue_offset: u64,
    next_visible_time: u64,
    i: int,
    attempt_id: Seq<char>,
    current_invisible_time: u64,
    now: u64,
)
    requires
        state.concerns(attempt_id),
        state.pending(i),
        state.queue_offset(i) == queue_offset,
        now < next_visible_time,
    ensures
        state.with_next_visible_time(queue_offset, next_visible_time).blocks(
            attempt_id,
            current_invisible_time,
            now,
        ),
{
    let after = state.with_next_visible_time(
        queue_offset,
        next_visible_time,
    ).after_need_block(attempt_id, current_invisible_time);
    assert(after.pending(i));
    assert(after.holds_back(i, now));
}

/// A merge for the same attempt keeps the previous counts.
pub proof fn law_same_attempt_keeps_counts(
    state: OrderInfoView,
    pre_offset_list: Seq<u64>,
    prev_counts: Map<u64, i32>,
)
    ensures
        state.merged_counts(state.attempt_id, pre_offset_list, prev_counts) == prev_counts,
{
}

/// A merge for another attempt counts the offsets that both batches list, each once more than the
/// previous batch did, and no other offset.
pub proof fn law_redelivery_counts_once_more(
    state: OrderInfoView,
    pre_attempt_id: Seq<char>,
    pre_offset_list: Seq<u64>,
    prev_counts: Map<u64, i32>,
    offset: u64,
)
    requires
        pre_attempt_id != state.attempt_id,
        state.merge_fits(pre_attempt_id, pre_offset_list, prev_counts),
    ensures
        ({
            let merged = state.merged_counts(pre_attempt_id, pre_offset_list, prev_counts);
            &&& merged.contains_key(offset) <==> order_model::lists_offset(
                state.offset_list,
                offset as int,
            ) && order_model::lists_offset(pre_offset_list, offset as int)
            &&& merged.contains_key(offset) && prev_counts.contains_key(offset) ==> merged[offset]
                == prev_counts[offset] + 1
            &&& merged.contains_key(offset) && !prev_counts.contains_key(offset) ==> merged[offset]
                == 1
        }),
{
}

/// A refused update leaves the table as it is.
pub proof fn law_refused_update_changes_nothing(
    table: Map<Seq<char>, Map<i32, OrderInfoView>>,
    key: Seq<char>,
    queue_id: i32,
    queue_offset: u64,
    pop_time: u64,
    next_visible_time: u64,
)
    requires
        order_table::update_outcome(table, key, queue_id, pop_time) != UpdateOutcome::Updated,
    ensures
        order_table::updated_table(
            table,
            key,
            queue_id,
            queue_offset,
            pop_time,
            next_visible_time,
        ) == table,
{
}

/// An update reaches the order info of its own key and queue only, and adds or removes none.
pub proof fn law_update_reaches_one_queue(
    table: Map<Seq<char>, Map<i32, OrderInfoView>>,
    key: Seq<char>,
    queue_id: i32,
    queue_offset: u64,
    pop_time: u64,
    next_visible_time: u64,
    other_key: Seq<char>,
    other_queue_id: i32,
)
    ensures
        ({
            let after = order_table::updated_table(
                table,
                key,
                queue_id,
                queue_offset,
                pop_time,
                next_visible_time,
            );
            &&& after.contains_key(other_key) == table.contains_key(other_key)
            &&& table.contains_key(other_key) ==> after[other_key].contains_key(other_queue_id)
                == table[other_key].contains_key(other_queue_id)
            &&& table.contains_key(other_key) && table[other_key].contains_key(other_queue_id) && (
            other_key != key || other_queue_id != queue_id) ==> after[other_key][other_queue_id]
                == table[other_key][other_queue_id]
        }),
{
}

/// An update that is carried out can be read back, keeps the rest of the order info, and may be
/// repeated to no effect.
pub proof fn law_update_is_read_back(
    table: Map<Seq<char>, Map<i32, OrderInfoView>>,
    key: Seq<char>,
    queue_id: i32,
    queue_offset: u64,
    pop_time: u64,
    next_visible_time: u64,
)
    requires
        order_table::update_outcome(table, key, queue_id, pop_time) == UpdateOutcome::Updated,
    ensures
        ({
            let after = order_table::updated_table(
                table,
                key,
                queue_id,
                queue_offset,
                pop_time,
                next_visible_time,
            );
            &&& after.contains_key(key)
            &&& after[key].contains_key(queue_id)
            &&& after[key][queue_id] == table[key][queue_id].with_next_visible_time(
                queue_offset,
                next_visible_time,
            )
            &&& order_table::update_outcome(after, key, queue_id, pop_time)
                == UpdateOutcome::Updated
            &&& order_table::updated_table(
                after,
                key,
                queue_id,
                queue_offset,
                pop_time,
                next_visible_time,
            ) == after
        }),
{
    let after = order_table::updated_table(
        table,
        key,
        queue_id,
        queue_offset,
        pop_time,
        next_visible_time,
    );
    let info = after[key][queue_id];
    assert(info.with_next_visible_time(queue_offset, next_visible_time) =~= info);
    assert(after[key].insert(queue_id, info) =~= after[key]);
    assert(after.insert(key, after[key]) =~= after);
}

/// Two pairs of topic and group share a key only where they are the same pair, or where the
/// separator occurs in the topic of one and in the group of the other.
pub proof fn law_keys_are_distinct(
    topic: Seq<char>,
    group: Seq<char>,
    other_topic: Seq<char>,
    other_group: Seq<char>,
)
    requires
        topic_group::key_of(topic, group) == topic_group::key_of(other_topic, other_group),
    ensures
        ({
            ||| topic == other_topic && group == other_group
            ||| topic.contains(topic_group::TOPIC_GROUP_SEPARATOR) && other_group.contains(
                topic_group::TOPIC_GROUP_SEPARATOR,
            )
            ||| other_topic.contains(topic_group::TOPIC_GROUP_SEPARATOR) && group.contains(
                topic_group::TOPIC_GROUP_SEPARATOR,
            )
        }),
{
    let separator = topic_group::TOPIC_GROUP_SEPARATOR;
    let n = topic.len() as int;
    let m = other_topic.len() as int;
    let key = topic_group::key_of(topic, group);
    let other_key = topic_group::key_of(other_topic, other_group);
    assert(key.len() == n + 1 + group.len());
    assert(other_key.len() == m + 1 + other_group.len());
    assert(key[n] == separator && other_key[m] == separator);
    if n == m {
        assert(topic =~= key.take(n) && other_topic =~= other_key.take(n));
        assert(group =~= key.skip(n + 1) && other_group =~= other_key.skip(n + 1));
    } else if n < m {
        assert(other_topic[n] == other_key[n]);
        assert(group[m - (n + 1)] == key[m]);
        assert(other_topic.contains(separator) && group.contains(separator));
    } else {
        assert(topic[m] == key[m]);
        assert(other_group[n - (m + 1)] == other_key[n]);
        assert(topic.contains(separator) && other_group.contains(separator));
    }
}

} // verus!
