//! What each operation does, told by the fields of its input and by what it returns.

use vstd::arithmetic::power2::*;
use vstd::prelude::*;

use crate::clock;
use crate::manager::ConsumerOrderInfoManager;
use crate::order_info::OrderInfo;
#[allow(unused_imports)]
use crate::order_model;
#[allow(unused_imports)]
use crate::order_model::OrderInfoView;
#[allow(unused_imports)]
use crate::order_table;
#[allow(unused_imports)]
use crate::order_table::TopicGroupOrders;
#[allow(unused_imports)]
use crate::order_table::UpdateOutcome;
#[allow(unused_imports)]
use crate::topic_group;

verus! {

/// The abstract value of an order info has the contents of each of its fields.
pub proof fn law_view_shows_every_field(info: OrderInfo)
    ensures
        info@.pop_time == info.pop_time,
        info@.invisible_time == info.invisible_time,
        info@.offset_list == info.offset_list@,
        info@.offset_next_visible_time == info.offset_next_visible_time@,
        info@.offset_consumed_count == info.offset_consumed_count@,
        info@.last_consume_timestamp == info.last_consume_timestamp,
        info@.commit_offset_bit == info.commit_offset_bit,
        info@.attempt_id == info.attempt_id@,
{
}

/// A stored offset list starts with the first offset, and each later entry and the first offset
/// add up to the offset that the entry was made from.
pub proof fn law_stored_distance_and_first_add_up(offsets: Vec<u64>, list: Vec<u64>, i: int)
    requires
        0 <= i < offsets@.len(),
        forall|j: int| 0 <= j < offsets@.len() ==> offsets@[0] <= #[trigger] offsets@[j],
        call_ensures(OrderInfo::build_offset_list, (offsets,), list),
    ensures
        list@.len() == offsets@.len(),
        list@[0] == offsets@[0],
        i > 0 ==> list@[i] + list@[0] == offsets@[i],
{
}

/// The queue offset of the first entry is the entry itself; that of a later one is the sum of it
/// and the first.
pub proof fn law_queue_offset_adds_the_first(info: OrderInfo, i: usize, offset: u64)
    requires
        i < info.offset_list@.len(),
        call_ensures(OrderInfo::get_queue_offset, (&info, i), offset),
    ensures
        i == 0 ==> offset == info.offset_list@[0],
        i > 0 ==> offset == info.offset_list@[0] + info.offset_list@[i as int],
{
}

/// An index is not acknowledged exactly where it is below 64 and the binary digit of that index in
/// the bitmap is zero.
pub proof fn law_not_acknowledged_is_a_zero_digit(info: OrderInfo, i: usize, not_ack: bool)
    requires
        call_ensures(OrderInfo::is_not_ack, (&info, i), not_ack),
    ensures
        not_ack <==> i < 64 && (info.commit_offset_bit as nat / pow2(i as nat)) % 2 == 0,
{
    if i < 64 {
        lemma_digit(info.commit_offset_bit, i as u64);
    }
}

/// A bit is set exactly where the binary digit of that index is one.
proof fn lemma_digit(bits: u64, i: u64)
    requires
        i < 64,
    ensures
        (bits & (1u64 << i) == 0) <==> (bits as nat / pow2(i as nat)) % 2 == 0,
{
    vstd::bits::lemma_u64_shr_is_div(bits, i);
    let high = bits >> i;
    assert((bits & (1u64 << i) == 0) <==> high % 2 == 0) by (bit_vector)
        requires
            i < 64,
            high == bits >> i,
    ;
}

/// A request waits exactly for the offsets that are hidden from it: it is of another attempt than
/// the batch, and some entry that the bitmap tracks has no bit there and becomes visible after
/// `now`, which is at the time set for its offset or, where none is set, at the pop time plus the
/// invisible time.
pub proof fn law_waits_exactly_for_hidden_offsets(
    info: OrderInfo,
    attempt_id: Seq<char>,
    current_invisible_time: u64,
    invisible_time: u64,
    now: u64,
)
    requires
        invisible_time == (match info.invisible_time {
            Some(own) if own != 0 => own,
            _ => current_invisible_time,
        }),
    ensures
        info@.blocks(attempt_id, current_invisible_time, now) <==> info.attempt_id@ != attempt_id
            && exists|i: int|
            {
                let entry = #[trigger] info.offset_list@[i];
                let offset: int = if i == 0 {
                    entry as int
                } else {
                    info.offset_list@[0] + entry
                };
                &&& 0 <= i < info.offset_list@.len()
                &&& i < 64
                &&& info.commit_offset_bit & (1u64 << (i as u64)) == 0
                &&& now < if offset <= u64::MAX && info.offset_next_visible_time@.contains_key(
                    offset as u64,
                ) {
                    info.offset_next_visible_time@[offset as u64] as int
                } else {
                    info.pop_time + invisible_time
                }
            },
{
    let after = info@.after_need_block(attempt_id, current_invisible_time);
    if info@.blocks(attempt_id, current_invisible_time, now) {
        let i = choose|i: int| #[trigger] after.holds_back(i, now);
        let entry = info.offset_list@[i];
        assert(after.pending(i));
    } else {
        assert forall|i: int|
            info.attempt_id@ != attempt_id && 0 <= i < info.offset_list@.len() implies !#[trigger] after.holds_back(
            i,
            now,
        ) by {}
        assert forall|i: int| 0 <= i < info.offset_list@.len() && info.attempt_id@ != attempt_id implies {
            let entry = #[trigger] info.offset_list@[i];
            !after.holds_back(i, now)
        } by {}
    }
}

/// An entry without a bit and without a time of its own makes another attempt wait up to the pop
/// time plus the invisible time, and no longer.
pub proof fn law_unacknowledged_entry_hides_for_the_invisible_time(
    info: OrderInfo,
    attempt_id: Seq<char>,
    current_invisible_time: u64,
    invisible_time: u64,
    now: u64,
    i: int,
)
    requires
        info.attempt_id@ != attempt_id,
        info.invisible_time == Some(invisible_time),
        invisible_time != 0,
        0 <= i < info.offset_list@.len(),
        i < 64,
        info.commit_offset_bit & (1u64 << (i as u64)) == 0,
        info.offset_next_visible_time@ == Map::<u64, u64>::empty(),
    ensures
        info@.blocks(attempt_id, current_invisible_time, now) <==> now < info.pop_time
            + invisible_time,
{
    law_waits_exactly_for_hidden_offsets(
        info,
        attempt_id,
        current_invisible_time,
        invisible_time,
        now,
    );
    let entry = info.offset_list@[i];
}

/// A request can only change the invisible time, and only that of another attempt's batch which
/// has none, or zero.
pub proof fn law_request_lends_its_invisible_time(
    info: OrderInfo,
    attempt_id: Seq<char>,
    current_invisible_time: u64,
)
    ensures
        ({
            let after = info@.after_need_block(attempt_id, current_invisible_time);
            &&& after.invisible_time == if info.offset_list@.len() > 0 && info.attempt_id@
                != attempt_id && (info.invisible_time is None || info.invisible_time == Some(0u64)) {
                Some(current_invisible_time)
            } else {
                info.invisible_time
            }
            &&& after.pop_time == info.pop_time
            &&& after.offset_list == info.offset_list@
            &&& after.offset_next_visible_time == info.offset_next_visible_time@
            &&& after.offset_consumed_count == info.offset_consumed_count@
            &&& after.last_consume_timestamp == info.last_consume_timestamp
            &&& after.commit_offset_bit == info.commit_offset_bit
            &&& after.attempt_id == info.attempt_id@
        }),
{
}

/// By the clock: where every time that the clock shows is at or past the visible time of a batch
/// without times of single offsets, nobody waits; where every one is before it, and some entry is
/// not acknowledged, another attempt waits.
pub proof fn law_need_block_goes_by_the_clock(
    info: OrderInfo,
    attempt_id: Seq<char>,
    current_invisible_time: u64,
    invisible_time: u64,
    blocked: bool,
    i: int,
)
    requires
        exists|now: u64|
            clock::clock_showed(now) && blocked == #[trigger] info@.blocks(
                attempt_id,
                current_invisible_time,
                now,
            ),
        info.attempt_id@ != attempt_id,
        info.invisible_time == Some(invisible_time),
        invisible_time != 0,
        0 <= i < info.offset_list@.len(),
        i < 64,
        info.commit_offset_bit & (1u64 << (i as u64)) == 0,
        info.offset_next_visible_time@ == Map::<u64, u64>::empty(),
    ensures
        (forall|now: u64| #[trigger]
            clock::clock_showed(now) ==> info.pop_time + invisible_time <= now) ==> !blocked,
        (forall|now: u64| #[trigger]
            clock::clock_showed(now) ==> now < info.pop_time + invisible_time) ==> blocked,
{
    let now = choose|now: u64|
        clock::clock_showed(now) && blocked == #[trigger] info@.blocks(
            attempt_id,
            current_invisible_time,
            now,
        );
    law_unacknowledged_entry_hides_for_the_invisible_time(
        info,
        attempt_id,
        current_invisible_time,
        invisible_time,
        now,
        i,
    );
}

/// The lock on a batch is held until the first hidden entry becomes visible: at the time set for
/// its offset or, where none is set, at the pop time plus the invisible time. An entry is passed
/// over where it is acknowledged or visible already.
pub proof fn law_lock_waits_for_the_first_hidden_entry(
    info: OrderInfo,
    now: u64,
    timestamp: Option<u64>,
    invisible_time: u64,
    i: int,
    visible: Seq<int>,
)
    requires
        call_ensures(OrderInfo::get_lock_free_timestamp_at, (&info, now), timestamp),
        info.invisible_time == Some(invisible_time),
        invisible_time != 0,
        visible.len() == info.offset_list@.len(),
        forall|j: int|
            0 <= j < visible.len() ==> {
                let entry = info.offset_list@[j];
                let offset: int = if j == 0 {
                    entry as int
                } else {
                    info.offset_list@[0] + entry
                };
                #[trigger] visible[j] == if offset <= u64::MAX
                    && info.offset_next_visible_time@.contains_key(offset as u64) {
                    info.offset_next_visible_time@[offset as u64] as int
                } else {
                    info.pop_time + invisible_time
                }
            },
        0 <= i < info.offset_list@.len(),
        i < 64,
        info.commit_offset_bit & (1u64 << (i as u64)) == 0,
        now < visible[i],
        forall|j: int|
            0 <= j < i ==> #[trigger] visible[j] <= now || info.commit_offset_bit & (1u64 << (
            j as u64)) != 0,
    ensures
        timestamp is Some,
        timestamp->0 == visible[i],
{
    assert forall|j: int| 0 <= j < visible.len() implies info@.next_visible(j) == #[trigger] visible[j] by {}
    assert(info@.holds_back(i, now));
    assert forall|j: int| 0 <= j < i implies !#[trigger] info@.holds_back(j, now) by {
        assert(info@.next_visible(j) == visible[j]);
    }
    assert(info@.first_holding_back(i, now));
    assert(info@.pending(i));
    let k = choose|k: int| #[trigger]
        info@.first_holding_back(k, now) && info@.next_visible(k) == timestamp->0;
    assert(info@.holds_back(k, now));
    assert(k == i);
}

/// The lock on a batch without times of single offsets is held for the invisible time after the
/// pop: until then the timestamp is the pop time plus the invisible time, from then on it is the
/// time of the call.
pub proof fn law_lock_is_held_for_the_invisible_time(
    info: OrderInfo,
    now: u64,
    timestamp: Option<u64>,
    invisible_time: u64,
    i: int,
)
    requires
        call_ensures(OrderInfo::get_lock_free_timestamp_at, (&info, now), timestamp),
        info.invisible_time == Some(invisible_time),
        invisible_time != 0,
        info.offset_next_visible_time@ == Map::<u64, u64>::empty(),
        0 <= i < info.offset_list@.len(),
        i < 64,
        info.commit_offset_bit & (1u64 << (i as u64)) == 0,
    ensures
        timestamp is Some,
        now < info.pop_time + invisible_time ==> timestamp->0 == info.pop_time + invisible_time,
        now >= info.pop_time + invisible_time ==> timestamp->0 == now,
{
    assert(info@.pending(i));
    assert(info@.holds_back(i, now) <==> now < info.pop_time + invisible_time);
    if exists|j: int| info@.holds_back(j, now) {
        let k = choose|k: int| #[trigger]
            info@.first_holding_back(k, now) && info@.next_visible(k) == timestamp->0;
        assert(info@.holds_back(k, now));
    }
}

/// The lock is free at the time of the call where each entry is acknowledged, is past what the
/// bitmap tracks, or is visible already.
pub proof fn law_lock_is_free_at_once(
    info: OrderInfo,
    now: u64,
    timestamp: Option<u64>,
    invisible_time: u64,
)
    requires
        call_ensures(OrderInfo::get_lock_free_timestamp_at, (&info, now), timestamp),
        info.offset_list@.len() > 0,
        info.invisible_time == Some(invisible_time) && invisible_time != 0 || (forall|i: int|
            0 <= i < info.offset_list@.len() && i < 64 ==> info.commit_offset_bit & (
            1u64 << #[trigger] (i as u64)) != 0),
        forall|i: int|
            0 <= i < info.offset_list@.len() && i < 64 ==> {
                let entry = #[trigger] info.offset_list@[i];
                let offset: int = if i == 0 {
                    entry as int
                } else {
                    info.offset_list@[0] + entry
                };
                ||| info.commit_offset_bit & (1u64 << (i as u64)) != 0
                ||| now >= if offset <= u64::MAX && info.offset_next_visible_time@.contains_key(
                    offset as u64,
                ) {
                    info.offset_next_visible_time@[offset as u64] as int
                } else {
                    info.pop_time + invisible_time
                }
            },
    ensures
        timestamp == Some(now),
{
    if !info@.has_invisible_time() {
        assert forall|i: int| !#[trigger] info@.pending(i) by {
            let _ = i as u64;
        }
        assert(info@.all_acked());
    } else {
        assert forall|i: int| !#[trigger] info@.holds_back(i, now) by {
            if 0 <= i < info.offset_list@.len() {
                let entry = info.offset_list@[i];
                let _ = i as u64;
            }
        }
    }
}

/// There is no lock-free timestamp for an empty batch, nor for one that has an entry without a bit
/// and no invisible time, or zero.
pub proof fn law_no_lock_free_timestamp(
    info: OrderInfo,
    now: u64,
    timestamp: Option<u64>,
    i: int,
)
    requires
        call_ensures(OrderInfo::get_lock_free_timestamp_at, (&info, now), timestamp),
        info.offset_list@.len() == 0 || {
            &&& info.invisible_time is None || info.invisible_time == Some(0u64)
            &&& 0 <= i < info.offset_list@.len()
            &&& i < 64
            &&& info.commit_offset_bit & (1u64 << (i as u64)) == 0
        },
    ensures
        timestamp is None,
{
    if info.offset_list@.len() > 0 {
        assert(info@.pending(i));
    }
}

/// By the clock: the lock on a wholly acknowledged batch is free at a time that the clock showed.
pub proof fn law_lock_is_free_by_the_clock(info: OrderInfo, timestamp: Option<u64>)
    requires
        call_ensures(OrderInfo::get_lock_free_timestamp, (&info,), timestamp),
        info.offset_list@.len() > 0,
        forall|i: int|
            0 <= i < info.offset_list@.len() && i < 64 ==> info.commit_offset_bit & (
            1u64 << #[trigger] (i as u64)) != 0,
    ensures
        timestamp is Some,
        clock::clock_showed(timestamp->0),
{
    assert forall|i: int| !#[trigger] info@.pending(i) by {
        let _ = i as u64;
    }
    assert(info@.all_acked());
}

/// Consumption goes on at the offset of the first entry without a bit, as it stands where it fits
/// in a signed number, and less two to the power of 64 where it does not.
pub proof fn law_next_offset_is_that_of_the_first_open_entry(
    info: OrderInfo,
    next_offset: i64,
    i: int,
    offset: int,
)
    requires
        call_ensures(OrderInfo::get_next_offset, (&info,), next_offset),
        0 <= i < info.offset_list@.len(),
        i < 64,
        info.commit_offset_bit & (1u64 << (i as u64)) == 0,
        forall|j: int|
            0 <= j < i ==> info.commit_offset_bit & (1u64 << #[trigger] (j as u64)) != 0,
        offset == info.offset_list@[i] + (if i == 0 {
            0
        } else {
            info.offset_list@[0] as int
        }),
    ensures
        offset <= i64::MAX ==> next_offset == offset,
        i64::MAX < offset ==> next_offset == offset - 0x1_0000_0000_0000_0000,
{
    assert forall|j: int| 0 <= j < i implies !#[trigger] info@.pending(j) by {
        let _ = j as u64;
    }
    assert(info@.first_pending(i));
}

/// Consumption goes on right after the last offset of a batch each entry of which has its bit set
/// or is past what the bitmap tracks, and at -2 where the batch is empty.
pub proof fn law_next_offset_follows_a_whole_batch(
    info: OrderInfo,
    next_offset: i64,
    last: int,
)
    requires
        call_ensures(OrderInfo::get_next_offset, (&info,), next_offset),
        forall|i: int|
            0 <= i < info.offset_list@.len() && i < 64 ==> info.commit_offset_bit & (
            1u64 << #[trigger] (i as u64)) != 0,
        info.offset_list@.len() > 0 ==> last == info.offset_list@.last() + (
        if info.offset_list@.len() == 1 {
            0
        } else {
            info.offset_list@[0] as int
        }),
    ensures
        info.offset_list@.len() == 0 ==> next_offset == -2,
        info.offset_list@.len() > 0 && last <= i64::MAX ==> next_offset == last + 1,
        info.offset_list@.len() > 0 && i64::MAX < last ==> next_offset == last
            - 0x1_0000_0000_0000_0000 + 1,
{
    assert forall|i: int| !#[trigger] info@.pending(i) by {
        let _ = i as u64;
    }
    assert(info@.all_acked());
}

/// To set the visible time of an offset changes that one time and no other field.
pub proof fn law_one_visible_time_is_set(info: OrderInfo, queue_offset: u64, next_visible_time: u64)
    ensures
        ({
            let after = info@.with_next_visible_time(queue_offset, next_visible_time);
            &&& after.offset_next_visible_time == info.offset_next_visible_time@.insert(
                queue_offset,
                next_visible_time,
            )
            &&& after.pop_time == info.pop_time
            &&& after.invisible_time == info.invisible_time
            &&& after.offset_list == info.offset_list@
            &&& after.offset_consumed_count == info.offset_consumed_count@
            &&& after.last_consume_timestamp == info.last_consume_timestamp
            &&& after.commit_offset_bit == info.commit_offset_bit
            &&& after.attempt_id == info.attempt_id@
        }),
{
}

/// Whatever the indices, the first included: an offset that the batch has at one index and the
/// previous batch of another attempt at one is counted, once more than before.
pub proof fn law_redelivered_offset_is_counted(
    info: OrderInfo,
    pre_attempt_id: Seq<char>,
    pre_offset_list: Seq<u64>,
    prev_counts: Map<u64, i32>,
    i: int,
    j: int,
    offset: u64,
)
    requires
        pre_attempt_id != info.attempt_id@,
        info@.merge_fits(pre_attempt_id, pre_offset_list, prev_counts),
        0 <= i < info.offset_list@.len(),
        0 <= j < pre_offset_list.len(),
        offset == info.offset_list@[i] + (if i == 0 {
            0
        } else {
            info.offset_list@[0] as int
        }),
        offset == pre_offset_list[j] + (if j == 0 {
            0
        } else {
            pre_offset_list[0] as int
        }),
    ensures
        ({
            let merged = info@.merged_counts(pre_attempt_id, pre_offset_list, prev_counts);
            &&& merged.contains_key(offset)
            &&& !prev_counts.contains_key(offset) ==> merged[offset] == 1
            &&& prev_counts.contains_key(offset) ==> merged[offset] == prev_counts[offset] + 1
        }),
{
    assert(order_model::offset_at(info.offset_list@, i) == offset);
    assert(order_model::offset_at(pre_offset_list, j) == offset);
    assert(order_model::lists_offset(info.offset_list@, offset as int));
    assert(order_model::lists_offset(pre_offset_list, offset as int));
}

/// An offset that one of the two batches has at no index is not counted, where the attempts
/// differ; where they are the same, the previous counts are kept.
pub proof fn law_other_offsets_are_not_counted(
    info: OrderInfo,
    pre_attempt_id: Seq<char>,
    pre_offset_list: Seq<u64>,
    prev_counts: Map<u64, i32>,
    offset: u64,
)
    ensures
        pre_attempt_id == info.attempt_id@ ==> info@.merged_counts(
            pre_attempt_id,
            pre_offset_list,
            prev_counts,
        ) == prev_counts,
        pre_attempt_id != info.attempt_id@ && (forall|i: int|
            0 <= i < info.offset_list@.len() ==> offset != #[trigger] info.offset_list@[i] + (
            if i == 0 {
                0
            } else {
                info.offset_list@[0] as int
            })) ==> !info@.merged_counts(
            pre_attempt_id,
            pre_offset_list,
            prev_counts,
        ).contains_key(offset),
        pre_attempt_id != info.attempt_id@ && (forall|j: int|
            0 <= j < pre_offset_list.len() ==> offset != #[trigger] pre_offset_list[j] + (if j
                == 0 {
                0
            } else {
                pre_offset_list[0] as int
            })) ==> !info@.merged_counts(
            pre_attempt_id,
            pre_offset_list,
            prev_counts,
        ).contains_key(offset),
{
    if order_model::lists_offset(info.offset_list@, offset as int) {
        let i = choose|i: int|
            0 <= i < info.offset_list@.len() && #[trigger] order_model::offset_at(
                info.offset_list@,
                i,
            ) == offset;
        let entry = info.offset_list@[i];
    }
    if order_model::lists_offset(pre_offset_list, offset as int) {
        let j = choose|j: int|
            0 <= j < pre_offset_list.len() && #[trigger] order_model::offset_at(pre_offset_list, j)
                == offset;
        let entry = pre_offset_list[j];
    }
}

/// An update is carried out for the batch of the very same pop time only. Any other pop time,
/// earlier or later, is refused as such, and a key or a queue that is not there as that; the table
/// then stays as it is.
pub proof fn law_only_the_same_pop_time_is_updated(
    table: Map<Seq<char>, Map<i32, OrderInfoView>>,
    key: Seq<char>,
    queue_id: i32,
    queue_offset: u64,
    pop_time: u64,
    next_visible_time: u64,
)
    ensures
        ({
            let outcome = order_table::update_outcome(table, key, queue_id, pop_time);
            let known = table.contains_key(key) && table[key].contains_key(queue_id);
            &&& outcome is NoSuchKey <==> !table.contains_key(key)
            &&& outcome is NoSuchQueue <==> table.contains_key(key)
                && !table[key].contains_key(queue_id)
            &&& outcome is PopTimeMismatch <==> known && (pop_time < table[key][queue_id].pop_time
                || table[key][queue_id].pop_time < pop_time)
            &&& outcome is Updated <==> known && pop_time == table[key][queue_id].pop_time
            &&& !(known && pop_time == table[key][queue_id].pop_time) ==> order_table::updated_table(
                table,
                key,
                queue_id,
                queue_offset,
                pop_time,
                next_visible_time,
            ) == table
        }),
{
}

/// An update that is carried out sets the visible time of the offset in the order info of the key
/// and the queue, and nothing else anywhere.
pub proof fn law_update_sets_one_visible_time(
    table: Map<Seq<char>, Map<i32, OrderInfoView>>,
    key: Seq<char>,
    queue_id: i32,
    queue_offset: u64,
    pop_time: u64,
    next_visible_time: u64,
)
    requires
        table.contains_key(key),
        table[key].contains_key(queue_id),
        table[key][queue_id].pop_time == pop_time,
    ensures
        ({
            let before = table[key][queue_id];
            let after = order_table::updated_table(
                table,
                key,
                queue_id,
                queue_offset,
                pop_time,
                next_visible_time,
            );
            &&& after.dom() == table.dom()
            &&& after.remove(key) == table.remove(key)
            &&& after[key].dom() == table[key].dom()
            &&& after[key].remove(queue_id) == table[key].remove(queue_id)
            &&& after[key][queue_id].offset_next_visible_time
                == before.offset_next_visible_time.insert(queue_offset, next_visible_time)
            &&& after[key][queue_id].pop_time == before.pop_time
            &&& after[key][queue_id].invisible_time == before.invisible_time
            &&& after[key][queue_id].offset_list == before.offset_list
            &&& after[key][queue_id].offset_consumed_count == before.offset_consumed_count
            &&& after[key][queue_id].last_consume_timestamp == before.last_consume_timestamp
            &&& after[key][queue_id].commit_offset_bit == before.commit_offset_bit
            &&& after[key][queue_id].attempt_id == before.attempt_id
        }),
{
    let after = order_table::updated_table(
        table,
        key,
        queue_id,
        queue_offset,
        pop_time,
        next_visible_time,
    );
    assert(after.dom() =~= table.dom());
    assert(after.remove(key) =~= table.remove(key));
    assert(after[key].dom() =~= table[key].dom());
    assert(after[key].remove(queue_id) =~= table[key].remove(queue_id));
}

/// The table has, under the key of each entry, the order info of each of its queues, and nothing
/// under any other key or queue.
pub proof fn law_table_holds_its_entries(entries: Seq<TopicGroupOrders>)
    requires
        forall|i: int, j: int|
            0 <= i < j < entries.len() ==> (#[trigger] entries[i]).key@ != (
            #[trigger] entries[j]).key@,
    ensures
        order_table::keys_distinct(entries),
        forall|i: int|
            0 <= i < entries.len() ==> {
                let key = (#[trigger] entries[i]).key@;
                let queues = order_table::entries_view(entries)[key];
                &&& order_table::entries_view(entries).contains_key(key)
                &&& queues.dom() == entries[i].queues@.dom()
                &&& forall|queue_id: i32|
                    entries[i].queues@.contains_key(queue_id) ==> #[trigger] queues[queue_id]
                        == entries[i].queues@[queue_id]@
            },
        forall|key: Seq<char>| #[trigger]
            order_table::entries_view(entries).contains_key(key) ==> exists|i: int|
                0 <= i < entries.len() && (#[trigger] entries[i]).key@ == key,
{
    assert forall|i: int| 0 <= i < entries.len() implies {
        let key = (#[trigger] entries[i]).key@;
        let queues = order_table::entries_view(entries)[key];
        &&& order_table::entries_view(entries).contains_key(key)
        &&& queues.dom() == entries[i].queues@.dom()
        &&& forall|queue_id: i32|
            entries[i].queues@.contains_key(queue_id) ==> #[trigger] queues[queue_id]
                == entries[i].queues@[queue_id]@
    } by {
        order_table::lemma_entry_at(entries, i);
        law_queues_keep_their_order_infos(entries[i].queues@);
    }
    assert forall|key: Seq<char>| #[trigger]
        order_table::entries_view(entries).contains_key(key) implies exists|i: int|
        0 <= i < entries.len() && (#[trigger] entries[i]).key@ == key by {
        let i = choose|i: int| order_table::has_key(entries, i, key);
        assert(order_table::has_key(entries, i, key));
        let entry = entries[i];
    }
}

/// Two entries of a table never share a key.
pub proof fn law_entries_have_distinct_keys(entries: Seq<TopicGroupOrders>, i: int, j: int)
    requires
        order_table::keys_distinct(entries),
        0 <= i < entries.len(),
        0 <= j < entries.len(),
        i != j,
    ensures
        entries[i].key@ != entries[j].key@,
{
}

/// The abstract value of the queues of a key has the order info of each queue, under its id.
pub proof fn law_queues_keep_their_order_infos(queues: Map<i32, OrderInfo>)
    ensures
        order_table::queues_view(queues).dom() == queues.dom(),
        forall|queue_id: i32|
            queues.contains_key(queue_id) ==> #[trigger] order_table::queues_view(queues)[queue_id]
                == queues[queue_id]@,
{
    assert(order_table::queues_view(queues).dom() =~= queues.dom());
}

/// The abstract value of the manager is that of its table.
pub proof fn law_manager_is_its_table(manager: ConsumerOrderInfoManager)
    ensures
        manager@ == manager.consumer_order_info_wrapper@,
{
}

/// A key is the topic, an at sign and the group, in this order.
pub proof fn law_key_is_topic_at_group(topic: &str, group: &str, key: String)
    requires
        call_ensures(topic_group::build_key_from_text, (topic, group), key),
    ensures
        key@ == topic@ + seq!['@'] + group@,
        topic_group::key_of(topic@, group@) == topic@ + seq!['@'] + group@,
{
    assert(topic@.push('@') + group@ =~= topic@ + seq!['@'] + group@);
}

/// Whether a request has to wait, and when a lock is free, can be asked of every batch whose
/// visible time fits in 64 bits, as well as the offset of each entry without a bit.
pub proof fn law_questions_are_answered(
    info: OrderInfo,
    attempt_id: Seq<char>,
    current_invisible_time: u64,
    invisible_time: u64,
    now: u64,
)
    requires
        invisible_time == (match info.invisible_time {
            Some(own) if own != 0 => own,
            _ => current_invisible_time,
        }),
        info.pop_time + invisible_time <= u64::MAX,
        forall|i: int|
            0 < i < info.offset_list@.len() && i < 64 ==> info.offset_list@[0]
                + #[trigger] info.offset_list@[i] <= u64::MAX || info.commit_offset_bit & (
            1u64 << (i as u64)) != 0,
    ensures
        info.attempt_id@ != attempt_id ==> info@.after_need_block(
            attempt_id,
            current_invisible_time,
        ).all_pending_fit() && info@.after_need_block(
            attempt_id,
            current_invisible_time,
        ).scan_fits(now),
        info.invisible_time is Some && info.invisible_time != Some(0u64)
            ==> info@.all_pending_fit() && info@.scan_fits(now),
{
    let after = info@.after_need_block(attempt_id, current_invisible_time);
    if info.attempt_id@ != attempt_id {
        assert forall|i: int| #[trigger] after.pending(i) implies after.times_fit(i) by {
            let entry = info.offset_list@[i];
        }
    }
    if info.invisible_time is Some && info.invisible_time != Some(0u64) {
        assert forall|i: int| #[trigger] info@.pending(i) implies info@.times_fit(i) by {
            let entry = info.offset_list@[i];
        }
    }
}

/// Both can be asked as well where offsets past the first hidden entry do not fit in 64 bits.
pub proof fn law_questions_end_at_the_first_hidden_entry(
    info: OrderInfo,
    attempt_id: Seq<char>,
    current_invisible_time: u64,
    invisible_time: u64,
    now: u64,
    i: int,
    offset: u64,
)
    requires
        invisible_time == (match info.invisible_time {
            Some(own) if own != 0 => own,
            _ => current_invisible_time,
        }),
        info.pop_time + invisible_time <= u64::MAX,
        0 <= i < info.offset_list@.len(),
        i < 64,
        info.commit_offset_bit & (1u64 << (i as u64)) == 0,
        offset == info.offset_list@[i] + (if i == 0 {
            0
        } else {
            info.offset_list@[0] as int
        }),
        now < if info.offset_next_visible_time@.contains_key(offset) {
            info.offset_next_visible_time@[offset] as int
        } else {
            info.pop_time + invisible_time
        },
        forall|j: int|
            0 < j <= i ==> info.offset_list@[0] + #[trigger] info.offset_list@[j] <= u64::MAX
                || info.commit_offset_bit & (1u64 << (j as u64)) != 0,
    ensures
        info.attempt_id@ != attempt_id ==> info@.after_need_block(
            attempt_id,
            current_invisible_time,
        ).scan_fits(now),
        info.invisible_time is Some && info.invisible_time != Some(0u64) ==> info@.scan_fits(now),
{
    let after = info@.after_need_block(attempt_id, current_invisible_time);
    if info.attempt_id@ != attempt_id {
        assert(after.holds_back(i, now));
        assert forall|j: int| #[trigger]
            after.pending(j) && j <= i implies after.times_fit(j) by {
            let entry = info.offset_list@[j];
        }
    }
    if info.invisible_time is Some && info.invisible_time != Some(0u64) {
        assert(info@.holds_back(i, now));
        assert forall|j: int| #[trigger]
            info@.pending(j) && j <= i implies info@.times_fit(j) by {
            let entry = info.offset_list@[j];
        }
    }
}

/// Consumed counts can be merged for every two batches whose offsets fit in 64 bits, as long as no
/// offset that both have is counted at the maximum, and always for the same attempt.
pub proof fn law_counts_can_be_merged(
    info: OrderInfo,
    pre_attempt_id: Seq<char>,
    pre_offset_list: Seq<u64>,
    prev_counts: Map<u64, i32>,
)
    requires
        pre_attempt_id == info.attempt_id@ || {
            &&& forall|i: int|
                0 < i < info.offset_list@.len() ==> info.offset_list@[0]
                    + #[trigger] info.offset_list@[i] <= u64::MAX
            &&& forall|i: int|
                0 < i < pre_offset_list.len() ==> pre_offset_list[0] + #[trigger] pre_offset_list[i]
                    <= u64::MAX
            &&& forall|i: int, j: int, offset: u64|
                #![trigger info.offset_list@[i], pre_offset_list[j], prev_counts[offset]]
                {
                    &&& 0 <= i < info.offset_list@.len()
                    &&& 0 <= j < pre_offset_list.len()
                    &&& offset == info.offset_list@[i] + (if i == 0 {
                        0
                    } else {
                        info.offset_list@[0] as int
                    })
                    &&& offset == pre_offset_list[j] + (if j == 0 {
                        0
                    } else {
                        pre_offset_list[0] as int
                    })
                    &&& prev_counts.contains_key(offset)
                } ==> prev_counts[offset] < i32::MAX
        },
    ensures
        info@.merge_fits(pre_attempt_id, pre_offset_list, prev_counts),
{
    let own_list = info.offset_list@;
    if pre_attempt_id != info.attempt_id@ {
        assert forall|i: int| 0 <= i < own_list.len() implies #[trigger] order_model::offset_at(
            own_list,
            i,
        ) <= u64::MAX by {
            let entry = own_list[i];
        }
        assert forall|i: int| 0 <= i < pre_offset_list.len() implies #[trigger] order_model::offset_at(
            pre_offset_list,
            i,
        ) <= u64::MAX by {
            let entry = pre_offset_list[i];
        }
        assert forall|offset: u64|
            #![trigger prev_counts.contains_key(offset)]
            order_model::lists_offset(own_list, offset as int) && order_model::lists_offset(
                pre_offset_list,
                offset as int,
            ) && prev_counts.contains_key(offset) implies prev_counts[offset] < i32::MAX by {
            let i = choose|i: int|
                0 <= i < own_list.len() && #[trigger] order_model::offset_at(own_list, i) == offset;
            let j = choose|j: int|
                0 <= j < pre_offset_list.len() && #[trigger] order_model::offset_at(
                    pre_offset_list,
                    j,
                ) == offset;
            let entries = (info.offset_list@[i], pre_offset_list[j], prev_counts[offset]);
        }
    }
}

/// The next offset can be asked of an empty batch, of one whose first entry without a bit has an
/// offset that fits in 64 bits, and of one without such an entry whose last offset fits in 64 bits
/// and is not the largest signed number.
pub proof fn law_next_offset_is_answered(info: OrderInfo, i: int)
    requires
        ({
            ||| info.offset_list@.len() == 0
            ||| {
                &&& 0 <= i < info.offset_list@.len()
                &&& i < 64
                &&& info.commit_offset_bit & (1u64 << (i as u64)) == 0
                &&& forall|j: int|
                    0 <= j < i ==> info.commit_offset_bit & (1u64 << #[trigger] (j as u64)) != 0
                &&& i == 0 || info.offset_list@[0] + info.offset_list@[i] <= u64::MAX
            }
            ||| {
                &&& i == info.offset_list@.len() - 1
                &&& forall|j: int|
                    0 <= j < info.offset_list@.len() && j < 64 ==> info.commit_offset_bit & (
                    1u64 << #[trigger] (j as u64)) != 0
                &&& i == 0 ==> info.offset_list@[0] != i64::MAX
                &&& i > 0 ==> info.offset_list@[0] + info.offset_list@[i] <= u64::MAX
                    && info.offset_list@[0] + info.offset_list@[i] != i64::MAX
            }
        }),
    ensures
        info@.next_offset_fits(),
{
    if 0 <= i < 64 && info@.pending(i) {
        assert forall|j: int| 0 <= j < i implies !#[trigger] info@.pending(j) by {
            let _ = j as u64;
        }
        assert(info@.first_pending(i));
        assert forall|k: int| #[trigger] info@.first_pending(k) implies k == i by {}
    } else if info.offset_list@.len() > 0 {
        assert forall|j: int| !#[trigger] info@.pending(j) by {
            let _ = j as u64;
        }
    }
}

} // verus!
