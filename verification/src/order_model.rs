use vstd::prelude::*;

verus! {

/// Whether bit `i` of `bits` is set.
pub open spec fn bit_is_set(bits: u64, i: int) -> bool {
    bits & (1u64 << (i as u64)) != 0
}

/// The queue offset that entry `i` of an offset list stands for: the first entry is an absolute
/// offset, each later one is relative to the first.
pub open spec fn offset_at(list: Seq<u64>, i: int) -> int {
    if i == 0 {
        list[0] as int
    } else {
        list[0] + list[i]
    }
}

/// Whether some entry of `list` stands for the queue offset `offset`.
pub open spec fn lists_offset(list: Seq<u64>, offset: int) -> bool {
    lists_offset_before(list, list.len() as int, offset)
}

/// Whether one of the first `end` entries of `list` stands for the queue offset `offset`.
pub open spec fn lists_offset_before(list: Seq<u64>, end: int, offset: int) -> bool {
    exists|i: int| 0 <= i < end && #[trigger] offset_at(list, i) == offset
}

/// Whether every queue offset that `list` stands for fits in 64 bits.
pub open spec fn offsets_fit(list: Seq<u64>) -> bool {
    forall|i: int| 0 <= i < list.len() ==> #[trigger] offset_at(list, i) <= u64::MAX
}

/// The queue offsets `offsets`, all but the first replaced by their distance from the first.
pub open spec fn relative_to_first(offsets: Seq<u64>) -> Seq<u64> {
    Seq::new(
        offsets.len(),
        |i: int|
            if i == 0 {
                offsets[0]
            } else {
                (offsets[i] - offsets[0]) as u64
            },
    )
}

/// An unsigned 64-bit value read as a signed one.
pub open spec fn as_signed(value: int) -> int {
    if value <= i64::MAX {
        value
    } else {
        value - 0x1_0000_0000_0000_0000
    }
}

/// The abstract value of an `OrderInfo`.
#[verifier::ext_equal]
pub struct OrderInfoView {
    pub pop_time: u64,
    pub invisible_time: Option<u64>,
    pub offset_list: Seq<u64>,
    pub offset_next_visible_time: Map<u64, u64>,
    pub offset_consumed_count: Map<u64, i32>,
    pub last_consume_timestamp: u64,
    pub commit_offset_bit: u64,
    pub attempt_id: Seq<char>,
}

impl OrderInfoView {
    /// The queue offset of entry `i`.
    pub open spec fn queue_offset(self, i: int) -> int {
        offset_at(self.offset_list, i)
    }

    /// Whether index `i` counts as not acknowledged. The bitmap tracks 64 indices; any index
    /// past those counts as acknowledged.
    pub open spec fn not_acked(self, i: int) -> bool {
        0 <= i < 64 && !bit_is_set(self.commit_offset_bit, i)
    }

    /// Whether `i` is an entry of the list that is not acknowledged.
    pub open spec fn pending(self, i: int) -> bool {
        0 <= i < self.offset_list.len() && self.not_acked(i)
    }

    /// Whether `i` is the first entry that is not acknowledged.
    pub open spec fn first_pending(self, i: int) -> bool {
        self.pending(i) && forall|j: int| 0 <= j < i ==> !#[trigger] self.pending(j)
    }

    /// Whether every entry is acknowledged.
    pub open spec fn all_acked(self) -> bool {
        forall|i: int| !#[trigger] self.pending(i)
    }

    /// Whether an invisible time is recorded. A recorded zero counts as none.
    pub open spec fn has_invisible_time(self) -> bool {
        self.invisible_time is Some && self.invisible_time->0 != 0
    }

    /// The time at which the whole batch becomes visible again.
    pub open spec fn batch_visible_time(self) -> int {
        self.pop_time + (if self.invisible_time is Some {
            self.invisible_time->0
        } else {
            0
        })
    }

    /// The time at which entry `i` becomes visible again: its own time where one was set, the
    /// batch's otherwise.
    pub open spec fn next_visible(self, i: int) -> int {
        let offset = self.queue_offset(i);
        if offset <= u64::MAX && self.offset_next_visible_time.contains_key(offset as u64) {
            self.offset_next_visible_time[offset as u64] as int
        } else {
            self.batch_visible_time()
        }
    }

    /// Whether entry `i` is pending and still invisible at `now`.
    pub open spec fn holds_back(self, i: int, now: u64) -> bool {
        self.pending(i) && now < self.next_visible(i)
    }

    /// Whether `i` is the first entry that is pending and still invisible at `now`.
    pub open spec fn first_holding_back(self, i: int, now: u64) -> bool {
        self.holds_back(i, now) && forall|j: int| 0 <= j < i ==> !#[trigger] self.holds_back(j, now)
    }

    /// Whether the visible time and the offset of entry `i` fit in 64 bits.
    pub open spec fn times_fit(self, i: int) -> bool {
        self.batch_visible_time() <= u64::MAX && self.queue_offset(i) <= u64::MAX
    }

    /// Whether the values of every entry that a scan at `now` looks at fit in 64 bits. A scan
    /// looks at the pending entries up to the first one that is still invisible.
    pub open spec fn scan_fits(self, now: u64) -> bool {
        forall|i: int|
            #![trigger self.pending(i)]
            self.pending(i) && (forall|j: int|
                0 <= j < i ==> !#[trigger] self.holds_back(j, now)) ==> self.times_fit(i)
    }

    /// Whether the values of every pending entry fit in 64 bits.
    pub open spec fn all_pending_fit(self) -> bool {
        forall|i: int| #[trigger] self.pending(i) ==> self.times_fit(i)
    }

    /// Whether a request of `attempt_id` has to wait for this batch at all: there is a batch, and
    /// it was handed to another attempt.
    pub open spec fn concerns(self, attempt_id: Seq<char>) -> bool {
        self.offset_list.len() > 0 && self.attempt_id != attempt_id
    }

    /// The state after a request of `attempt_id` asked whether it has to wait: the batch takes
    /// over the request's invisible time where it has none of its own.
    pub open spec fn after_need_block(
        self,
        attempt_id: Seq<char>,
        current_invisible_time: u64,
    ) -> OrderInfoView {
        if self.concerns(attempt_id) && !self.has_invisible_time() {
            OrderInfoView { invisible_time: Some(current_invisible_time), ..self }
        } else {
            self
        }
    }

    /// Whether a request of `attempt_id` has to wait at `now`.
    pub open spec fn blocks(
        self,
        attempt_id: Seq<char>,
        current_invisible_time: u64,
        now: u64,
    ) -> bool {
        self.concerns(attempt_id) && exists|i: int| #[trigger]
            self.after_need_block(attempt_id, current_invisible_time).holds_back(i, now)
    }

    /// What the lock-free timestamp at `now` is: none for an empty list, and none where something
    /// is pending and no invisible time is recorded; otherwise the visible time of the first entry
    /// that is still invisible, or `now` where there is no such entry.
    pub open spec fn lock_free_timestamp_is(self, now: u64, timestamp: Option<u64>) -> bool {
        if self.offset_list.len() == 0 {
            timestamp is None
        } else if self.all_acked() {
            timestamp == Some(now)
        } else if !self.has_invisible_time() {
            timestamp is None
        } else if exists|i: int| self.holds_back(i, now) {
            &&& timestamp is Some
            &&& exists|i: int| #[trigger]
                self.first_holding_back(i, now) && self.next_visible(i) == timestamp->0
        } else {
            timestamp == Some(now)
        }
    }

    /// The state after the visible time of one queue offset was set.
    pub open spec fn with_next_visible_time(
        self,
        queue_offset: u64,
        next_visible_time: u64,
    ) -> OrderInfoView {
        OrderInfoView {
            offset_next_visible_time: self.offset_next_visible_time.insert(
                queue_offset,
                next_visible_time,
            ),
            ..self
        }
    }

    /// Whether the next offset can be computed: the first pending offset fits in 64 bits, or,
    /// where all are acknowledged, the last one does and has a signed successor.
    pub open spec fn next_offset_fits(self) -> bool {
        &&& forall|i: int| #[trigger]
            self.first_pending(i) ==> self.queue_offset(i) <= u64::MAX
        &&& self.offset_list.len() > 0 && self.all_acked() ==> {
            let last = self.queue_offset(self.offset_list.len() - 1);
            last <= u64::MAX && last != i64::MAX
        }
    }

    /// Whether a merge stays within the machine's integers: the offsets of both lists fit in 64
    /// bits, and no count that is raised is at its maximum.
    pub open spec fn merge_fits(
        self,
        pre_attempt_id: Seq<char>,
        pre_offset_list: Seq<u64>,
        prev_counts: Map<u64, i32>,
    ) -> bool {
        pre_attempt_id != self.attempt_id ==> {
            &&& offsets_fit(self.offset_list)
            &&& offsets_fit(pre_offset_list)
            &&& forall|offset: u64|
                #![trigger prev_counts.contains_key(offset)]
                lists_offset(self.offset_list, offset as int) && lists_offset(
                    pre_offset_list,
                    offset as int,
                ) && prev_counts.contains_key(offset) ==> prev_counts[offset] < i32::MAX
        }
    }

    /// The consumed counts after a merge with those of the previous batch. The same attempt keeps
    /// the previous counts. Another attempt counts each offset that both batches list once more
    /// than the previous batch did, and no other offset.
    pub open spec fn merged_counts(
        self,
        pre_attempt_id: Seq<char>,
        pre_offset_list: Seq<u64>,
        prev_counts: Map<u64, i32>,
    ) -> Map<u64, i32> {
        if pre_attempt_id == self.attempt_id {
            prev_counts
        } else {
            Map::new(
                |offset: u64|
                    lists_offset(self.offset_list, offset as int) && lists_offset(
                        pre_offset_list,
                        offset as int,
                    ),
                |offset: u64| count_once_more(prev_counts, offset) as i32,
            )
        }
    }
}

/// One more than the count of `offset`, which is zero where none is recorded.
pub open spec fn count_once_more(counts: Map<u64, i32>, offset: u64) -> int {
    if counts.contains_key(offset) {
        counts[offset] + 1
    } else {
        1
    }
}

} // verus!
