use cheetah_string::CheetahString;

use vstd::prelude::*;

use crate::order_model::OrderInfoView;
#[allow(unused_imports)]
use crate::order_table;
use crate::order_table::ConsumerOrderInfoWrapper;
use crate::order_table::UpdateOutcome;
use crate::topic_group;

verus! {

/// Keeps the order infos of every topic, group and queue that is consumed in order.
#[derive(Debug)]
pub struct ConsumerOrderInfoManager {
    /// The table of order infos.
    pub consumer_order_info_wrapper: ConsumerOrderInfoWrapper,
}

impl View for ConsumerOrderInfoManager {
    type V = Map<Seq<char>, Map<i32, OrderInfoView>>;

    open spec fn view(&self) -> Self::V {
        self.consumer_order_info_wrapper@
    }
}

impl Default for ConsumerOrderInfoManager {
    fn default() -> (manager: Self)
        ensures
            manager@ == Map::<Seq<char>, Map<i32, OrderInfoView>>::empty(),
    {
        ConsumerOrderInfoManager {
            consumer_order_info_wrapper: ConsumerOrderInfoWrapper::default(),
        }
    }
}

impl ConsumerOrderInfoManager {
    /// Sets the time at which one offset of a queue becomes visible again.
    ///
    /// The order info has to be that of the batch popped at `pop_time`. Where it is not, or where
    /// nothing is known of the queue, the table stays as it is, and the outcome says which of
    /// these it was. Once the time is set, the lock on the queue has to be brought up to date;
    /// that is left to the caller, who learns of it by `UpdateOutcome::Updated`.
    pub fn update_next_visible_time(
        &mut self,
        topic: &CheetahString,
        group: &CheetahString,
        queue_id: i32,
        queue_offset: u64,
        pop_time: u64,
        next_visible_time: u64,
    ) -> (outcome: UpdateOutcome)
        ensures
            outcome == order_table::update_outcome(
                old(self)@,
                topic_group::key_of(
                    topic_group::cheetah_text(*topic),
                    topic_group::cheetah_text(*group),
                ),
                queue_id,
                pop_time,
            ),
            final(self)@ == order_table::updated_table(
                old(self)@,
                topic_group::key_of(
                    topic_group::cheetah_text(*topic),
                    topic_group::cheetah_text(*group),
                ),
                queue_id,
                queue_offset,
                pop_time,
                next_visible_time,
            ),
    {
        let key = topic_group::build_key(topic, group);
        self.consumer_order_info_wrapper.update_next_visible_time(
            &key,
            queue_id,
            queue_offset,
            pop_time,
            next_visible_time,
        )
    }

    /// Takes over a stored table, given the stored text and the table that was read from it, none
    /// where the text is no table. Empty text and an empty table change nothing. Returns whether
    /// the table was replaced; locks then have to be recovered from the new one.
    pub fn decode(
        &mut self,
        json_string: &str,
        parsed: Option<ConsumerOrderInfoWrapper>,
    ) -> (replaced: bool)
        ensures
            replaced == (json_string@.len() > 0 && parsed is Some && parsed->0@
                != Map::<Seq<char>, Map<i32, OrderInfoView>>::empty()),
            replaced ==> final(self)@ == parsed->0@,
            !replaced ==> final(self)@ == old(self)@,
    {
        if json_string.is_empty() {
            return false;
        }
        let wrapper = match parsed {
            Some(wrapper) => wrapper,
            None => ConsumerOrderInfoWrapper::default(),
        };
        if wrapper.is_empty() {
            return false;
        }
        self.consumer_order_info_wrapper = wrapper;
        true
    }
}

} // verus!
