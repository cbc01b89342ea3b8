use vstd::prelude::*;

verus! {

/// Calls `std::time::SystemTime::elapsed` on `std::time::UNIX_EPOCH`, and turns the `Duration` that
/// it returns into whole milliseconds by `as_millis`. There is none where the clock is set before
/// the epoch. The reading is the machine's; nothing is claimed of it.
#[verifier::external_body]
pub(crate) fn millis_since_epoch() -> (millis: Option<u128>) {
    match std::time::UNIX_EPOCH.elapsed() {
        Ok(elapsed) => Some(elapsed.as_millis()),
        Err(_) => None,
    }
}

/// Whether `millis` is a time that the clock showed: what `millis_since_epoch` returned, as 64
/// bits. Only a call of that function can tell so of a number.
pub closed spec fn clock_showed(millis: u64) -> bool {
    exists|reading: Option<u128>| #[trigger]
        call_ensures(millis_since_epoch, (), reading) && (match reading {
            Some(value) if value <= u64::MAX => millis == value,
            Some(_) => millis == u64::MAX,
            None => millis == 0,
        })
}

/// Calls `f` and returns what it returned.
fn result_of<T, F: Fn() -> T>(f: F) -> (result: T)
    requires
        call_requires(f, ()),
    ensures
        call_ensures(f, (), result),
{
    f()
}

/// The current time in milliseconds since the epoch. A clock set before the epoch reads as zero.
pub(crate) fn get_current_millis() -> (millis: u64)
    ensures
        clock_showed(millis),
{
    clamp_millis(result_of(millis_since_epoch))
}

/// The times that the clock showed are its readings in whole milliseconds since the epoch: each
/// reading that fits in 64 bits is one, and there are no others but zero, for a clock that has no
/// reading, and the largest number, for a reading that is larger.
pub(crate) proof fn law_clock_shows_whole_milliseconds(millis: u64)
    ensures
        call_ensures(millis_since_epoch, (), Some(millis as u128)) ==> clock_showed(millis),
        clock_showed(millis) && 0 < millis < u64::MAX ==> call_ensures(
            millis_since_epoch,
            (),
            Some(millis as u128),
        ),
        clock_showed(millis) && millis == 0 ==> call_ensures(millis_since_epoch, (), Some(0u128))
            || call_ensures(millis_since_epoch, (), None::<u128>),
        clock_showed(millis) && millis == u64::MAX ==> exists|value: u128|
            value >= u64::MAX && #[trigger] call_ensures(millis_since_epoch, (), Some(value)),
{
    if clock_showed(millis) {
        let reading = choose|reading: Option<u128>| #[trigger]
            call_ensures(millis_since_epoch, (), reading) && (match reading {
                Some(value) if value <= u64::MAX => millis == value,
                Some(_) => millis == u64::MAX,
                None => millis == 0,
            });
        assert(call_ensures(millis_since_epoch, (), reading));
    }
}

/// A clock reading as 64 bits: zero where there is none, and the largest value where it is larger.
pub fn clamp_millis(reading: Option<u128>) -> (millis: u64)
    ensures
        millis == (match reading {
            Some(value) if value <= u64::MAX => value as int,
            Some(_) => u64::MAX as int,
            None => 0,
        }),
{
    match reading {
        Some(value) => if value <= u64::MAX as u128 {
            value as u64
        } else {
            u64::MAX
        },
        None => 0,
    }
}

} // verus!
