use vstd::prelude::*;

use crate::orders::SpreadTrade;
use crate::venue::{continuous_funding, continuous_funding_spec};

verus! {

pub const SECONDS_PER_DAY: u32 = 86_400;

/// Funding settles every eight hours from midnight UTC.
pub const EIGHT_HOURS: u32 = 28_800;

/// Interval of the position monitor.
pub const FIFTEEN_MIN: u32 = 900;

/// Entries fire this long before each funding boundary.
pub const TRADE_LEAD_SEC: u32 = 1_800;

/// Seconds after midnight of the three daily entry times: half an hour before each funding
/// boundary, the midnight one falling on the evening before.
pub open spec fn entry_times() -> Seq<int> {
    seq![84_600int, 27_000int, 55_800int]
}

/// Seconds from `now` to the next entry time later the same day.
pub open spec fn next_entry_spec(now: int) -> Option<int> {
    if now < 27_000 {
        Some(27_000 - now)
    } else if now < 55_800 {
        Some(55_800 - now)
    } else if now < 84_600 {
        Some(84_600 - now)
    } else {
        None
    }
}

/// Seconds from `now` (seconds after midnight UTC) to the next entry time later the same
/// day; none once the last one has passed.
pub fn seconds_to_next_entry(now: u32) -> (r: Option<u32>)
    requires
        now < SECONDS_PER_DAY,
    ensures
        r matches Some(d) ==> next_entry_spec(now as int) == Some(d as int),
        r is None ==> next_entry_spec(now as int) is None,
{
    let times: [u32; 3] = [
        SECONDS_PER_DAY - TRADE_LEAD_SEC,
        EIGHT_HOURS - TRADE_LEAD_SEC,
        2 * EIGHT_HOURS - TRADE_LEAD_SEC,
    ];
    let mut best: Option<u32> = None;
    let mut i: usize = 0;
    while i < 3
        invariant
            i <= 3,
            times@ == seq![84_600u32, 27_000u32, 55_800u32],
            best matches Some(d) ==> exists|k: int|
                0 <= k < i && times@[k] > now && d == times@[k] - now,
            best matches Some(d) ==> forall|k: int|
                0 <= k < i && times@[k] > now ==> d <= times@[k] - now,
            best is None ==> forall|k: int| 0 <= k < i ==> times@[k] <= now,
        decreases 3 - i,
    {
        let t = times[i];
        if t > now {
            let d = t - now;
            match best {
                Some(b) => {
                    if d < b {
                        best = Some(d);
                    }
                },
                None => best = Some(d),
            }
        }
        i = i + 1;
    }
    assert(times@[0] == 84_600 && times@[1] == 27_000 && times@[2] == 55_800);
    best
}

/// Seconds from `now` (seconds after midnight UTC) to the next funding boundary.
pub fn seconds_to_next_funding(now: u32) -> (r: u32)
    ensures
        r == EIGHT_HOURS - now % EIGHT_HOURS,
        0 < r <= EIGHT_HOURS,
{
    EIGHT_HOURS - now % EIGHT_HOURS
}

/// Whether the monitor unwinds an open trade. It acts only once the live spread (short rate
/// less long rate) is negative. With a leg on a venue that settles continuously it waits
/// for the last quarter of the hour; otherwise for the last fifteen minutes before funding.
pub open spec fn close_decision(trade: SpreadTrade, live_spread: int, now: int) -> bool {
    live_spread < 0 && if continuous_funding_spec(trade.long_directive.exchange)
        || continuous_funding_spec(trade.short_directive.exchange) {
        (now % 3600) / 60 > 45
    } else {
        EIGHT_HOURS - now % (EIGHT_HOURS as int) < FIFTEEN_MIN
    }
}

/// The monitor's decision on an open trade, given the live funding rates of its legs (in
/// billionths of a percent) and the time (seconds after midnight UTC).
pub fn should_close_position(trade: &SpreadTrade, long_rate: i64, short_rate: i64, now: u32) -> (r: bool)
    requires
        now < SECONDS_PER_DAY,
    ensures
        r == close_decision(*trade, short_rate - long_rate, now as int),
{
    let live_spread: i128 = short_rate as i128 - long_rate as i128;
    if live_spread >= 0 {
        return false;
    }
    if continuous_funding(trade.long_directive.exchange) || continuous_funding(
        trade.short_directive.exchange,
    ) {
        (now % 3600) / 60 > 45
    } else {
        seconds_to_next_funding(now) < FIFTEEN_MIN
    }
}

/// Relies on chrono's `Utc::now` and `Timelike::num_seconds_from_midnight`: the current
/// UTC time of day in whole seconds, always below one day.
#[verifier::external_body]
pub fn utc_time() -> (r: u32)
    ensures
        r < SECONDS_PER_DAY,
{
    chrono::Timelike::num_seconds_from_midnight(&chrono::Utc::now().time())
}

/// Seconds until the next entry time today, read from the clock.
pub fn calculate_duration_to_next_rate() -> (r: Option<u32>)
    ensures
        exists|now: int|
            0 <= now < SECONDS_PER_DAY && #[trigger] next_entry_spec(now) == match r {
                Some(d) => Some(d as int),
                None => None,
            },
{
    let now = utc_time();
    let r = seconds_to_next_entry(now);
    assert(next_entry_spec(now as int) == match r {
        Some(d) => Some(d as int),
        None => None::<int>,
    });
    r
}

} // verus!
