//! When a device should next call the server: the refresh that the active playlist
//! item asks for, brought forward to the next moment at which another playlist item may
//! start or stop applying, so that no item is skipped.
use vstd::prelude::*;
use vstd::string::StringExecFns;

use crate::clock::{
    cron_next, local_earliest, spec_cron_next, spec_cron_parses, spec_local_earliest,
    spec_zone_offset, weekday_of, weekday_of_day, CronNext, Instant, TimeOfDay, ZonedDateTime,
    MAX_TIMESTAMP,
};
use crate::clock::Weekday;
use crate::clock::now_in;
use crate::schedule::{contains_weekday, find_active_playlist_item, is_first_applying, item_applies, Playlist, PlaylistItem, PlaylistTimeSpan, Refresh};

verus! {

/// The instant `seconds` after `t`.
pub open spec fn later_by(t: Instant, seconds: int) -> Instant {
    Instant { secs: (t.secs + seconds) as i64, nanos: t.nanos }
}

/// The time in `zone` at `instant`, with the zone's offset there.
pub open spec fn zoned(zone: u32, instant: Instant) -> ZonedDateTime {
    ZonedDateTime {
        instant,
        zone,
        offset: spec_zone_offset(zone as int, instant.secs as int) as i32,
    }
}

/// The refresh that an item asks for, before playlist boundaries are considered.
pub enum SpecifiedRefresh {
    At(Instant),
    CronUnparsable,
    CronNoOccurrence,
}

/// The number of seconds a fixed refresh waits.
pub open spec fn refresh_seconds(refresh: Refresh) -> int {
    match refresh {
        Refresh::Seconds { seconds } => seconds as int,
        Refresh::Minutes { minutes } => 60 * minutes,
        Refresh::Hours { hours } => 3600 * hours,
        Refresh::Cron { .. } => 0,
    }
}

/// The refresh that `refresh` asks for at `now`: a fixed number of seconds later, or
/// the next occurrence of a cron schedule in `now`'s zone.
pub open spec fn spec_specified_refresh(now: ZonedDateTime, refresh: Refresh) -> SpecifiedRefresh {
    match refresh {
        Refresh::Cron { cron } => if !spec_cron_parses(cron@) {
            SpecifiedRefresh::CronUnparsable
        } else {
            match spec_cron_next(
                cron@,
                now.zone as int,
                now.instant.secs as int,
                now.instant.nanos as int,
            ) {
                None => SpecifiedRefresh::CronNoOccurrence,
                Some((secs, nanos)) => SpecifiedRefresh::At(
                    Instant { secs: secs as i64, nanos: nanos as u32 },
                ),
            }
        },
        _ => SpecifiedRefresh::At(later_by(now.instant, refresh_seconds(refresh))),
    }
}

/// A fixed refresh stays within the instants chrono represents (chrono panics beyond).
pub open spec fn refresh_in_range(now: ZonedDateTime, refresh: Refresh) -> bool {
    now.instant.secs + refresh_seconds(refresh) <= MAX_TIMESTAMP
}

/// The message for a cron schedule that does not parse.
pub open spec fn cron_parse_error(cron: Seq<char>) -> Seq<char> {
    "Failed to parse cron schedule: "@ + cron
}

/// The message for a cron schedule without a next occurrence.
pub open spec fn cron_occurrence_error(cron: Seq<char>) -> Seq<char> {
    "Failed to evaluate next occurrence with cron schedule: "@ + cron
}

/// The error message, if any, of a specified refresh.
pub open spec fn specified_refresh_error(refresh: Refresh, outcome: SpecifiedRefresh) -> Option<
    Seq<char>,
> {
    match (outcome, refresh) {
        (SpecifiedRefresh::CronUnparsable, Refresh::Cron { cron }) => Some(cron_parse_error(cron@)),
        (SpecifiedRefresh::CronNoOccurrence, Refresh::Cron { cron }) => Some(
            cron_occurrence_error(cron@),
        ),
        _ => None,
    }
}

/// The refresh that `refresh` asks for at `now`, in `now`'s zone.
pub fn get_next_specified_refresh_time(now: &ZonedDateTime, refresh: &Refresh) -> (r: Result<
    ZonedDateTime,
    String,
>)
    requires
        now.wf(),
        refresh_in_range(*now, *refresh),
    ensures
        match r {
            Ok(z) => {
                &&& z.wf()
                &&& z.zone == now.zone
                &&& spec_specified_refresh(*now, *refresh) == SpecifiedRefresh::At(z.instant)
            },
            Err(message) => specified_refresh_error(*refresh, spec_specified_refresh(*now, *refresh))
                == Some(message@),
        },
{
    let seconds: i64 = match refresh {
        Refresh::Seconds { seconds } => *seconds as i64,
        Refresh::Minutes { minutes } => *minutes as i64 * 60,
        Refresh::Hours { hours } => *hours as i64 * 3600,
        Refresh::Cron { cron } => {
            match cron_next(cron.as_str(), now.zone, now.instant) {
                CronNext::Unparsable => {
                    let mut message = String::from_str("Failed to parse cron schedule: ");
                    proof {
                        reveal_strlit("Failed to parse cron schedule: ");
                    }
                    message.append(cron.as_str());
                    return Err(message);
                },
                CronNext::NoOccurrence => {
                    let mut message = String::from_str(
                        "Failed to evaluate next occurrence with cron schedule: ",
                    );
                    proof {
                        reveal_strlit("Failed to evaluate next occurrence with cron schedule: ");
                    }
                    message.append(cron.as_str());
                    return Err(message);
                },
                CronNext::At(t) => {
                    return Ok(ZonedDateTime::at(now.zone, t));
                },
            }
        },
    };
    let t = Instant { secs: now.instant.secs + seconds, nanos: now.instant.nanos };
    Ok(ZonedDateTime::at(now.zone, t))
}

/// The local days from `start`'s to `end`'s, both included, in that order (counting down
/// if `end`'s local day is the earlier).
pub open spec fn spec_days_in_range(start: ZonedDateTime, end: ZonedDateTime) -> Seq<int> {
    let a = start.spec_local_day();
    let b = end.spec_local_day();
    if a <= b {
        Seq::new((b - a + 1) as nat, |k: int| a + k)
    } else {
        Seq::new((a - b + 1) as nat, |k: int| a - k)
    }
}

/// The local days from `start`'s to `end`'s, both included.
pub fn days_in_range_inclusive(start: &ZonedDateTime, end: &ZonedDateTime) -> (days: Vec<i64>)
    requires
        start.wf(),
        end.wf(),
    ensures
        days@.len() == spec_days_in_range(*start, *end).len(),
        forall|k: int| 0 <= k < days@.len() ==> days@[k] == #[trigger] spec_days_in_range(*start, *end)[k],
        forall|k: int| 0 <= k < days@.len() ==> -1_000_000_000 <= #[trigger] days@[k] <= 1_000_000_000,
{
    let a = start.local_day();
    let b = end.local_day();
    let up = a <= b;
    let distance = if up {
        b - a
    } else {
        a - b
    };
    let mut days: Vec<i64> = Vec::new();
    let mut k: i64 = 0;
    while k <= distance
        invariant
            0 <= k <= distance + 1,
            distance == if up { b - a } else { a - b },
            up == (a <= b),
            a == start.spec_local_day(),
            b == end.spec_local_day(),
            -1_000_000_000 <= a <= 1_000_000_000,
            -1_000_000_000 <= b <= 1_000_000_000,
            days@.len() == k,
            forall|j: int| 0 <= j < k ==> days@[j] == #[trigger] spec_days_in_range(*start, *end)[j],
            forall|j: int| 0 <= j < k ==> -1_000_000_000 <= #[trigger] days@[j] <= 1_000_000_000,
        decreases distance + 1 - k,
    {
        if up {
            days.push(a + k);
        } else {
            days.push(a - k);
        }
        k = k + 1;
    }
    days
}

/// The instant at which `now`'s zone shows local day `day` at time `t`, if that instant is
/// strictly between `now` and `end`.
pub open spec fn boundary_at(now: ZonedDateTime, end: ZonedDateTime, day: int, t: TimeOfDay) -> Option<
    Instant,
> {
    match spec_local_earliest(now.zone as int, day, t.secs as int, t.nanos as int) {
        None => None,
        Some((secs, nanos)) => {
            let b = Instant { secs: secs as i64, nanos: nanos as u32 };
            if now.instant.spec_is_before(b) && b.spec_is_before(end.instant) {
                Some(b)
            } else {
                None
            }
        },
    }
}

/// The time in `now`'s zone at which the local clock shows `day` at `time`, if that is
/// strictly after `now` and strictly before `end`.
pub fn make_boundary(now: &ZonedDateTime, end: &ZonedDateTime, day: i64, time: &TimeOfDay) -> (r:
    Option<ZonedDateTime>)
    requires
        now.wf(),
        time.valid(),
    ensures
        match r {
            Some(z) => {
                &&& z.wf()
                &&& z.zone == now.zone
                &&& boundary_at(*now, *end, day as int, *time) == Some(z.instant)
            },
            None => boundary_at(*now, *end, day as int, *time) is None,
        },
{
    let candidate = match local_earliest(now.zone, day, *time) {
        Some(c) => c,
        None => {
            return None;
        },
    };
    if now.instant.is_before(&candidate) && candidate.is_before(&end.instant) {
        Some(ZonedDateTime::at(now.zone, candidate))
    } else {
        None
    }
}

/// An item's days (if given) hold the weekday of local day `day`.
pub open spec fn day_allowed(days: Option<Vec<Weekday>>, day: int) -> bool {
    match days {
        None => true,
        Some(v) => v@.contains(weekday_of_day(day)),
    }
}

/// `b` is where one of the span's ends falls on local day `day`, strictly between `now`
/// and `end`.
pub open spec fn span_has_boundary(
    now: ZonedDateTime,
    end: ZonedDateTime,
    day: int,
    span: PlaylistTimeSpan,
    b: Instant,
) -> bool {
    match span {
        PlaylistTimeSpan::From { from } => boundary_at(now, end, day, from) == Some(b),
        PlaylistTimeSpan::To { to } => boundary_at(now, end, day, to) == Some(b),
        PlaylistTimeSpan::Between { from, to } => boundary_at(now, end, day, from) == Some(b)
            || boundary_at(now, end, day, to) == Some(b),
    }
}

/// `b` is a boundary of `item` on local day `day`: the item may apply that day and one
/// end of its time span falls at `b`, strictly between `now` and `end`.
pub open spec fn item_day_boundary(
    now: ZonedDateTime,
    end: ZonedDateTime,
    item: PlaylistItem,
    day: int,
    b: Instant,
) -> bool {
    &&& day_allowed(item.days, day)
    &&& item.time matches Some(span) && span_has_boundary(now, end, day, span, b)
}

/// `b` is a playlist boundary between `now` and `end`: a moment, on one of the local days
/// from `now`'s to `end`'s, at which an item's time span starts or ends.
pub open spec fn is_playlist_boundary(
    now: ZonedDateTime,
    end: ZonedDateTime,
    schedule: Seq<PlaylistItem>,
    b: Instant,
) -> bool {
    exists|k: int, i: int|
        0 <= k < schedule.len() && 0 <= i < spec_days_in_range(now, end).len()
            && #[trigger] item_day_boundary(
            now,
            end,
            schedule[k],
            spec_days_in_range(now, end)[i],
            b,
        )
}

/// `b` is the earliest playlist boundary between `now` and `end`.
pub open spec fn is_earliest_boundary(
    now: ZonedDateTime,
    end: ZonedDateTime,
    schedule: Seq<PlaylistItem>,
    b: Instant,
) -> bool {
    &&& is_playlist_boundary(now, end, schedule, b)
    &&& forall|c: Instant| #[trigger]
        is_playlist_boundary(now, end, schedule, c) ==> !c.spec_is_before(b)
}

/// The boundaries found after looking at items `0..k` on every day, and at item `k` on
/// days `0..i`.
pub open spec fn seen(
    now: ZonedDateTime,
    end: ZonedDateTime,
    schedule: Seq<PlaylistItem>,
    days: Seq<int>,
    k: int,
    i: int,
    b: Instant,
) -> bool {
    ||| exists|k2: int, i2: int|
        0 <= k2 < k && 0 <= i2 < days.len() && #[trigger] item_day_boundary(
            now,
            end,
            schedule[k2],
            days[i2],
            b,
        )
    ||| exists|i2: int|
        0 <= i2 < i && #[trigger] item_day_boundary(now, end, schedule[k], days[i2], b)
}

/// `best` is the earliest of the boundaries seen so far, in `now`'s zone.
pub open spec fn best_so_far(
    best: Option<ZonedDateTime>,
    now: ZonedDateTime,
    end: ZonedDateTime,
    schedule: Seq<PlaylistItem>,
    days: Seq<int>,
    k: int,
    i: int,
) -> bool {
    match best {
        None => forall|b: Instant| !#[trigger] seen(now, end, schedule, days, k, i, b),
        Some(z) => {
            &&& z.wf()
            &&& z.zone == now.zone
            &&& seen(now, end, schedule, days, k, i, z.instant)
            &&& forall|b: Instant| #[trigger]
                seen(now, end, schedule, days, k, i, b) ==> !b.spec_is_before(z.instant)
        },
    }
}

proof fn lemma_seen_next_day(
    now: ZonedDateTime,
    end: ZonedDateTime,
    schedule: Seq<PlaylistItem>,
    days: Seq<int>,
    k: int,
    i: int,
    b: Instant,
)
    requires
        0 <= i < days.len(),
    ensures
        seen(now, end, schedule, days, k, i + 1, b) == (seen(now, end, schedule, days, k, i, b)
            || item_day_boundary(now, end, schedule[k], days[i], b)),
{
    if seen(now, end, schedule, days, k, i + 1, b) {
        if exists|i2: int|
            0 <= i2 < i + 1 && #[trigger] item_day_boundary(now, end, schedule[k], days[i2], b) {
            let i2 = choose|i2: int|
                0 <= i2 < i + 1 && #[trigger] item_day_boundary(now, end, schedule[k], days[i2], b);
            if i2 < i {
                assert(seen(now, end, schedule, days, k, i, b));
            }
        }
    }
    if item_day_boundary(now, end, schedule[k], days[i], b) {
        assert(seen(now, end, schedule, days, k, i + 1, b));
    }
    if seen(now, end, schedule, days, k, i, b) {
        if exists|i2: int|
            0 <= i2 < i && #[trigger] item_day_boundary(now, end, schedule[k], days[i2], b) {
            let i2 = choose|i2: int|
                0 <= i2 < i && #[trigger] item_day_boundary(now, end, schedule[k], days[i2], b);
            assert(seen(now, end, schedule, days, k, i + 1, b));
        }
    }
}

proof fn lemma_seen_next_item(
    now: ZonedDateTime,
    end: ZonedDateTime,
    schedule: Seq<PlaylistItem>,
    days: Seq<int>,
    k: int,
    b: Instant,
)
    requires
        0 <= k,
    ensures
        seen(now, end, schedule, days, k, days.len() as int, b) == seen(
            now,
            end,
            schedule,
            days,
            k + 1,
            0,
            b,
        ),
{
    if seen(now, end, schedule, days, k, days.len() as int, b) {
        if exists|k2: int, i2: int|
            0 <= k2 < k && 0 <= i2 < days.len() && #[trigger] item_day_boundary(
                now,
                end,
                schedule[k2],
                days[i2],
                b,
            ) {
            let (k2, i2) = choose|k2: int, i2: int|
                0 <= k2 < k && 0 <= i2 < days.len() && #[trigger] item_day_boundary(
                    now,
                    end,
                    schedule[k2],
                    days[i2],
                    b,
                );
            assert(seen(now, end, schedule, days, k + 1, 0, b));
        } else {
            let i2 = choose|i2: int|
                0 <= i2 < days.len() && #[trigger] item_day_boundary(
                    now,
                    end,
                    schedule[k],
                    days[i2],
                    b,
                );
            assert(seen(now, end, schedule, days, k + 1, 0, b));
        }
    }
    if seen(now, end, schedule, days, k + 1, 0, b) {
        let (k2, i2) = choose|k2: int, i2: int|
            0 <= k2 < k + 1 && 0 <= i2 < days.len() && #[trigger] item_day_boundary(
                now,
                end,
                schedule[k2],
                days[i2],
                b,
            );
        if k2 < k {
            assert(seen(now, end, schedule, days, k, days.len() as int, b));
        } else {
            assert(item_day_boundary(now, end, schedule[k], days[i2], b));
            assert(seen(now, end, schedule, days, k, days.len() as int, b));
        }
    }
}

/// The earlier of a best-so-far and a candidate.
pub open spec fn earlier_of(best: Option<ZonedDateTime>, c: Option<ZonedDateTime>) -> Option<
    ZonedDateTime,
> {
    match (best, c) {
        (None, c) => c,
        (b, None) => b,
        (Some(x), Some(y)) => if y.instant.spec_is_before(x.instant) {
            Some(y)
        } else {
            Some(x)
        },
    }
}

fn keep_earlier(best: &mut Option<ZonedDateTime>, c: Option<ZonedDateTime>)
    ensures
        *final(best) == earlier_of(*old(best), c),
{
    if let Some(y) = c {
        match best {
            None => {
                *best = Some(y);
            },
            Some(x) => {
                if y.instant.is_before(&x.instant) {
                    *best = Some(y);
                }
            },
        }
    }
}

/// Whether an item's days (if given) hold the weekday of local day `day`.
fn is_day_allowed(days: &Option<Vec<Weekday>>, day: i64) -> (b: bool)
    requires
        -1_000_000_000_000 <= day <= 1_000_000_000_000,
    ensures
        b == day_allowed(*days, day as int),
{
    match days {
        None => true,
        Some(v) => contains_weekday(v, weekday_of(day)),
    }
}

proof fn lemma_best_after_day(
    best: Option<ZonedDateTime>,
    best2: Option<ZonedDateTime>,
    c1: Option<ZonedDateTime>,
    c2: Option<ZonedDateTime>,
    now: ZonedDateTime,
    end: ZonedDateTime,
    schedule: Seq<PlaylistItem>,
    days: Seq<int>,
    k: int,
    i: int,
)
    requires
        best_so_far(best, now, end, schedule, days, k, i),
        0 <= i < days.len(),
        forall|b: Instant|
            #[trigger] item_day_boundary(now, end, schedule[k], days[i], b) <==> ((c1 matches Some(
                z,
            ) && z.instant == b) || (c2 matches Some(z) && z.instant == b)),
        c1 matches Some(z) ==> z.wf() && z.zone == now.zone,
        c2 matches Some(z) ==> z.wf() && z.zone == now.zone,
        best2 == earlier_of(earlier_of(best, c1), c2),
    ensures
        best_so_far(best2, now, end, schedule, days, k, i + 1),
{
    assert forall|b: Instant|
        #[trigger] seen(now, end, schedule, days, k, i + 1, b) == (seen(
            now,
            end,
            schedule,
            days,
            k,
            i,
            b,
        ) || item_day_boundary(now, end, schedule[k], days[i], b)) by {
        lemma_seen_next_day(now, end, schedule, days, k, i, b);
    }
    match best2 {
        None => {
            assert forall|b: Instant| !#[trigger] seen(now, end, schedule, days, k, i + 1, b) by {
                assert(!item_day_boundary(now, end, schedule[k], days[i], b));
            }
        },
        Some(z) => {
            assert(seen(now, end, schedule, days, k, i + 1, z.instant)) by {
                if c2 == Some(z) {
                    assert(item_day_boundary(now, end, schedule[k], days[i], z.instant));
                } else if c1 == Some(z) {
                    assert(item_day_boundary(now, end, schedule[k], days[i], z.instant));
                } else {
                    assert(best == Some(z));
                }
            }
            assert forall|b: Instant| #[trigger]
                seen(now, end, schedule, days, k, i + 1, b) implies !b.spec_is_before(z.instant) by {
                if item_day_boundary(now, end, schedule[k], days[i], b) {
                } else {
                    assert(seen(now, end, schedule, days, k, i, b));
                }
            }
        },
    }
}

/// The earliest moment strictly between `now` and `end` at which some playlist item's
/// time span starts or ends, on one of the local days from `now`'s to `end`'s and on a
/// day that item may apply; nothing if there is none.
pub fn get_next_playlist_item_boundary_before_end(
    now: &ZonedDateTime,
    end: &ZonedDateTime,
    playlist: &Playlist,
) -> (r: Option<ZonedDateTime>)
    requires
        now.wf(),
        end.wf(),
        playlist.valid(),
    ensures
        match r {
            Some(z) => {
                &&& z.wf()
                &&& z.zone == now.zone
                &&& is_earliest_boundary(*now, *end, playlist.schedule@, z.instant)
            },
            None => forall|b: Instant| !#[trigger] is_playlist_boundary(
                *now,
                *end,
                playlist.schedule@,
                b,
            ),
        },
{
    let days = days_in_range_inclusive(now, end);
    let ghost ds = spec_days_in_range(*now, *end);
    let ghost sch = playlist.schedule@;
    let mut best: Option<ZonedDateTime> = None;
    let mut k: usize = 0;
    while k < playlist.schedule.len()
        invariant
            now.wf(),
            playlist.valid(),
            sch == playlist.schedule@,
            ds == spec_days_in_range(*now, *end),
            days@.len() == ds.len(),
            forall|j: int| 0 <= j < days@.len() ==> days@[j] == #[trigger] ds[j],
            forall|j: int| 0 <= j < days@.len() ==> -1_000_000_000 <= #[trigger] days@[j] <= 1_000_000_000,
            k <= sch.len(),
            best_so_far(best, *now, *end, sch, ds, k as int, 0),
        decreases sch.len() - k,
    {
        let item = &playlist.schedule[k];
        assert(item.valid());
        let mut i: usize = 0;
        while i < days.len()
            invariant
                now.wf(),
                playlist.valid(),
                sch == playlist.schedule@,
                ds == spec_days_in_range(*now, *end),
                days@.len() == ds.len(),
                forall|j: int| 0 <= j < days@.len() ==> days@[j] == #[trigger] ds[j],
                forall|j: int| 0 <= j < days@.len() ==> -1_000_000_000 <= #[trigger] days@[j] <= 1_000_000_000,
                k < sch.len(),
                *item == sch[k as int],
                item.valid(),
                i <= days@.len(),
                best_so_far(best, *now, *end, sch, ds, k as int, i as int),
            decreases days@.len() - i,
        {
            let day = days[i];
            assert(day == ds[i as int]);
            let ghost before = best;
            let mut c1: Option<ZonedDateTime> = None;
            let mut c2: Option<ZonedDateTime> = None;
            if is_day_allowed(&item.days, day) {
                if let Some(span) = &item.time {
                    match span {
                        PlaylistTimeSpan::From { from } => {
                            c1 = make_boundary(now, end, day, from);
                        },
                        PlaylistTimeSpan::To { to } => {
                            c1 = make_boundary(now, end, day, to);
                        },
                        PlaylistTimeSpan::Between { from, to } => {
                            c1 = make_boundary(now, end, day, from);
                            c2 = make_boundary(now, end, day, to);
                        },
                    }
                }
            }
            keep_earlier(&mut best, c1);
            keep_earlier(&mut best, c2);
            proof {
                lemma_best_after_day(
                    before,
                    best,
                    c1,
                    c2,
                    *now,
                    *end,
                    sch,
                    ds,
                    k as int,
                    i as int,
                );
            }
            i = i + 1;
        }
        proof {
            assert forall|b: Instant| #[trigger]
                seen(*now, *end, sch, ds, k + 1, 0, b) == seen(
                    *now,
                    *end,
                    sch,
                    ds,
                    k as int,
                    ds.len() as int,
                    b,
                ) by {
                lemma_seen_next_item(*now, *end, sch, ds, k as int, b);
            }
        }
        k = k + 1;
    }
    proof {
        assert forall|b: Instant| #[trigger]
            is_playlist_boundary(*now, *end, sch, b) == seen(
                *now,
                *end,
                sch,
                ds,
                sch.len() as int,
                0,
                b,
            ) by {
            if is_playlist_boundary(*now, *end, sch, b) {
                let (k2, i2) = choose|k2: int, i2: int|
                    0 <= k2 < sch.len() && 0 <= i2 < ds.len() && #[trigger] item_day_boundary(
                        *now,
                        *end,
                        sch[k2],
                        ds[i2],
                        b,
                    );
                assert(seen(*now, *end, sch, ds, sch.len() as int, 0, b));
            }
            if seen(*now, *end, sch, ds, sch.len() as int, 0, b) {
                let (k2, i2) = choose|k2: int, i2: int|
                    0 <= k2 < sch.len() && 0 <= i2 < ds.len() && #[trigger] item_day_boundary(
                        *now,
                        *end,
                        sch[k2],
                        ds[i2],
                        b,
                    );
                assert(is_playlist_boundary(*now, *end, sch, b));
            }
        }
    }
    best
}

/// `z` is when the device should next refresh after showing an item with refresh
/// `refresh` at `now`: the specified refresh, or a minute after `now` if that is not later
/// than `now`, brought forward to the earliest playlist boundary before it.
pub open spec fn is_next_refresh(
    now: ZonedDateTime,
    refresh: Refresh,
    schedule: Seq<PlaylistItem>,
    z: ZonedDateTime,
) -> bool {
    match spec_specified_refresh(now, refresh) {
        SpecifiedRefresh::At(t) => if !now.instant.spec_is_before(t) {
            z.instant == later_by(now.instant, 60)
        } else {
            let end = zoned(now.zone, t);
            if exists|b: Instant| #[trigger] is_playlist_boundary(now, end, schedule, b) {
                is_earliest_boundary(now, end, schedule, z.instant)
            } else {
                z.instant == t
            }
        },
        _ => false,
    }
}

proof fn lemma_boundary_between(now: ZonedDateTime, end: ZonedDateTime, schedule: Seq<PlaylistItem>, b: Instant)
    requires
        is_playlist_boundary(now, end, schedule, b),
    ensures
        now.instant.spec_is_before(b),
        b.spec_is_before(end.instant),
{
    let (k, i) = choose|k: int, i: int|
        0 <= k < schedule.len() && 0 <= i < spec_days_in_range(now, end).len()
            && #[trigger] item_day_boundary(
            now,
            end,
            schedule[k],
            spec_days_in_range(now, end)[i],
            b,
        );
    let day = spec_days_in_range(now, end)[i];
    let span = schedule[k].time.unwrap();
    match span {
        PlaylistTimeSpan::From { from } => {
            assert(boundary_at(now, end, day, from) == Some(b));
        },
        PlaylistTimeSpan::To { to } => {
            assert(boundary_at(now, end, day, to) == Some(b));
        },
        PlaylistTimeSpan::Between { from, to } => {
            if boundary_at(now, end, day, from) == Some(b) {
            } else {
                assert(boundary_at(now, end, day, to) == Some(b));
            }
        },
    }
}

/// The next refresh always comes after `now`, and, where the item asks for a refresh
/// later than `now`, never after that refresh: a playlist boundary can only bring it
/// forward.
pub proof fn lemma_next_refresh_in_future(
    now: ZonedDateTime,
    refresh: Refresh,
    schedule: Seq<PlaylistItem>,
    z: ZonedDateTime,
)
    requires
        now.wf(),
        is_next_refresh(now, refresh, schedule, z),
    ensures
        now.instant.spec_is_before(z.instant),
        spec_specified_refresh(now, refresh) matches SpecifiedRefresh::At(t) ==> (
        now.instant.spec_is_before(t) ==> !t.spec_is_before(z.instant)),
{
    match spec_specified_refresh(now, refresh) {
        SpecifiedRefresh::At(t) => {
            if now.instant.spec_is_before(t) {
                let end = zoned(now.zone, t);
                if exists|b: Instant| #[trigger] is_playlist_boundary(now, end, schedule, b) {
                    lemma_boundary_between(now, end, schedule, z.instant);
                }
            }
        },
        _ => {},
    }
}

/// `e` is an end of the item's time span: the start of a `From` span, the end of a `To`
/// span, or either end of a `Between` span.
pub open spec fn is_span_end(time: Option<PlaylistTimeSpan>, e: TimeOfDay) -> bool {
    match time {
        Some(PlaylistTimeSpan::From { from }) => e == from,
        Some(PlaylistTimeSpan::To { to }) => e == to,
        Some(PlaylistTimeSpan::Between { from, to }) => e == from || e == to,
        None => false,
    }
}

/// Every end of an item's time span, on a local day from `now`'s to `end`'s that the
/// item allows, falling strictly between `now` and `end`, is a playlist boundary; so the
/// earliest boundary is never later than it.
pub proof fn lemma_span_ends_are_boundaries(
    now: ZonedDateTime,
    end: ZonedDateTime,
    schedule: Seq<PlaylistItem>,
    k: int,
    i: int,
    e: TimeOfDay,
    b: Instant,
)
    requires
        0 <= k < schedule.len(),
        0 <= i < spec_days_in_range(now, end).len(),
        day_allowed(schedule[k].days, spec_days_in_range(now, end)[i]),
        is_span_end(schedule[k].time, e),
        boundary_at(now, end, spec_days_in_range(now, end)[i], e) == Some(b),
    ensures
        is_playlist_boundary(now, end, schedule, b),
        forall|z: Instant| #[trigger] is_earliest_boundary(now, end, schedule, z) ==> !b.spec_is_before(z),
{
    assert(item_day_boundary(now, end, schedule[k], spec_days_in_range(now, end)[i], b));
}

/// The next refresh never comes after the end of an item's time span (or its start) on a
/// day the item allows, where that falls after `now` and before the refresh asked for:
/// the device calls again by then, so that no item is skipped.
pub proof fn lemma_next_refresh_not_after_span_ends(
    now: ZonedDateTime,
    refresh: Refresh,
    schedule: Seq<PlaylistItem>,
    z: ZonedDateTime,
    t: Instant,
    k: int,
    i: int,
    e: TimeOfDay,
    b: Instant,
)
    requires
        is_next_refresh(now, refresh, schedule, z),
        spec_specified_refresh(now, refresh) == SpecifiedRefresh::At(t),
        now.instant.spec_is_before(t),
        0 <= k < schedule.len(),
        0 <= i < spec_days_in_range(now, zoned(now.zone, t)).len(),
        day_allowed(schedule[k].days, spec_days_in_range(now, zoned(now.zone, t))[i]),
        is_span_end(schedule[k].time, e),
        boundary_at(now, zoned(now.zone, t), spec_days_in_range(now, zoned(now.zone, t))[i], e)
            == Some(b),
    ensures
        !b.spec_is_before(z.instant),
{
    lemma_span_ends_are_boundaries(now, zoned(now.zone, t), schedule, k, i, e, b);
}

/// A minute after `now` stays within the instants chrono represents wherever it stands
/// in for the refresh: where the refresh asked for is not later than `now`.
pub open spec fn fallback_in_range(now: ZonedDateTime, refresh: Refresh) -> bool {
    match spec_specified_refresh(now, refresh) {
        SpecifiedRefresh::At(t) => now.instant.spec_is_before(t) || now.instant.secs + 60
            <= MAX_TIMESTAMP,
        _ => true,
    }
}

/// When the device should next refresh after showing an item with refresh `refresh` at
/// `now`. A minute after `now` stands in for a refresh that is not later than `now`.
/// Otherwise the refresh is brought forward to the earliest playlist boundary before it,
/// so that no playlist item is skipped.
pub fn get_next_refresh_time(now: &ZonedDateTime, refresh: &Refresh, playlist: &Playlist) -> (r:
    Result<ZonedDateTime, String>)
    requires
        now.wf(),
        playlist.valid(),
        refresh_in_range(*now, *refresh),
        fallback_in_range(*now, *refresh),
    ensures
        match r {
            Ok(z) => {
                &&& z.wf()
                &&& z.zone == now.zone
                &&& is_next_refresh(*now, *refresh, playlist.schedule@, z)
            },
            Err(message) => specified_refresh_error(*refresh, spec_specified_refresh(*now, *refresh))
                == Some(message@),
        },
{
    let specified_next = get_next_specified_refresh_time(now, refresh)?;
    if !now.instant.is_before(&specified_next.instant) {
        let a_minute_later = Instant { secs: now.instant.secs + 60, nanos: now.instant.nanos };
        return Ok(ZonedDateTime::at(now.zone, a_minute_later));
    }
    assert(specified_next == zoned(now.zone, specified_next.instant));
    let maybe_boundary = get_next_playlist_item_boundary_before_end(now, &specified_next, playlist);
    match maybe_boundary {
        Some(earliest_boundary) => {
            if earliest_boundary.instant.is_before(&specified_next.instant) {
                Ok(earliest_boundary)
            } else {
                Ok(specified_next)
            }
        },
        None => Ok(specified_next),
    }
}

/// The rig to show and the number of seconds until the device should call again.
#[derive(Debug)]
pub struct PlaylistResult {
    pub refresh_rate_seconds: u32,
    pub rig: String,
}

/// Whole seconds from `now` until `z` (rounded towards zero), as chrono's
/// `num_seconds` counts them, cut to 32 bits as `as u32` does.
pub open spec fn refresh_rate_seconds(now: ZonedDateTime, z: ZonedDateTime) -> u32 {
    ((z.instant.total_nanos() - now.instant.total_nanos()) / 1_000_000_000) as u32
}

/// The item refreshes of a playlist stay within chrono's range where they are used.
pub open spec fn playlist_in_range(now: ZonedDateTime, schedule: Seq<PlaylistItem>) -> bool {
    forall|k: int|
        #[trigger] is_first_applying(schedule, now.spec_weekday(), now.spec_local_time(), k)
            ==> refresh_in_range(now, schedule[k].refresh) && fallback_in_range(
            now,
            schedule[k].refresh,
        )
}

/// What `evaluate_playlist_at` gives: the rig of the first item that applies at `now`,
/// with the seconds until the next refresh; nothing if no item applies; the refresh's
/// error if its cron schedule fails.
pub open spec fn is_playlist_evaluation(
    now: ZonedDateTime,
    schedule: Seq<PlaylistItem>,
    r: Result<Option<PlaylistResult>, String>,
) -> bool {
    let today = now.spec_weekday();
    let t = now.spec_local_time();
    match r {
        Ok(None) => forall|k: int|
            0 <= k < schedule.len() ==> !item_applies(#[trigger] schedule[k], today, t),
        Ok(Some(result)) => exists|k: int, z: ZonedDateTime|
            #[trigger] is_first_applying(schedule, today, t, k) && result.rig@ == schedule[k].rig@
                && #[trigger] is_next_refresh(now, schedule[k].refresh, schedule, z)
                && result.refresh_rate_seconds == refresh_rate_seconds(now, z),
        Err(message) => exists|k: int|
            #[trigger] is_first_applying(schedule, today, t, k) && specified_refresh_error(
                schedule[k].refresh,
                spec_specified_refresh(now, schedule[k].refresh),
            ) == Some(message@),
    }
}

/// Evaluates a playlist at `now`: the first item that applies, and the seconds until
/// the device should call again.
pub fn evaluate_playlist_at(playlist: &Playlist, now: &ZonedDateTime) -> (r: Result<
    Option<PlaylistResult>,
    String,
>)
    requires
        now.wf(),
        playlist.valid(),
        playlist_in_range(*now, playlist.schedule@),
    ensures
        is_playlist_evaluation(*now, playlist.schedule@, r),
{
    let playlist_item = match find_active_playlist_item(playlist, now) {
        Some(item) => item,
        None => {
            return Ok(None);
        },
    };
    let ghost k = choose|k: int|
        is_first_applying(
            playlist.schedule@,
            now.spec_weekday(),
            now.spec_local_time(),
            k,
        ) && *playlist_item == #[trigger] playlist.schedule@[k];
    assert(is_first_applying(playlist.schedule@, now.spec_weekday(), now.spec_local_time(), k));
    let next = match get_next_refresh_time(now, &playlist_item.refresh, playlist) {
        Ok(n) => n,
        Err(message) => {
            return Err(message);
        },
    };
    let whole = next.instant.secs - now.instant.secs;
    let seconds = if next.instant.nanos >= now.instant.nanos {
        whole
    } else {
        whole - 1
    };
    proof {
        assert(now.instant.spec_is_before(next.instant));
        let total = next.instant.total_nanos() - now.instant.total_nanos();
        assert(total == whole * 1_000_000_000 + (next.instant.nanos - now.instant.nanos));
        assert(total / 1_000_000_000 == seconds) by (nonlinear_arith)
            requires
                total == whole * 1_000_000_000 + (next.instant.nanos - now.instant.nanos),
                0 <= next.instant.nanos < 1_000_000_000,
                0 <= now.instant.nanos < 1_000_000_000,
                seconds == whole - (if next.instant.nanos >= now.instant.nanos {
                    0int
                } else {
                    1int
                }),
        ;
    }
    let refresh_rate_seconds = seconds as u32;
    let rig = playlist_item.rig.clone();
    Ok(Some(PlaylistResult { refresh_rate_seconds, rig }))
}

/// The message when a refresh would fall beyond the instants chrono represents.
pub open spec fn refresh_out_of_range_message() -> Seq<char> {
    "The refresh time is out of range."@
}

/// Whether the refresh of the item that applies at `now` can be represented: `now` is
/// at least a minute before the end of chrono's range (room for the fallback refresh),
/// and a fixed refresh of that item ends within the range.
pub open spec fn refresh_representable(now: ZonedDateTime, schedule: Seq<PlaylistItem>) -> bool {
    &&& now.instant.secs <= MAX_TIMESTAMP - 60
    &&& forall|k: int|
        #[trigger] is_first_applying(schedule, now.spec_weekday(), now.spec_local_time(), k)
            ==> refresh_in_range(now, schedule[k].refresh)
}

/// What `evaluate_playlist_checked_at` gives: `evaluate_playlist_at`'s result where the
/// refresh can be represented, else the out-of-range error.
pub open spec fn is_checked_playlist_evaluation(
    now: ZonedDateTime,
    schedule: Seq<PlaylistItem>,
    r: Result<Option<PlaylistResult>, String>,
) -> bool {
    if refresh_representable(now, schedule) {
        is_playlist_evaluation(now, schedule, r)
    } else {
        r matches Err(message) && message@ == refresh_out_of_range_message()
    }
}

/// Evaluates a playlist at `now`, first refusing, with "The refresh time is out of
/// range.", an instant whose refresh chrono could not represent.
pub fn evaluate_playlist_checked_at(playlist: &Playlist, now: &ZonedDateTime) -> (r: Result<
    Option<PlaylistResult>,
    String,
>)
    requires
        now.wf(),
        playlist.valid(),
    ensures
        is_checked_playlist_evaluation(*now, playlist.schedule@, r),
{
    let in_range = now.instant.secs <= MAX_TIMESTAMP - 60 && match find_active_playlist_item(
        playlist,
        now,
    ) {
        None => true,
        Some(item) => {
            let seconds: i64 = match &item.refresh {
                Refresh::Seconds { seconds } => *seconds as i64,
                Refresh::Minutes { minutes } => *minutes as i64 * 60,
                Refresh::Hours { hours } => *hours as i64 * 3600,
                Refresh::Cron { .. } => 0,
            };
            now.instant.secs <= MAX_TIMESTAMP - seconds
        },
    };
    if !in_range {
        proof {
            reveal_strlit("The refresh time is out of range.");
        }
        return Err(String::from_str("The refresh time is out of range."));
    }
    evaluate_playlist_at(playlist, now)
}

/// Evaluates a playlist now, in time zone `zone`. Whatever the clock says, the result
/// is `evaluate_playlist_checked_at`'s at some valid instant in that zone.
pub fn evaluate_playlist_and_refresh(playlist: &Playlist, zone: u32) -> (r: Result<
    Option<PlaylistResult>,
    String,
>)
    requires
        zone < crate::clock::ZONE_COUNT,
        playlist.valid(),
    ensures
        exists|now: ZonedDateTime|
            now.wf() && now.zone == zone && #[trigger] is_checked_playlist_evaluation(
                now,
                playlist.schedule@,
                r,
            ),
{
    let now = now_in(zone);
    evaluate_playlist_checked_at(playlist, &now)
}

} // verus!
