//! Playlists: which rig a device shows at a given local day and time.
use vstd::prelude::*;

use crate::clock::{TimeOfDay, Weekday, ZonedDateTime};

verus! {

/// When the device should next call the server after showing a playlist item.
#[derive(Debug, Clone, PartialEq, Eq)]
pub enum Refresh {
    Seconds { seconds: u32 },
    Minutes { minutes: u32 },
    Hours { hours: u32 },
    Cron { cron: String },
}

/// The part of a day during which a playlist item is shown.
#[derive(Debug, Clone, Copy)]
pub enum PlaylistTimeSpan {
    From { from: TimeOfDay },
    To { to: TimeOfDay },
    Between { from: TimeOfDay, to: TimeOfDay },
}

/// A rig to show, with the days and times at which to show it.
#[derive(Debug)]
pub struct PlaylistItem {
    /// The time span during a day; `None` means all day.
    pub time: Option<PlaylistTimeSpan>,
    /// The days of the week; `None` means every day.
    pub days: Option<Vec<Weekday>>,
    /// When the device should next call after this item is shown.
    pub refresh: Refresh,
    /// The rig to run.
    pub rig: String,
}

/// A schedule of rigs; the first item that applies is shown.
#[derive(Debug)]
pub struct Playlist {
    pub schedule: Vec<PlaylistItem>,
}

impl PlaylistTimeSpan {
    /// Every time in the span is a valid time of day.
    pub open spec fn valid(self) -> bool {
        match self {
            PlaylistTimeSpan::From { from } => from.valid(),
            PlaylistTimeSpan::To { to } => to.valid(),
            PlaylistTimeSpan::Between { from, to } => from.valid() && to.valid(),
        }
    }
}

impl PlaylistItem {
    /// Its time span, if any, holds valid times.
    pub open spec fn valid(self) -> bool {
        self.time matches Some(span) ==> span.valid()
    }
}

impl Playlist {
    /// Every item holds valid times.
    pub open spec fn valid(self) -> bool {
        forall|k: int| 0 <= k < self.schedule@.len() ==> (#[trigger] self.schedule@[k]).valid()
    }
}

/// A set of days holds today: it is not empty and contains it.
pub open spec fn spec_is_today_in_days(days: Seq<Weekday>, today: Weekday) -> bool {
    days.len() > 0 && days.contains(today)
}

/// A time lies in a span. `From` and `To` bounds are inclusive; a `Between` span whose
/// start is later than its end runs overnight, past midnight.
pub open spec fn spec_is_in_timespan(span: PlaylistTimeSpan, t: TimeOfDay) -> bool {
    match span {
        PlaylistTimeSpan::From { from } => from.spec_le(t),
        PlaylistTimeSpan::To { to } => t.spec_le(to),
        PlaylistTimeSpan::Between { from, to } => if from.spec_le(to) {
            from.spec_le(t) && t.spec_le(to)
        } else {
            from.spec_le(t) || t.spec_le(to)
        },
    }
}

/// A `Between` span within one day (its start not later than its end) holds exactly the
/// times that both the `From` span of its start and the `To` span of its end hold, so no
/// time after its end on the same day; a span whose start is later than its end runs
/// overnight and holds the times that either holds.
pub proof fn lemma_between_span_meets_or_joins_its_ends(from: TimeOfDay, to: TimeOfDay, t: TimeOfDay)
    ensures
        from.spec_le(to) ==> (spec_is_in_timespan(PlaylistTimeSpan::Between { from, to }, t) <==> (
        spec_is_in_timespan(PlaylistTimeSpan::From { from }, t) && spec_is_in_timespan(
            PlaylistTimeSpan::To { to },
            t,
        ))),
        from.spec_le(to) && !t.spec_le(to) ==> !spec_is_in_timespan(
            PlaylistTimeSpan::Between { from, to },
            t,
        ),
        !from.spec_le(to) ==> (spec_is_in_timespan(PlaylistTimeSpan::Between { from, to }, t) <==> (
        spec_is_in_timespan(PlaylistTimeSpan::From { from }, t) || spec_is_in_timespan(
            PlaylistTimeSpan::To { to },
            t,
        ))),
{
}

/// An item applies on a weekday at a time: its days (if given) hold the weekday and its
/// span (if given) holds the time.
pub open spec fn item_applies(item: PlaylistItem, today: Weekday, t: TimeOfDay) -> bool {
    &&& (item.days matches Some(days) ==> spec_is_today_in_days(days@, today))
    &&& (item.time matches Some(span) ==> spec_is_in_timespan(span, t))
}

/// `k` is the first item of the schedule that applies.
pub open spec fn is_first_applying(schedule: Seq<PlaylistItem>, today: Weekday, t: TimeOfDay, k: int) -> bool {
    &&& 0 <= k < schedule.len()
    &&& item_applies(schedule[k], today, t)
    &&& forall|j: int| 0 <= j < k ==> !item_applies(#[trigger] schedule[j], today, t)
}

/// Whether `days` contains `day`.
pub fn contains_weekday(days: &Vec<Weekday>, day: Weekday) -> (b: bool)
    ensures
        b == days@.contains(day),
{
    let mut k: usize = 0;
    while k < days.len()
        invariant
            k <= days@.len(),
            forall|j: int| 0 <= j < k ==> days@[j] != day,
        decreases days@.len() - k,
    {
        if days[k] == day {
            assert(days@[k as int] == day);
            return true;
        }
        k = k + 1;
    }
    false
}

/// Whether `today` is one of `days`; an empty set holds no day.
pub fn is_today_in_days(days: &Vec<Weekday>, today: Weekday) -> (b: bool)
    ensures
        b == spec_is_today_in_days(days@, today),
{
    if days.len() == 0 {
        return false;
    }
    let mut k: usize = 0;
    while k < days.len()
        invariant
            k <= days@.len(),
            forall|j: int| 0 <= j < k ==> days@[j] != today,
        decreases days@.len() - k,
    {
        if days[k] == today {
            assert(days@[k as int] == today);
            return true;
        }
        k = k + 1;
    }
    false
}

/// Whether a time of day lies in a span.
pub fn is_now_in_timespan(span: &PlaylistTimeSpan, now: &TimeOfDay) -> (b: bool)
    ensures
        b == spec_is_in_timespan(*span, *now),
{
    match span {
        PlaylistTimeSpan::From { from } => from.le(now),
        PlaylistTimeSpan::To { to } => now.le(to),
        PlaylistTimeSpan::Between { from, to } => {
            if from.le(to) {
                from.le(now) && now.le(to)
            } else {
                from.le(now) || now.le(to)
            }
        },
    }
}

/// The first item of the playlist that applies at `now`'s local weekday and time.
pub fn find_active_playlist_item<'a>(playlist: &'a Playlist, now: &ZonedDateTime) -> (r: Option<
    &'a PlaylistItem,
>)
    requires
        now.wf(),
    ensures
        match r {
            Some(item) => exists|k: int|
                is_first_applying(
                    playlist.schedule@,
                    now.spec_weekday(),
                    now.spec_local_time(),
                    k,
                ) && *item == #[trigger] playlist.schedule@[k],
            None => forall|k: int|
                0 <= k < playlist.schedule@.len() ==> !item_applies(
                    #[trigger] playlist.schedule@[k],
                    now.spec_weekday(),
                    now.spec_local_time(),
                ),
        },
{
    let today = now.weekday();
    let time = now.local_time();
    let mut k: usize = 0;
    while k < playlist.schedule.len()
        invariant
            k <= playlist.schedule@.len(),
            today == now.spec_weekday(),
            time == now.spec_local_time(),
            forall|j: int| 0 <= j < k ==> !item_applies(#[trigger] playlist.schedule@[j], today, time),
        decreases playlist.schedule@.len() - k,
    {
        let item = &playlist.schedule[k];
        let mut applies = true;
        if let Some(days) = &item.days {
            if !is_today_in_days(days, today) {
                applies = false;
            }
        }
        if let Some(span) = &item.time {
            if !is_now_in_timespan(span, &time) {
                applies = false;
            }
        }
        if applies {
            assert(is_first_applying(playlist.schedule@, today, time, k as int));
            return Some(item);
        }
        k = k + 1;
    }
    None
}

/// The refresh of a playlist made for a single rig: once an hour.
pub const NEW_PLAYLIST_REFRESH_SECONDS: u32 = 3600;

/// A new playlist: empty, or one item that shows the rig all day, every day, and
/// refreshes once an hour.
pub fn new_playlist(rig: Option<String>) -> (p: Playlist)
    ensures
        p.valid(),
        match rig {
            None => p.schedule@.len() == 0,
            Some(r) => p.schedule@.len() == 1 && p.schedule@[0].time is None
                && p.schedule@[0].days is None && p.schedule@[0].refresh == (Refresh::Seconds {
                seconds: NEW_PLAYLIST_REFRESH_SECONDS,
            }) && p.schedule@[0].rig@ == r@,
        },
{
    match rig {
        None => Playlist { schedule: Vec::new() },
        Some(rig) => {
            let mut schedule: Vec<PlaylistItem> = Vec::new();
            schedule.push(
                PlaylistItem {
                    time: None,
                    days: None,
                    refresh: Refresh::Seconds { seconds: NEW_PLAYLIST_REFRESH_SECONDS },
                    rig,
                },
            );
            Playlist { schedule }
        },
    }
}

} // verus!
