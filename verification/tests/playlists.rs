use chrono::{Datelike, NaiveDate, NaiveDateTime, TimeZone};
use chrono_tz::Tz;
use slipway::clock::{Instant, TimeOfDay, Weekday, ZonedDateTime};
use slipway::refresh::{
    days_in_range_inclusive, evaluate_playlist_at, evaluate_playlist_checked_at,
    get_next_refresh_time,
};
use slipway::schedule::{
    find_active_playlist_item, is_now_in_timespan, is_today_in_days, new_playlist, Playlist,
    PlaylistItem, PlaylistTimeSpan, Refresh,
};

fn tz() -> Tz {
    // Some timezone which is never UTC.
    Tz::Canada__Atlantic
}

fn zone_of(tz: Tz) -> u32 {
    chrono_tz::TZ_VARIANTS
        .iter()
        .position(|z| *z == tz)
        .expect("a known time zone") as u32
}

fn dt(s: &str) -> ZonedDateTime {
    // Helper for "2025-01-05 14:00:00"
    let local = tz()
        .from_local_datetime(
            &NaiveDateTime::parse_from_str(s, "%Y-%m-%d %H:%M:%S")
                .expect("Should be valid date time"),
        )
        .single()
        .expect("Should be unambiguous local time");
    ZonedDateTime::at(
        zone_of(tz()),
        Instant {
            secs: local.timestamp(),
            nanos: local.timestamp_subsec_nanos(),
        },
    )
}

fn time(h: u32, m: u32, s: u32) -> TimeOfDay {
    TimeOfDay {
        secs: h * 3600 + m * 60 + s,
        nanos: 0,
    }
}

fn rig() -> String {
    "test_rig".to_string()
}

fn midnight_refresh() -> Refresh {
    Refresh::Seconds { seconds: 20 }
}

fn standard_refresh() -> Refresh {
    Refresh::Seconds { seconds: 10 }
}

fn create_playlist() -> Playlist {
    Playlist {
        schedule: vec![
            PlaylistItem {
                time: Some(PlaylistTimeSpan::Between {
                    from: time(23, 0, 0),
                    to: time(1, 0, 0),
                }),
                days: Some(vec![Weekday::Tue, Weekday::Wed, Weekday::Thu]),
                refresh: midnight_refresh(),
                rig: "rig20".to_string(),
            },
            PlaylistItem {
                time: None,
                days: None,
                refresh: standard_refresh(),
                rig: "rig10".to_string(),
            },
        ],
    }
}

#[test]
fn monday_during_midnight_refresh_time_should_return_standard() {
    let playlist = create_playlist();

    assert_eq!(
        &standard_refresh(),
        &find_active_playlist_item(&playlist, &dt("2025-01-06 23:30:00"))
            .unwrap()
            .refresh
    );
}

#[test]
fn tuesday_morning_during_midnight_refresh_time_should_return_midnight() {
    let playlist = create_playlist();

    // This result isn't necessarily expected, but it is reasonable.
    // If it isn't the desired behavior then a more complicated playlist can be used.
    assert_eq!(
        &midnight_refresh(),
        &find_active_playlist_item(&playlist, &dt("2025-01-07 00:30:00"))
            .unwrap()
            .refresh
    );
}

#[test]
fn tuesday_night_during_midnight_refresh_time_should_return_midnight() {
    let playlist = create_playlist();

    assert_eq!(
        &midnight_refresh(),
        &find_active_playlist_item(&playlist, &dt("2025-01-07 23:30:00"))
            .unwrap()
            .refresh
    );
}

#[test]
fn wednesday_morning_during_midnight_refresh_time_should_return_midnight() {
    let playlist = create_playlist();

    assert_eq!(
        &midnight_refresh(),
        &find_active_playlist_item(&playlist, &dt("2025-01-08 00:30:00"))
            .unwrap()
            .refresh
    );
}

#[test]
fn thursday_night_during_midnight_refresh_time_should_return_midnight() {
    let playlist = create_playlist();

    assert_eq!(
        &midnight_refresh(),
        &find_active_playlist_item(&playlist, &dt("2025-01-09 23:30:00"))
            .unwrap()
            .refresh
    );
}

#[test]
fn friday_morning_during_midnight_refresh_time_should_return_standard() {
    let playlist = create_playlist();

    assert_eq!(
        &standard_refresh(),
        &find_active_playlist_item(&playlist, &dt("2025-01-10 00:30:00"))
            .unwrap()
            .refresh
    );
}

#[test]
fn wednesday_outside_midnight_refresh_time_should_return_standard() {
    let playlist = create_playlist();

    assert_eq!(
        &standard_refresh(),
        &find_active_playlist_item(&playlist, &dt("2025-01-08 22:55:00"))
            .unwrap()
            .refresh
    );
}

#[test]
fn wednesday_outside_midnight_refresh_time_should_return_standard_2() {
    let playlist = create_playlist();

    assert_eq!(
        &standard_refresh(),
        &find_active_playlist_item(&playlist, &dt("2025-01-08 01:15:00"))
            .unwrap()
            .refresh
    );
}

#[test]
fn when_no_days_specified_should_apply_to_all_days() {
    let playlist = Playlist {
        schedule: vec![
            PlaylistItem {
                time: Some(PlaylistTimeSpan::Between {
                    from: time(23, 0, 0),
                    to: time(1, 0, 0),
                }),
                days: None,
                refresh: midnight_refresh(),
                rig: "rig20".to_string(),
            },
            PlaylistItem {
                time: None,
                days: None,
                refresh: standard_refresh(),
                rig: "rig10".to_string(),
            },
        ],
    };

    assert_eq!(
        &standard_refresh(),
        &find_active_playlist_item(&playlist, &dt("2025-01-05 22:30:00"))
            .unwrap()
            .refresh
    );

    assert_eq!(
        &midnight_refresh(),
        &find_active_playlist_item(&playlist, &dt("2025-01-05 23:30:00"))
            .unwrap()
            .refresh
    );

    assert_eq!(
        &midnight_refresh(),
        &find_active_playlist_item(&playlist, &dt("2025-01-05 00:30:00"))
            .unwrap()
            .refresh
    );

    assert_eq!(
        &standard_refresh(),
        &find_active_playlist_item(&playlist, &dt("2025-01-05 01:30:00"))
            .unwrap()
            .refresh
    );
}

#[test]
fn when_no_times_specified_should_apply_to_all_times() {
    let playlist = Playlist {
        schedule: vec![
            PlaylistItem {
                time: None,
                days: Some(vec![Weekday::Tue, Weekday::Wed, Weekday::Thu]),
                refresh: midnight_refresh(),
                rig: "rig20".to_string(),
            },
            PlaylistItem {
                time: None,
                days: None,
                refresh: standard_refresh(),
                rig: "rig10".to_string(),
            },
        ],
    };

    assert_eq!(
        &standard_refresh(),
        &find_active_playlist_item(&playlist, &dt("2025-01-05 22:30:00"))
            .unwrap()
            .refresh
    );

    assert_eq!(
        &standard_refresh(),
        &find_active_playlist_item(&playlist, &dt("2025-01-06 22:30:00"))
            .unwrap()
            .refresh
    );

    assert_eq!(
        &midnight_refresh(),
        &find_active_playlist_item(&playlist, &dt("2025-01-07 22:30:00"))
            .unwrap()
            .refresh
    );

    assert_eq!(
        &midnight_refresh(),
        &find_active_playlist_item(&playlist, &dt("2025-01-08 22:30:00"))
            .unwrap()
            .refresh
    );
}

#[test]
fn days_in_range() {
    // Pick times close to midnight to reveal any timezone issues.
    let start = dt("2025-01-05 00:15:01");
    let end = dt("2025-01-07 23:57:16");

    let expected_start = NaiveDate::from_ymd_opt(2025, 1, 5).unwrap();
    let expected_end = NaiveDate::from_ymd_opt(2025, 1, 7).unwrap();
    let days: Vec<_> = days_in_range_inclusive(&start, &end);
    assert_eq!(
        days,
        vec![
            expected_start.num_days_from_ce() as i64,
            expected_start.succ_opt().unwrap().num_days_from_ce() as i64,
            expected_end.num_days_from_ce() as i64
        ]
    );
}

#[test]
fn no_boundaries_earlier_than_normal_refresh() {
    // If no item boundaries fall before the normal refresh, we get the normal refresh back.
    let now = dt("2025-01-05 14:15:16");
    let refresh = Refresh::Hours { hours: 1 };
    let playlist = Playlist { schedule: vec![] };

    let next = get_next_refresh_time(&now, &refresh, &playlist).unwrap();
    assert_eq!(next, dt("2025-01-05 15:15:16"));
}

fn boundary_before_normal_refresh_inner(days: Option<Vec<Weekday>>) -> ZonedDateTime {
    let now = dt("2025-01-05 14:00:00");
    let refresh = Refresh::Minutes { minutes: 30 };

    let item = PlaylistItem {
        time: Some(PlaylistTimeSpan::From {
            from: time(14, 10, 0),
        }),
        days,
        refresh: Refresh::Hours { hours: 10 },
        rig: rig(),
    };
    let playlist = Playlist {
        schedule: vec![item],
    };

    get_next_refresh_time(&now, &refresh, &playlist).unwrap()
}

#[test]
fn boundary_before_normal_refresh_day_specified() {
    let next = boundary_before_normal_refresh_inner(
        Some(vec![Weekday::Sun]), // "2025-01-05" is a Sunday
    );
    assert_eq!(next, dt("2025-01-05 14:10:00"));
}

#[test]
fn boundary_before_normal_refresh_other_day_specified() {
    let next = boundary_before_normal_refresh_inner(
        Some(vec![Weekday::Mon]), // "2025-01-05" is a Sunday
    );

    // Day didn't match.
    assert_eq!(next, dt("2025-01-05 14:30:00"));
}

#[test]
fn boundary_before_normal_refresh_no_day_specified() {
    let next = boundary_before_normal_refresh_inner(None);
    assert_eq!(next, dt("2025-01-05 14:10:00"));
}

#[test]
fn boundary_after_normal_refresh() {
    // The boundary is at 14:50, but our normal refresh is 14:30.
    // We should get 14:30 back.
    let now = dt("2025-01-05 14:00:00");
    let refresh = Refresh::Minutes { minutes: 30 };
    let days = vec![Weekday::Sun];

    let item = PlaylistItem {
        time: Some(PlaylistTimeSpan::From {
            from: time(14, 50, 0),
        }),
        days: Some(days),
        refresh: Refresh::Hours { hours: 10 },
        rig: rig(),
    };
    let playlist = Playlist {
        schedule: vec![item],
    };

    let next = get_next_refresh_time(&now, &refresh, &playlist).unwrap();
    assert_eq!(next, dt("2025-01-05 14:30:00"));
}

#[test]
fn boundary_between_span() {
    // The item is active between 14:05 and 14:15, and we want to detect that
    // it "turns on" at 14:05, which is earlier than the normal 14:30 refresh.
    let now = dt("2025-01-05 14:00:00");
    let refresh = Refresh::Minutes { minutes: 30 };
    let days = vec![Weekday::Sun];

    let item = PlaylistItem {
        time: Some(PlaylistTimeSpan::Between {
            from: time(14, 5, 0),
            to: time(14, 15, 0),
        }),
        days: Some(days),
        refresh: Refresh::Hours { hours: 10 },
        rig: rig(),
    };
    let playlist = Playlist {
        schedule: vec![item],
    };

    let next = get_next_refresh_time(&now, &refresh, &playlist).unwrap();
    assert_eq!(next, dt("2025-01-05 14:05:00"));
}

#[test]
fn cron_no_boundary() {
    let now = dt("2025-01-05 14:00:00");
    let refresh = Refresh::Cron {
        cron: "0 * * * *".to_string(),
    };

    let item = PlaylistItem {
        time: Some(PlaylistTimeSpan::From {
            from: time(0, 0, 0),
        }),
        days: None,
        refresh: Refresh::Hours { hours: 10 },
        rig: rig(),
    };
    let playlist = Playlist {
        schedule: vec![item],
    };

    let next = get_next_refresh_time(&now, &refresh, &playlist).unwrap();
    assert_eq!(next, dt("2025-01-05 15:00:00"));
}

#[test]
fn an_unparsable_cron_is_reported() {
    let now = dt("2025-01-05 14:00:00");
    let refresh = Refresh::Cron {
        cron: "not a cron".to_string(),
    };
    let playlist = Playlist { schedule: vec![] };
    let error = get_next_refresh_time(&now, &refresh, &playlist).unwrap_err();
    assert!(error.contains("not a cron"));
}

#[test]
fn evaluation_gives_the_rig_and_seconds_until_refresh() {
    let playlist = create_playlist();
    let result = evaluate_playlist_at(&playlist, &dt("2025-01-06 12:00:00"))
        .unwrap()
        .unwrap();
    assert_eq!(result.rig, "rig10");
    assert_eq!(result.refresh_rate_seconds, 10);

    let empty = Playlist { schedule: vec![] };
    assert!(evaluate_playlist_at(&empty, &dt("2025-01-06 12:00:00"))
        .unwrap()
        .is_none());
}

#[test]
fn a_refresh_stops_at_the_next_item_boundary() {
    let playlist = create_playlist();
    // Tuesday 22:59:55: the standard item applies with a 10 second refresh, but the
    // midnight item begins at 23:00:00, five seconds later.
    let result = evaluate_playlist_at(&playlist, &dt("2025-01-07 22:59:55"))
        .unwrap()
        .unwrap();
    assert_eq!(result.rig, "rig10");
    assert_eq!(result.refresh_rate_seconds, 5);
}

#[test]
fn overnight_spans_wrap_around_midnight() {
    let span = PlaylistTimeSpan::Between {
        from: time(23, 0, 0),
        to: time(1, 0, 0),
    };
    assert!(is_now_in_timespan(&span, &time(23, 30, 0)));
    assert!(is_now_in_timespan(&span, &time(0, 30, 0)));
    assert!(!is_now_in_timespan(&span, &time(12, 0, 0)));
    assert!(is_now_in_timespan(&PlaylistTimeSpan::To { to: time(1, 0, 0) }, &time(1, 0, 0)));
    assert!(!is_now_in_timespan(&PlaylistTimeSpan::From { from: time(1, 0, 0) }, &time(0, 59, 59)));
}

#[test]
fn an_empty_day_list_matches_no_day() {
    assert!(!is_today_in_days(&vec![], Weekday::Mon));
    assert!(is_today_in_days(&vec![Weekday::Mon], Weekday::Mon));
}

#[test]
fn a_new_playlist_shows_its_rig_hourly() {
    let playlist = new_playlist(Some("rig".to_string()));
    assert_eq!(playlist.schedule.len(), 1);
    assert_eq!(playlist.schedule[0].refresh, Refresh::Seconds { seconds: 3600 });
    assert_eq!(playlist.schedule[0].rig, "rig");
    assert!(new_playlist(None).schedule.is_empty());
}

#[test]
fn a_zero_refresh_waits_a_minute() {
    let now = dt("2025-01-05 14:00:00");
    let refresh = Refresh::Seconds { seconds: 0 };
    let playlist = Playlist { schedule: vec![] };
    let next = get_next_refresh_time(&now, &refresh, &playlist).unwrap();
    assert_eq!(next, dt("2025-01-05 14:01:00"));
}

#[test]
fn refreshes_beyond_the_representable_range_are_refused() {
    let utc = zone_of(chrono_tz::UTC);
    let last = 8_210_266_876_799;
    let always = |seconds: u32| Playlist {
        schedule: vec![PlaylistItem {
            time: None,
            days: None,
            refresh: Refresh::Seconds { seconds },
            rig: rig(),
        }],
    };
    let out_of_range = "The refresh time is out of range.";

    let near_end = ZonedDateTime::at(utc, Instant { secs: last - 100, nanos: 0 });
    let fits = evaluate_playlist_checked_at(&always(100), &near_end).unwrap().unwrap();
    assert_eq!(fits.rig, "test_rig");
    assert_eq!(fits.refresh_rate_seconds, 100);
    assert_eq!(evaluate_playlist_checked_at(&always(101), &near_end).unwrap_err(), out_of_range);

    // Within the last minute even a playlist with no items is refused.
    let last_minute = ZonedDateTime::at(utc, Instant { secs: last - 59, nanos: 0 });
    let empty = Playlist { schedule: vec![] };
    assert_eq!(evaluate_playlist_checked_at(&empty, &last_minute).unwrap_err(), out_of_range);
    assert!(evaluate_playlist_checked_at(&empty, &dt("2025-01-06 12:00:00")).unwrap().is_none());
}
