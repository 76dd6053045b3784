use popcorn_hero::media::{MediaEntry, MetadataProviderConfig};
use popcorn_hero::metadata::{
    add_file_info, bare_metadata, batch_delay_ms, batch_report, build_local_metadata,
    clamp_cache_months, enabled_providers, fetch_missing_metadata, has_rich_metadata,
    image_requests, instant_of, local_metadata_at, next_step, record_image, record_is_fresh, retry_start,
    retry_step, skips_entry, after_answer, file_name_of, ChainMove, ProviderAnswer, start_metadata_retry, stop_metadata_retry, summary, tally,
    urlencoded, BatchCounts, DefaultKeys, EntryOutcome, ImageKind, ImageRequest, Instant,
    MetadataImages, ProviderStep, RetryAction, RetryPhase, StoredRecord, LIBRARY_FILE,
    METADATA_DIR, RECORD_FILE, RETRY_INTERVAL_SECONDS, RETRY_SETTLE_SECONDS, SETTINGS_FILE,
};
use popcorn_hero::watcher::SessionAction;

const DAY: i64 = 86_400;
const NEW_YEAR_2024: i64 = 1_704_067_200;

fn at(secs: i64) -> Instant {
    Instant { secs, nanos: 0 }
}

fn provider(id: &str, enabled: bool, key: &str) -> MetadataProviderConfig {
    MetadataProviderConfig {
        id: id.to_string(),
        name: id.to_uppercase(),
        enabled,
        api_key: key.to_string(),
    }
}

fn entry(id: &str, filename: &str) -> MediaEntry {
    MediaEntry {
        id: id.to_string(),
        path: format!("/m/{}", filename),
        filename: filename.to_string(),
        extension: "mkv".to_string(),
        size_bytes: 1234,
    }
}

#[test]
fn urlencoded_keeps_unreserved_characters() {
    assert_eq!(urlencoded("AZaz09-_.~"), "AZaz09-_.~");
    assert_eq!(urlencoded(""), "");
}

#[test]
fn urlencoded_escapes_the_rest() {
    assert_eq!(urlencoded("Movie Name & Co"), "Movie%20Name%20%26%20Co");
    assert_eq!(urlencoded("a=b+c#d?e"), "a%3Db%2Bc%23d%3Fe");
    assert_eq!(urlencoded("/:'"), "%2F%3A%27");
    assert_eq!(urlencoded("\n"), "%0A");
    assert_eq!(urlencoded("\u{0}"), "%00");
    assert_eq!(urlencoded("é"), "%E9");
    assert_eq!(urlencoded("€"), "%20AC");
    assert_eq!(urlencoded("😀"), "%1F600");
}

#[test]
fn cache_months_are_clamped() {
    assert_eq!(clamp_cache_months(0), 1);
    assert_eq!(clamp_cache_months(1), 1);
    assert_eq!(clamp_cache_months(4), 4);
    assert_eq!(clamp_cache_months(6), 6);
    assert_eq!(clamp_cache_months(7), 6);
    assert_eq!(clamp_cache_months(u32::MAX), 6);
}

#[test]
fn record_is_fresh_up_to_the_horizon() {
    let now = at(NEW_YEAR_2024);
    for months in 1..=6u32 {
        let horizon = months as i64 * 30 * DAY;
        assert!(record_is_fresh("tmdb", Some(at(NEW_YEAR_2024 - (horizon - 1))), now, months));
        assert!(record_is_fresh("tmdb", Some(at(NEW_YEAR_2024 - horizon)), now, months));
        assert!(!record_is_fresh("tmdb", Some(at(NEW_YEAR_2024 - (horizon + 1))), now, months));
    }
}

#[test]
fn freshness_counts_nanoseconds() {
    let horizon = 30 * DAY;
    let now = Instant { secs: NEW_YEAR_2024, nanos: 5 };
    let then = Instant { secs: NEW_YEAR_2024 - horizon, nanos: 4 };
    assert!(!record_is_fresh("omdb", Some(then), now, 1));
    let then = Instant { secs: NEW_YEAR_2024 - horizon, nanos: 5 };
    assert!(record_is_fresh("omdb", Some(then), now, 1));
    let then = Instant { secs: NEW_YEAR_2024 - horizon - 1, nanos: 999_999_999 };
    assert!(!record_is_fresh("omdb", Some(then), now, 1));
}

#[test]
fn timestamps_are_read_as_instants() {
    assert_eq!(instant_of("2024-01-01T00:00:00Z"), Some(at(NEW_YEAR_2024)));
    assert_eq!(instant_of("2024-01-01T01:00:00+01:00"), Some(at(NEW_YEAR_2024)));
    assert_eq!(instant_of("2023-12-31T19:00:00-05:00"), Some(at(NEW_YEAR_2024)));
    assert_eq!(
        instant_of("1970-01-01T00:00:01.5+00:00"),
        Some(Instant { secs: 1, nanos: 500_000_000 })
    );
    assert_eq!(instant_of("1969-12-31T23:59:59Z"), Some(at(-1)));
    assert_eq!(instant_of("2024-01-01"), None);
    assert_eq!(instant_of("2024-01-01 00:00:00"), None);
    assert_eq!(instant_of(""), None);
    assert_eq!(instant_of("yesterday"), None);
}

#[test]
fn local_record_is_never_fresh() {
    let now = at(NEW_YEAR_2024);
    assert!(!record_is_fresh("local", Some(now), now, 6));
    assert!(!record_is_fresh("local", None, now, 6));
}

#[test]
fn record_without_date_is_stale() {
    assert!(!record_is_fresh("tmdb", None, at(NEW_YEAR_2024), 1));
    assert!(!record_is_fresh("omdb", None, at(NEW_YEAR_2024), 6));
}

#[test]
fn age_counts_a_leap_second_as_chrono_does() {
    let horizon = 30 * DAY;
    // `then` is a reading within a leap second: 23:59:60 of the last day of 2023
    let then = Instant { secs: NEW_YEAR_2024 - 1, nanos: 1_000_000_000 };
    // at 00:00:00 thirty days on, the second of the day is earlier than then's
    assert!(record_is_fresh("tmdb", Some(then), at(NEW_YEAR_2024 + horizon), 1));
    // one second of the day later than then's, the leap second is counted in
    let then = Instant { secs: NEW_YEAR_2024 - 2, nanos: 1_000_000_000 };
    assert!(!record_is_fresh("tmdb", Some(then), at(NEW_YEAR_2024 - 1 + horizon), 1));
    let then = Instant { secs: NEW_YEAR_2024 - 2, nanos: 999_999_999 };
    assert!(record_is_fresh("tmdb", Some(then), at(NEW_YEAR_2024 - 2 + horizon), 1));
}

fn stale_by_chrono(now: &str, then: &str, months: u32) -> bool {
    let now = chrono::DateTime::parse_from_rfc3339(now).unwrap();
    let then = chrono::DateTime::parse_from_rfc3339(then).unwrap();
    now.signed_duration_since(then) > chrono::Duration::days(months as i64 * 30)
}

#[test]
fn freshness_agrees_with_chrono_on_timestamps() {
    let thens = [
        "2023-12-31T23:59:59Z",
        "2023-12-31T23:59:60Z",
        "2023-12-31T23:59:60.5Z",
        "2023-12-31T23:59:59.999999999Z",
        "2024-01-01T00:00:00Z",
        "2024-01-01T00:00:00.000000001Z",
        "1969-12-31T23:59:60Z",
        "1969-12-01T12:00:00+05:00",
        "1960-06-15T23:59:60.25-03:00",
    ];
    let nows = [
        "2024-01-30T23:59:59Z",
        "2024-01-30T23:59:60Z",
        "2024-01-30T23:59:60.5Z",
        "2024-01-30T23:59:60.499999999Z",
        "2024-01-31T00:00:00Z",
        "2024-01-31T00:00:00.000000001Z",
        "2024-01-31T00:00:01Z",
        "2024-01-30T23:59:58.999999999Z",
        "1970-01-30T23:59:60Z",
        "1970-01-31T00:00:00Z",
        "1969-12-31T12:00:00Z",
        "1960-07-15T23:59:60.25-03:00",
        "1960-07-16T00:00:00-03:00",
        "1950-01-01T00:00:00Z",
    ];
    for then in thens {
        for now in nows {
            for months in [1u32, 2, 6] {
                let fresh =
                    record_is_fresh("tmdb", instant_of(then), instant_of(now).unwrap(), months);
                assert_eq!(fresh, !stale_by_chrono(now, then, months), "{} since {}", now, then);
            }
        }
    }
}

#[test]
fn record_from_the_future_is_fresh() {
    assert!(record_is_fresh("tmdb", Some(at(NEW_YEAR_2024 + 5)), at(NEW_YEAR_2024), 1));
    assert!(record_is_fresh("tmdb", Some(at(i64::MAX)), at(i64::MIN), 1));
    assert!(!record_is_fresh("tmdb", Some(at(i64::MIN)), at(i64::MAX), u32::MAX));
}

fn stored(json: &str) -> StoredRecord {
    StoredRecord::Content(json.to_string())
}

#[test]
fn stored_record_by_provider_within_horizon_is_usable() {
    let record = stored(r#"{"title":"X","provider":"tmdb","fetched_at":"2024-01-01T00:00:00+00:00"}"#);
    assert!(has_rich_metadata(&record, at(NEW_YEAR_2024 + 10 * DAY), 1));
    assert!(has_rich_metadata(&record, at(NEW_YEAR_2024 + 30 * DAY), 1));
    assert!(!has_rich_metadata(&record, at(NEW_YEAR_2024 + 30 * DAY + 1), 1));
    assert!(has_rich_metadata(&record, at(NEW_YEAR_2024 + 30 * DAY + 1), 2));
}

#[test]
fn stored_record_date_is_read_with_its_offset() {
    let record = stored(r#"{"provider":"omdb","fetched_at":"2024-01-01T02:00:00+02:00"}"#);
    assert!(has_rich_metadata(&record, at(NEW_YEAR_2024 + 30 * DAY), 1));
    assert!(!has_rich_metadata(&record, at(NEW_YEAR_2024 + 30 * DAY + 1), 1));
    let record = stored(r#"{"provider":"omdb","fetched_at":"2024-01-01T00:00:00.500Z"}"#);
    assert!(has_rich_metadata(
        &record,
        Instant { secs: NEW_YEAR_2024 + 30 * DAY, nanos: 500_000_000 },
        1
    ));
    assert!(!has_rich_metadata(
        &record,
        Instant { secs: NEW_YEAR_2024 + 30 * DAY, nanos: 500_000_001 },
        1
    ));
}

#[test]
fn stored_local_record_is_not_usable() {
    let record = stored(r#"{"provider":"local","fetched_at":"2024-01-01T00:00:00+00:00"}"#);
    assert!(!has_rich_metadata(&record, at(NEW_YEAR_2024), 6));
}

#[test]
fn stored_record_without_provider_counts_as_local() {
    assert!(!has_rich_metadata(&stored(r#"{"title":"X"}"#), at(NEW_YEAR_2024), 6));
    assert!(!has_rich_metadata(&stored(r#"{"provider":7}"#), at(NEW_YEAR_2024), 6));
    assert!(!has_rich_metadata(&stored(r#"["provider","tmdb"]"#), at(NEW_YEAR_2024), 6));
}

#[test]
fn stored_record_without_readable_date_is_not_usable() {
    assert!(!has_rich_metadata(&stored(r#"{"provider":"tmdb"}"#), at(NEW_YEAR_2024), 1));
    assert!(!has_rich_metadata(
        &stored(r#"{"provider":"tmdb","fetched_at":"yesterday"}"#),
        at(NEW_YEAR_2024),
        1
    ));
    assert!(!has_rich_metadata(
        &stored(r#"{"provider":"tmdb","fetched_at":12}"#),
        at(NEW_YEAR_2024),
        1
    ));
    assert!(!has_rich_metadata(
        &stored(r#"{"provider":"tmdb","fetched_at":"2024-01-01"}"#),
        at(NEW_YEAR_2024),
        6
    ));
}

#[test]
fn missing_and_broken_records_are_not_usable() {
    assert!(!has_rich_metadata(&StoredRecord::Absent, at(NEW_YEAR_2024), 1));
    assert!(!has_rich_metadata(&StoredRecord::Unreadable, at(NEW_YEAR_2024), 1));
    assert!(!has_rich_metadata(&stored("{not json"), at(NEW_YEAR_2024), 1));
    assert!(!has_rich_metadata(&stored(""), at(NEW_YEAR_2024), 1));
    assert!(!has_rich_metadata(&stored("null"), at(NEW_YEAR_2024), 1));
}

#[test]
fn entry_with_unreadable_record_gets_a_local_record_when_no_provider_is_enabled() {
    let providers = vec![provider("tmdb", false, "k")];
    let entries = vec![entry("1", "a.mkv"), entry("2", "b.mkv")];
    let records = vec![StoredRecord::Unreadable, stored("garbage")];
    let plan = fetch_missing_metadata(&providers, 1, &entries, &records, at(NEW_YEAR_2024));
    assert_eq!(plan.to_fetch, vec![0, 1]);
    assert_eq!(plan.skipped, 0);
    assert!(plan.providers.is_empty());
    assert_eq!(next_step(&plan.providers, &keys("built-in"), 0), (ProviderStep::Local, 0));
    let m = local_metadata_at(&entries[0], "now".to_string());
    assert_eq!(m.provider, "local");
}

#[test]
fn a_match_ends_the_chain_and_anything_else_goes_on() {
    assert_eq!(after_answer(ProviderAnswer::Match, 3), ChainMove::Store);
    assert_eq!(after_answer(ProviderAnswer::NoMatch, 3), ChainMove::TryNext { from: 3 });
    assert_eq!(after_answer(ProviderAnswer::Failed, 3), ChainMove::TryNext { from: 3 });
    assert_eq!(after_answer(ProviderAnswer::Failed, 0), ChainMove::TryNext { from: 0 });
}

#[test]
fn chain_of_failing_providers_ends_with_the_local_record() {
    let providers = vec![provider("tmdb", true, "a"), provider("omdb", true, "b")];
    let d = keys("");
    let mut position = 0;
    let mut asked = Vec::new();
    let last = loop {
        let (step, next) = next_step(&providers, &d, position);
        if step == ProviderStep::Local {
            break step;
        }
        asked.push(step);
        match after_answer(ProviderAnswer::Failed, next) {
            ChainMove::Store => unreachable!(),
            ChainMove::TryNext { from } => position = from,
        }
    };
    assert_eq!(last, ProviderStep::Local);
    assert_eq!(
        asked,
        vec![
            ProviderStep::Tmdb { api_key: "a".to_string() },
            ProviderStep::Omdb { api_key: "b".to_string() },
        ]
    );
}

#[test]
fn entries_without_id_are_skipped() {
    assert!(skips_entry(&entry("", "a.mkv"), &StoredRecord::Absent, at(NEW_YEAR_2024), 1));
    assert!(!skips_entry(&entry("x", "a.mkv"), &StoredRecord::Absent, at(NEW_YEAR_2024), 1));
}

#[test]
fn skipping_clamps_the_months() {
    let record = stored(r#"{"provider":"tmdb","fetched_at":"2024-01-01T00:00:00+00:00"}"#);
    let e = entry("x", "a.mkv");
    // cache setting 0 counts as 1 month, 12 as 6 months
    assert!(skips_entry(&e, &record, at(NEW_YEAR_2024 + 30 * DAY), 0));
    assert!(!skips_entry(&e, &record, at(NEW_YEAR_2024 + 30 * DAY + 1), 0));
    assert!(skips_entry(&e, &record, at(NEW_YEAR_2024 + 180 * DAY), 12));
    assert!(!skips_entry(&e, &record, at(NEW_YEAR_2024 + 180 * DAY + 1), 12));
}

fn keys(tmdb: &str) -> DefaultKeys {
    DefaultKeys { tmdb: tmdb.to_string() }
}

#[test]
fn chain_without_enabled_provider_is_local_at_once() {
    let providers = vec![provider("tmdb", false, "k"), provider("omdb", false, "k")];
    assert_eq!(next_step(&providers, &keys("default"), 0), (ProviderStep::Local, 2));
    assert_eq!(next_step(&vec![], &keys("default"), 0), (ProviderStep::Local, 0));
}

#[test]
fn chain_tries_providers_in_order_then_local() {
    let providers =
        vec![provider("omdb", true, "o-key"), provider("tmdb", true, ""), provider("x", true, "k")];
    let d = keys("built-in");
    let (step, next) = next_step(&providers, &d, 0);
    assert_eq!(step, ProviderStep::Omdb { api_key: "o-key".to_string() });
    assert_eq!(next, 1);
    let (step, next) = next_step(&providers, &d, next);
    assert_eq!(step, ProviderStep::Tmdb { api_key: "built-in".to_string() });
    assert_eq!(next, 2);
    let (step, next) = next_step(&providers, &d, next);
    assert_eq!(step, ProviderStep::Local);
    assert_eq!(next, 3);
    assert_eq!(next_step(&providers, &d, 3), (ProviderStep::Local, 3));
    assert_eq!(next_step(&providers, &d, 99), (ProviderStep::Local, 3));
}

#[test]
fn chain_prefers_the_users_key() {
    let providers = vec![provider("tmdb", true, "mine")];
    let (step, _) = next_step(&providers, &keys("built-in"), 0);
    assert_eq!(step, ProviderStep::Tmdb { api_key: "mine".to_string() });
}

#[test]
fn chain_passes_over_providers_without_key() {
    let providers = vec![provider("omdb", true, ""), provider("tmdb", true, "")];
    assert_eq!(next_step(&providers, &keys(""), 0), (ProviderStep::Local, 2));
    let (step, next) = next_step(&providers, &keys("built-in"), 0);
    assert_eq!(step, ProviderStep::Tmdb { api_key: "built-in".to_string() });
    assert_eq!(next, 2);
}

#[test]
fn enabled_providers_keep_their_order() {
    let all = vec![
        provider("a", true, ""),
        provider("b", false, ""),
        provider("c", true, "k"),
        provider("d", false, "k"),
    ];
    assert_eq!(enabled_providers(&all), vec![provider("a", true, ""), provider("c", true, "k")]);
    assert_eq!(enabled_providers(&vec![]), vec![]);
}

#[test]
fn batch_pauses_only_with_providers() {
    assert_eq!(batch_delay_ms(&vec![]), None);
    assert_eq!(batch_delay_ms(&vec![provider("tmdb", true, "")]), Some(250));
}

#[test]
fn tally_counts_outcomes() {
    let outcomes = vec![
        EntryOutcome::Fetched,
        EntryOutcome::Skipped,
        EntryOutcome::Failed,
        EntryOutcome::Fetched,
        EntryOutcome::Skipped,
        EntryOutcome::Skipped,
    ];
    assert_eq!(tally(&outcomes), BatchCounts { fetched: 2, failed: 1, skipped: 3 });
    assert_eq!(tally(&vec![]), BatchCounts { fetched: 0, failed: 0, skipped: 0 });
}

#[test]
fn summary_sentence() {
    assert_eq!(
        summary(BatchCounts { fetched: 12, failed: 0, skipped: 345 }),
        "Metadata fetch complete: 12 fetched, 0 failed, 345 skipped"
    );
}

#[test]
fn batch_report_for_empty_library() {
    assert_eq!(batch_report(0, &vec![]), "No media entries to process");
    assert_eq!(
        batch_report(2, &vec![EntryOutcome::Fetched, EntryOutcome::Failed]),
        "Metadata fetch complete: 1 fetched, 1 failed, 0 skipped"
    );
}

#[test]
fn batch_plan_picks_entries_to_fetch() {
    let providers = vec![provider("tmdb", true, ""), provider("omdb", false, "k")];
    let entries = vec![
        entry("1", "a.mkv"),
        entry("", "b.mkv"),
        entry("3", "c.mkv"),
        entry("4", "d.mkv"),
        entry("5", "e.mkv"),
    ];
    let records = vec![
        StoredRecord::Absent,
        StoredRecord::Absent,
        stored(r#"{"provider":"tmdb","fetched_at":"2024-01-01T00:00:00+00:00"}"#),
        stored(r#"{"provider":"local","fetched_at":"2024-01-01T00:00:00+00:00"}"#),
    ];
    let plan = fetch_missing_metadata(&providers, 1, &entries, &records, at(NEW_YEAR_2024 + DAY));
    assert_eq!(plan.providers, vec![provider("tmdb", true, "")]);
    assert_eq!(plan.to_fetch, vec![0, 3, 4]);
    assert_eq!(plan.skipped, 2);
    assert_eq!(plan.delay_ms, Some(250));
    let later = fetch_missing_metadata(&vec![], 1, &entries, &records, at(NEW_YEAR_2024 + 31 * DAY));
    assert_eq!(later.to_fetch, vec![0, 2, 3, 4]);
    assert_eq!(later.skipped, 1);
    assert_eq!(later.delay_ms, None);
    assert!(later.providers.is_empty());
}

#[test]
fn local_metadata_comes_from_the_file_name() {
    let e = MediaEntry {
        id: "id".to_string(),
        path: "/m/Movie.Name.2024.1080p.mkv".to_string(),
        filename: "Movie.Name.2024.1080p.mkv".to_string(),
        extension: "mkv".to_string(),
        size_bytes: 99,
    };
    let m = local_metadata_at(&e, "2024-01-01T00:00:00+00:00".to_string());
    let mut want =
        bare_metadata("Movie Name".to_string(), "local", "2024-01-01T00:00:00+00:00".to_string());
    want.year = Some(2024);
    want.file_size_bytes = Some(99);
    want.container = Some("mkv".to_string());
    want.file_path = Some("/m/Movie.Name.2024.1080p.mkv".to_string());
    assert_eq!(m, want);
    assert_eq!(m.provider, "local");
    assert_eq!(m.images, MetadataImages { poster: None, backdrop: None });
    assert_eq!(MetadataImages::default(), MetadataImages { poster: None, backdrop: None });
}

#[test]
fn local_metadata_of_an_episode() {
    let e = entry("id", "Series.Name.S01E05.1080p.WEB-DL.mkv");
    let m = local_metadata_at(&e, "t".to_string());
    assert_eq!(m.title, "Series Name");
    assert_eq!(m.year, None);
    assert_eq!(m.season_number, Some(1));
    assert_eq!(m.episode_number, Some(5));
    assert_eq!(m.provider, "local");
    assert_eq!(m.fetched_at, "t");
}

#[test]
fn local_metadata_is_stamped_with_the_time() {
    let e = entry("id", "a.mkv");
    let m = build_local_metadata(&e);
    assert_eq!(m.title, "a");
    assert_eq!(m.provider, "local");
    assert!(chrono::DateTime::parse_from_rfc3339(&m.fetched_at).is_ok());
    assert!(!has_rich_metadata(
        &stored(&format!(r#"{{"provider":"local","fetched_at":"{}"}}"#, m.fetched_at)),
        at(NEW_YEAR_2024),
        6
    ));
}

#[test]
fn file_info_is_added() {
    let m = bare_metadata("T".to_string(), "tmdb", "t".to_string());
    let m = add_file_info(m, &entry("id", "a.mkv"));
    assert_eq!(m.file_size_bytes, Some(1234));
    assert_eq!(m.container, Some("mkv".to_string()));
    assert_eq!(m.file_path, Some("/m/a.mkv".to_string()));
    assert_eq!(m.title, "T");
    assert_eq!(m.provider, "tmdb");
}

#[test]
fn images_for_tmdb() {
    let r = image_requests("tmdb", Some("/p.jpg"), Some("/b.jpg"), Some("http://x/y.jpg"));
    assert_eq!(
        r,
        vec![
            ImageRequest {
                kind: ImageKind::Poster,
                url: "https://image.tmdb.org/t/p/w500/p.jpg".to_string(),
                file_name: "poster.jpg".to_string(),
            },
            ImageRequest {
                kind: ImageKind::Backdrop,
                url: "https://image.tmdb.org/t/p/w1280/b.jpg".to_string(),
                file_name: "backdrop.jpg".to_string(),
            },
        ]
    );
    assert_eq!(image_requests("tmdb", None, None, Some("http://x")), vec![]);
    assert_eq!(image_requests("tmdb", None, Some("/b.jpg"), None).len(), 1);
}

#[test]
fn images_for_omdb() {
    assert_eq!(
        image_requests("omdb", Some("/p.jpg"), Some("/b.jpg"), Some("http://x/y.jpg")),
        vec![ImageRequest {
            kind: ImageKind::Poster,
            url: "http://x/y.jpg".to_string(),
            file_name: "poster.jpg".to_string(),
        }]
    );
    assert_eq!(image_requests("omdb", None, None, Some("N/A")), vec![]);
    assert_eq!(image_requests("omdb", None, None, Some("")), vec![]);
    assert_eq!(file_name_of(ImageKind::Poster), "poster.jpg");
    assert_eq!(file_name_of(ImageKind::Backdrop), "backdrop.jpg");
    assert_eq!(image_requests("omdb", Some("/p.jpg"), None, None), vec![]);
}

#[test]
fn no_images_for_other_providers() {
    assert_eq!(image_requests("local", Some("/p"), Some("/b"), Some("u")), vec![]);
    assert_eq!(image_requests("", Some("/p"), Some("/b"), Some("u")), vec![]);
}

#[test]
fn stored_images_are_noted() {
    let m = bare_metadata("T".to_string(), "tmdb", "t".to_string());
    let m = record_image(m, ImageKind::Poster);
    assert_eq!(m.images, MetadataImages { poster: Some("poster.jpg".to_string()), backdrop: None });
    let m = record_image(m, ImageKind::Backdrop);
    assert_eq!(
        m.images,
        MetadataImages {
            poster: Some("poster.jpg".to_string()),
            backdrop: Some("backdrop.jpg".to_string()),
        }
    );
    assert_eq!(m.title, "T");
}

#[test]
fn retry_loop_settles_then_runs_then_waits() {
    assert_eq!(RETRY_SETTLE_SECONDS, 30);
    assert_eq!(RETRY_INTERVAL_SECONDS, 900);
    let mut phase = retry_start();
    let mut sleeps = 0;
    loop {
        let (next, action) = retry_step(phase, false);
        phase = next;
        if action == RetryAction::RunBatch {
            break;
        }
        assert_eq!(action, RetryAction::Sleep);
        sleeps += 1;
    }
    assert_eq!(sleeps, 30);
    assert_eq!(phase, RetryPhase::Waiting { waited: 0 });
    let mut sleeps = 0;
    loop {
        let (next, action) = retry_step(phase, false);
        phase = next;
        if action == RetryAction::RunBatch {
            break;
        }
        assert_eq!(action, RetryAction::Sleep);
        sleeps += 1;
    }
    assert_eq!(sleeps, 900);
}

#[test]
fn retry_loop_exits_on_stop() {
    for phase in [
        RetryPhase::Settling { waited: 0 },
        RetryPhase::Settling { waited: 29 },
        RetryPhase::Due,
        RetryPhase::Waiting { waited: 17 },
        RetryPhase::Stopped,
    ] {
        assert_eq!(retry_step(phase, true), (RetryPhase::Stopped, RetryAction::Exit));
    }
    assert_eq!(retry_step(RetryPhase::Stopped, false), (RetryPhase::Stopped, RetryAction::Exit));
}

#[test]
fn retry_loop_steps() {
    assert_eq!(
        retry_step(RetryPhase::Settling { waited: 28 }, false),
        (RetryPhase::Settling { waited: 29 }, RetryAction::Sleep)
    );
    assert_eq!(
        retry_step(RetryPhase::Settling { waited: 29 }, false),
        (RetryPhase::Due, RetryAction::Sleep)
    );
    assert_eq!(
        retry_step(RetryPhase::Due, false),
        (RetryPhase::Waiting { waited: 0 }, RetryAction::RunBatch)
    );
    assert_eq!(
        retry_step(RetryPhase::Waiting { waited: 899 }, false),
        (RetryPhase::Due, RetryAction::Sleep)
    );
    assert_eq!(
        retry_step(RetryPhase::Waiting { waited: u32::MAX }, false),
        (RetryPhase::Due, RetryAction::Sleep)
    );
}

#[test]
fn retry_plans() {
    assert_eq!(start_metadata_retry(), vec![SessionAction::StopRetry, SessionAction::SpawnRetry]);
    assert_eq!(stop_metadata_retry(), vec![SessionAction::StopRetry]);
}

#[test]
fn file_names() {
    assert_eq!(SETTINGS_FILE, "settings.json");
    assert_eq!(LIBRARY_FILE, "library.json");
    assert_eq!(METADATA_DIR, "metas");
    assert_eq!(RECORD_FILE, "meta.json");
}
