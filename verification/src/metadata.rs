//! Descriptive records for catalogue entries: what a record holds, when it
//! counts as fresh, and in which order the providers are tried.

use vstd::prelude::*;
use crate::filename::{parse_filename, parsed, ParsedFilenameView};
use crate::media::{MediaEntry, MediaEntryView, MetadataProviderConfig, MetadataProviderConfigView};
use crate::text::{append_decimal, append_str, decimal_text, str_eq};
use crate::tmdb::{image_address, image_url};
use crate::watcher::SessionAction;

verus! {

/// One member of the cast.
#[derive(Debug, PartialEq, Eq)]
pub struct CastMember {
    pub name: String,
    pub character: Option<String>,
    pub profile_path: Option<String>,
}

/// What a `CastMember` holds, as mathematical values.
pub struct CastMemberView {
    pub name: Seq<char>,
    pub character: Option<Seq<char>>,
    pub profile_path: Option<Seq<char>>,
}

impl View for CastMember {
    type V = CastMemberView;

    open spec fn view(&self) -> CastMemberView {
        CastMemberView {
            name: self.name@,
            character: self.character.deep_view(),
            profile_path: self.profile_path.deep_view(),
        }
    }
}

impl DeepView for CastMember {
    type V = CastMemberView;

    open spec fn deep_view(&self) -> CastMemberView {
        self@
    }
}

/// One member of the crew.
#[derive(Debug, PartialEq, Eq)]
pub struct CrewMember {
    pub name: String,
    pub job: Option<String>,
    pub profile_path: Option<String>,
}

/// What a `CrewMember` holds, as mathematical values.
pub struct CrewMemberView {
    pub name: Seq<char>,
    pub job: Option<Seq<char>>,
    pub profile_path: Option<Seq<char>>,
}

impl View for CrewMember {
    type V = CrewMemberView;

    open spec fn view(&self) -> CrewMemberView {
        CrewMemberView {
            name: self.name@,
            job: self.job.deep_view(),
            profile_path: self.profile_path.deep_view(),
        }
    }
}

impl DeepView for CrewMember {
    type V = CrewMemberView;

    open spec fn deep_view(&self) -> CrewMemberView {
        self@
    }
}

/// The image files stored beside a record, by file name.
#[derive(Debug, PartialEq, Eq)]
pub struct MetadataImages {
    pub poster: Option<String>,
    pub backdrop: Option<String>,
}

/// What a `MetadataImages` holds, as mathematical values.
pub struct MetadataImagesView {
    pub poster: Option<Seq<char>>,
    pub backdrop: Option<Seq<char>>,
}

impl View for MetadataImages {
    type V = MetadataImagesView;

    open spec fn view(&self) -> MetadataImagesView {
        MetadataImagesView {
            poster: self.poster.deep_view(),
            backdrop: self.backdrop.deep_view(),
        }
    }
}

impl Default for MetadataImages {
    fn default() -> (r: Self)
        ensures
            r@ == (MetadataImagesView { poster: None, backdrop: None }),
    {
        MetadataImages { poster: None, backdrop: None }
    }
}

/// The record kept for one catalogue entry.
#[derive(Debug, PartialEq, Eq)]
pub struct VideoMetadata {
    pub title: String,
    pub original_title: Option<String>,
    pub year: Option<u32>,
    pub overview: Option<String>,
    pub tagline: Option<String>,
    pub genres: Vec<String>,
    pub runtime_minutes: Option<u32>,
    /// The provider's rating as the decimal number it sent, in text.
    pub rating: Option<String>,
    pub vote_count: Option<u32>,
    pub release_date: Option<String>,
    pub imdb_id: Option<String>,
    pub tmdb_id: Option<u64>,
    pub cast: Vec<CastMember>,
    pub crew: Vec<CrewMember>,
    pub studios: Vec<String>,
    pub language: Option<String>,
    pub status: Option<String>,
    pub season_number: Option<u32>,
    pub episode_number: Option<u32>,
    pub episode_title: Option<String>,
    pub episode_overview: Option<String>,
    pub episode_still: Option<String>,
    pub images: MetadataImages,
    pub file_size_bytes: Option<u64>,
    pub container: Option<String>,
    pub file_path: Option<String>,
    /// `tmdb`, `omdb` or `local`.
    pub provider: String,
    /// When the record was made, as an RFC 3339 timestamp.
    pub fetched_at: String,
}

/// What a `VideoMetadata` holds, as mathematical values.
pub struct VideoMetadataView {
    pub title: Seq<char>,
    pub original_title: Option<Seq<char>>,
    pub year: Option<u32>,
    pub overview: Option<Seq<char>>,
    pub tagline: Option<Seq<char>>,
    pub genres: Seq<Seq<char>>,
    pub runtime_minutes: Option<u32>,
    pub rating: Option<Seq<char>>,
    pub vote_count: Option<u32>,
    pub release_date: Option<Seq<char>>,
    pub imdb_id: Option<Seq<char>>,
    pub tmdb_id: Option<u64>,
    pub cast: Seq<CastMemberView>,
    pub crew: Seq<CrewMemberView>,
    pub studios: Seq<Seq<char>>,
    pub language: Option<Seq<char>>,
    pub status: Option<Seq<char>>,
    pub season_number: Option<u32>,
    pub episode_number: Option<u32>,
    pub episode_title: Option<Seq<char>>,
    pub episode_overview: Option<Seq<char>>,
    pub episode_still: Option<Seq<char>>,
    pub images: MetadataImagesView,
    pub file_size_bytes: Option<u64>,
    pub container: Option<Seq<char>>,
    pub file_path: Option<Seq<char>>,
    pub provider: Seq<char>,
    pub fetched_at: Seq<char>,
}

impl View for VideoMetadata {
    type V = VideoMetadataView;

    open spec fn view(&self) -> VideoMetadataView {
        VideoMetadataView {
            title: self.title@,
            original_title: self.original_title.deep_view(),
            year: self.year,
            overview: self.overview.deep_view(),
            tagline: self.tagline.deep_view(),
            genres: self.genres.deep_view(),
            runtime_minutes: self.runtime_minutes,
            rating: self.rating.deep_view(),
            vote_count: self.vote_count,
            release_date: self.release_date.deep_view(),
            imdb_id: self.imdb_id.deep_view(),
            tmdb_id: self.tmdb_id,
            cast: self.cast.deep_view(),
            crew: self.crew.deep_view(),
            studios: self.studios.deep_view(),
            language: self.language.deep_view(),
            status: self.status.deep_view(),
            season_number: self.season_number,
            episode_number: self.episode_number,
            episode_title: self.episode_title.deep_view(),
            episode_overview: self.episode_overview.deep_view(),
            episode_still: self.episode_still.deep_view(),
            images: self.images@,
            file_size_bytes: self.file_size_bytes,
            container: self.container.deep_view(),
            file_path: self.file_path.deep_view(),
            provider: self.provider@,
            fetched_at: self.fetched_at@,
        }
    }
}

/// A record with a title and nothing else, by the given provider.
pub open spec fn bare_record(title: Seq<char>, provider: Seq<char>, fetched_at: Seq<char>)
    -> VideoMetadataView {
    VideoMetadataView {
        title: title,
        original_title: None,
        year: None,
        overview: None,
        tagline: None,
        genres: Seq::empty(),
        runtime_minutes: None,
        rating: None,
        vote_count: None,
        release_date: None,
        imdb_id: None,
        tmdb_id: None,
        cast: Seq::empty(),
        crew: Seq::empty(),
        studios: Seq::empty(),
        language: None,
        status: None,
        season_number: None,
        episode_number: None,
        episode_title: None,
        episode_overview: None,
        episode_still: None,
        images: MetadataImagesView { poster: None, backdrop: None },
        file_size_bytes: None,
        container: None,
        file_path: None,
        provider: provider,
        fetched_at: fetched_at,
    }
}

/// The record with the file's own size, container and path filled in.
pub open spec fn with_file_info(record: VideoMetadataView, entry: MediaEntryView)
    -> VideoMetadataView {
    VideoMetadataView {
        file_size_bytes: Some(entry.size_bytes),
        container: Some(entry.extension),
        file_path: Some(entry.path),
        ..record
    }
}

/// The record that the file name and the file alone give.
pub open spec fn local_record(entry: MediaEntryView, name: ParsedFilenameView, fetched_at: Seq<char>)
    -> VideoMetadataView {
    with_file_info(
        VideoMetadataView {
            year: name.year,
            season_number: name.season,
            episode_number: name.episode,
            ..bare_record(name.title, "local"@, fetched_at)
        },
        entry,
    )
}

/// A record with a title and nothing else.
pub fn bare_metadata(title: String, provider: &str, fetched_at: String) -> (r: VideoMetadata)
    ensures
        r@ == bare_record(title@, provider@, fetched_at@),
{
    let r = VideoMetadata {
        title,
        original_title: None,
        year: None,
        overview: None,
        tagline: None,
        genres: Vec::new(),
        runtime_minutes: None,
        rating: None,
        vote_count: None,
        release_date: None,
        imdb_id: None,
        tmdb_id: None,
        cast: Vec::new(),
        crew: Vec::new(),
        studios: Vec::new(),
        language: None,
        status: None,
        season_number: None,
        episode_number: None,
        episode_title: None,
        episode_overview: None,
        episode_still: None,
        images: MetadataImages { poster: None, backdrop: None },
        file_size_bytes: None,
        container: None,
        file_path: None,
        provider: provider.to_owned(),
        fetched_at,
    };
    assert(r.genres.deep_view() =~= Seq::empty());
    assert(r.cast.deep_view() =~= Seq::empty());
    assert(r.crew.deep_view() =~= Seq::empty());
    assert(r.studios.deep_view() =~= Seq::empty());
    r
}

/// Fills in the file's own size, container and path.
pub fn add_file_info(record: VideoMetadata, entry: &MediaEntry) -> (r: VideoMetadata)
    ensures
        r@ == with_file_info(record@, entry@),
{
    let mut r = record;
    r.file_size_bytes = Some(entry.size_bytes);
    r.container = Some(entry.extension.clone());
    r.file_path = Some(entry.path.clone());
    r
}

/// The record for `entry` that its file name alone gives, made at
/// `fetched_at`.
pub fn local_metadata_at(entry: &MediaEntry, fetched_at: String) -> (r: VideoMetadata)
    ensures
        r@ == local_record(entry@, parsed(entry.filename@), fetched_at@),
{
    let name = parse_filename(entry.filename.as_str());
    let mut r = bare_metadata(name.title, "local", fetched_at);
    r.year = name.year;
    r.season_number = name.season;
    r.episode_number = name.episode;
    add_file_info(r, entry)
}

/// Whether a character stands for itself in a URL query.
pub open spec fn is_unreserved(c: char) -> bool {
    ('0' <= c <= '9') || ('a' <= c <= 'z') || ('A' <= c <= 'Z') || c == '-' || c == '_' || c == '.'
        || c == '~'
}

/// The upper-case hexadecimal digit for `d`.
pub open spec fn hex_digit(d: nat) -> char {
    if d < 10 {
        ((d + 48) as u8) as char
    } else {
        ((d + 55) as u8) as char
    }
}

/// `n` in upper-case hexadecimal, without leading zeros.
pub open spec fn hex_text(n: nat) -> Seq<char>
    decreases n,
{
    if n < 16 {
        seq![hex_digit(n)]
    } else {
        hex_text(n / 16).push(hex_digit(n % 16))
    }
}

/// How one character is written in a URL query: an unreserved character as
/// itself, any other as `%` and its code point in upper-case hexadecimal of at
/// least two digits (a space as `%20`, `&` as `%26`).
pub open spec fn encoded_char(c: char) -> Seq<char> {
    if is_unreserved(c) {
        seq![c]
    } else if (c as u32) < 16 {
        seq!['%', '0', hex_digit((c as u32) as nat)]
    } else {
        seq!['%'] + hex_text((c as u32) as nat)
    }
}

/// A text as it is written in a URL query, character by character.
pub open spec fn url_encoded(s: Seq<char>) -> Seq<char>
    decreases s.len(),
{
    if s.len() == 0 {
        Seq::empty()
    } else {
        url_encoded(s.drop_last()) + encoded_char(s.last())
    }
}

fn push_hex(out: &mut String, n: u32)
    ensures
        final(out)@ == old(out)@ + hex_text(n as nat),
    decreases n,
{
    if n >= 16 {
        push_hex(out, n / 16);
    }
    let d: u8 = (n % 16) as u8;
    let c: char = if d < 10 {
        (d + 48) as char
    } else {
        (d + 55) as char
    };
    out.push(c);
    proof {
        if n < 16 {
            assert(old(out)@.push(hex_digit(n as nat)) =~= old(out)@ + hex_text(n as nat));
        } else {
            assert((old(out)@ + hex_text((n / 16) as nat)).push(hex_digit((n % 16) as nat))
                =~= old(out)@ + hex_text(n as nat));
        }
    }
}

/// Appends `s` to `out` as it is written in a URL query.
pub fn append_urlencoded(out: &mut String, s: &str)
    ensures
        final(out)@ == old(out)@ + url_encoded(s@),
{
    let ghost start = out@;
    assert(s@.take(0) =~= Seq::empty());
    assert(start + Seq::<char>::empty() =~= start);
    for c in it: s.chars()
        invariant
            it.seq() == s@,
            out@ == start + url_encoded(s@.take(it.index())),
    {
        let ghost i = it.index();
        let ghost before = out@;
        assert(s@.take(i + 1).drop_last() =~= s@.take(i));
        assert(s@.take(i + 1).last() == c);
        let unreserved = (c >= '0' && c <= '9') || (c >= 'a' && c <= 'z') || (c >= 'A' && c <= 'Z')
            || c == '-' || c == '_' || c == '.' || c == '~';
        if unreserved {
            out.push(c);
            assert(out@ =~= before + encoded_char(c));
        } else {
            out.push('%');
            let n: u32 = c as u32;
            if n < 16 {
                out.push('0');
                push_hex(out, n);
                assert(out@ =~= before.push('%').push('0') + hex_text(n as nat));
                assert(hex_text(n as nat) =~= seq![hex_digit(n as nat)]);
                assert(out@ =~= before + seq!['%', '0', hex_digit(n as nat)]);
            } else {
                push_hex(out, n);
                assert(out@ =~= before + (seq!['%'] + hex_text(n as nat)));
            }
            assert(out@ =~= before + encoded_char(c));
        }
        assert(out@ =~= start + url_encoded(s@.take(i + 1)));
    }
    assert(s@.take(s@.len() as int) =~= s@);
}

/// Writes a text as it stands in a URL query.
pub fn urlencoded(s: &str) -> (r: String)
    ensures
        r@ == url_encoded(s@),
{
    let mut out = String::new();
    append_urlencoded(&mut out, s);
    assert(Seq::<char>::empty() + url_encoded(s@) =~= url_encoded(s@));
    out
}

/// A point in time: seconds since the start of 1970 in UTC, and the
/// nanoseconds into that second.
#[derive(Clone, Copy, Debug, PartialEq, Eq, Structural)]
pub struct Instant {
    pub secs: i64,
    pub nanos: u32,
}

/// The instant that an RFC 3339 timestamp names: the seconds since the start
/// of 1970 in UTC (`DateTime::timestamp`) and the nanoseconds into that second
/// (`DateTime::timestamp_subsec_nanos`); `None` for a text that is no such
/// timestamp.
pub uninterp spec fn rfc3339_timestamp(s: Seq<char>) -> Option<(i64, u32)>;

/// `chrono::DateTime::parse_from_rfc3339`, then the `timestamp` and
/// `timestamp_subsec_nanos` of what it parsed. The result depends on the text
/// alone.
#[verifier::external_body]
pub(crate) fn parse_rfc3339(s: &str) -> (r: Option<(i64, u32)>)
    ensures
        r == rfc3339_timestamp(s@),
{
    match chrono::DateTime::parse_from_rfc3339(s) {
        Ok(t) => Some((t.timestamp(), t.timestamp_subsec_nanos())),
        Err(_) => None,
    }
}

/// The instant that an RFC 3339 timestamp names, if it is one.
pub open spec fn rfc3339_instant(s: Seq<char>) -> Option<Instant> {
    match rfc3339_timestamp(s) {
        Some(t) => Some(Instant { secs: t.0, nanos: t.1 }),
        None => None,
    }
}

/// Reads an RFC 3339 timestamp.
pub fn instant_of(s: &str) -> (r: Option<Instant>)
    ensures
        r == rfc3339_instant(s@),
{
    match parse_rfc3339(s) {
        Some(t) => Some(Instant { secs: t.0, nanos: t.1 }),
        None => None,
    }
}

/// `chrono::Local::now`, written by `DateTime::to_rfc3339`: the current local
/// time as an RFC 3339 timestamp. Nothing is promised of a clock's reading.
#[verifier::external_body]
pub(crate) fn timestamp_now() -> (r: String) {
    chrono::Local::now().to_rfc3339()
}

/// The months a provider's record stays fresh: the setting, held to 1..=6.
pub open spec fn clamped_months(months: u32) -> u32 {
    if months < 1 {
        1
    } else if months > 6 {
        6
    } else {
        months
    }
}

/// Holds the cache setting to 1..=6 months.
pub fn clamp_cache_months(months: u32) -> (r: u32)
    ensures
        r == clamped_months(months),
{
    if months < 1 {
        1
    } else if months > 6 {
        6
    } else {
        months
    }
}

/// The second of the day, counted from midnight UTC, in which an instant
/// lies.
pub open spec fn second_of_day(secs: i64) -> int {
    (secs as int) % 86_400
}

/// The second to add when the time between two readings spans a leap second
/// that the difference of their seconds does not count. A reading within a
/// leap second has a billion nanoseconds or more. As `chrono` subtracts two
/// times of day: where `now` lies later in its day than `then` in its own and
/// `then` is such a reading, one second more has passed; where `now` lies
/// earlier in its day and is itself such a reading, one second less.
pub open spec fn leap_adjustment(now: Instant, then: Instant) -> int {
    if second_of_day(now.secs) > second_of_day(then.secs) && then.nanos >= 1_000_000_000 {
        1
    } else if second_of_day(now.secs) < second_of_day(then.secs) && now.nanos >= 1_000_000_000 {
        -1
    } else {
        0
    }
}

/// The time from `then` to `now`, in nanoseconds.
pub open spec fn age_nanos(now: Instant, then: Instant) -> int {
    (now.secs - then.secs + leap_adjustment(now, then)) * 1_000_000_000 + (now.nanos - then.nanos)
}

/// The longest a provider's record stays fresh, in nanoseconds: `months`
/// times thirty days.
pub open spec fn horizon_nanos(months: u32) -> int {
    months * 30 * 86_400 * 1_000_000_000
}

/// Whether a stored record spares its entry a new fetch: it comes from a
/// provider, not from the file name alone, it says when it was made, and it
/// is no older than the horizon.
pub open spec fn is_fresh(provider: Seq<char>, fetched_at: Option<Instant>, now: Instant, months: u32)
    -> bool {
    provider != "local"@ && match fetched_at {
        Some(then) => age_nanos(now, then) <= horizon_nanos(months),
        None => false,
    }
}

fn day_second(secs: i64) -> (r: i64)
    ensures
        r == second_of_day(secs),
{
    let r: i64 = secs % 86_400;
    if r < 0 {
        r + 86_400
    } else {
        r
    }
}

/// Whether a stored record by `provider`, made at `fetched_at`, is fresh at
/// `now` under a horizon of `months` months.
pub fn record_is_fresh(provider: &str, fetched_at: Option<Instant>, now: Instant, months: u32)
    -> (r: bool)
    ensures
        r == is_fresh(provider@, fetched_at, now, months),
{
    if str_eq(provider, "local") {
        return false;
    }
    match fetched_at {
        None => false,
        Some(then) => {
            let now_second = day_second(now.secs);
            let then_second = day_second(then.secs);
            let adjustment: i128 = if now_second > then_second && then.nanos >= 1_000_000_000 {
                1
            } else if now_second < then_second && now.nanos >= 1_000_000_000 {
                -1
            } else {
                0
            };
            let age: i128 = (now.secs as i128 - then.secs as i128 + adjustment) * 1_000_000_000 + (
            now.nanos as i128 - then.nanos as i128);
            let horizon: i128 = (months as i128) * 30 * 86_400 * 1_000_000_000;
            age <= horizon
        },
    }
}

/// A provider's record made a second less than the horizon ago is fresh; one
/// made a second more than the horizon ago is stale. A record made from the
/// file name alone is never fresh. The clock's reading is an ordinary one, not
/// one within a leap second.
pub proof fn law_cache_expiry_boundary(provider: Seq<char>, now: Instant, then: Instant, months: u32)
    requires
        then.nanos == now.nanos,
        now.nanos < 1_000_000_000,
    ensures
        provider != "local"@ && now.secs - then.secs == months * 30 * 86_400 - 1 ==> is_fresh(
            provider,
            Some(then),
            now,
            months,
        ),
        now.secs - then.secs == months * 30 * 86_400 + 1 ==> !is_fresh(
            provider,
            Some(then),
            now,
            months,
        ),
        !is_fresh("local"@, Some(then), now, months),
{
}

/// A record is fresh exactly up to the horizon: whatever the provider, as
/// long as it is one, age decides.
pub proof fn law_fresh_iff_within_horizon(provider: Seq<char>, now: Instant, then: Instant, months: u32)
    requires
        provider != "local"@,
    ensures
        is_fresh(provider, Some(then), now, months) <==> age_nanos(now, then) <= horizon_nanos(
            months,
        ),
{
}

/// A record that does not say when it was made, or says it in a way that
/// cannot be read, is not fresh, whoever made it.
pub proof fn law_undated_record_is_stale(provider: Seq<char>, now: Instant, months: u32)
    ensures
        !is_fresh(provider, None, now, months),
{
}

/// Between ordinary readings the age is the plain difference.
pub proof fn law_age_between_ordinary_readings(now: Instant, then: Instant)
    requires
        now.nanos < 1_000_000_000,
        then.nanos < 1_000_000_000,
    ensures
        age_nanos(now, then) == (now.secs - then.secs) * 1_000_000_000 + (now.nanos - then.nanos),
{
}

/// What a JSON text holds under a key of its top-level object: `None` when
/// the text is no JSON, `Some(None)` when it is one without a string under
/// that key, `Some(Some(s))` when the string `s` stands there.
pub uninterp spec fn json_string_field(raw: Seq<char>, key: Seq<char>) -> Option<Option<Seq<char>>>;

/// `serde_json::from_str` into a `serde_json::Value`, then `Value::get` with
/// the key and `Value::as_str` on what it found. The outer `None` stands for
/// a text that does not parse; the inner one for a value that is no object,
/// has no such key, or holds something other than a string there.
#[verifier::external_body]
pub(crate) fn read_json_string(raw: &str, key: &str) -> (r: Option<Option<String>>)
    ensures
        r.deep_view() == json_string_field(raw@, key@),
{
    match serde_json::from_str::<serde_json::Value>(raw) {
        Ok(value) => Some(value.get(key).and_then(|v| v.as_str()).map(|s| s.to_string())),
        Err(_) => None,
    }
}

/// What was found where an entry's record is kept.
#[derive(Debug, PartialEq, Eq)]
pub enum StoredRecord {
    /// No record file, or no place for one.
    Absent,
    /// A record file that could not be read.
    Unreadable,
    /// The text of the record file.
    Content(String),
}

/// What a `StoredRecord` holds, as mathematical values.
pub enum StoredRecordView {
    Absent,
    Unreadable,
    Content(Seq<char>),
}

impl View for StoredRecord {
    type V = StoredRecordView;

    open spec fn view(&self) -> StoredRecordView {
        match self {
            StoredRecord::Absent => StoredRecordView::Absent,
            StoredRecord::Unreadable => StoredRecordView::Unreadable,
            StoredRecord::Content(raw) => StoredRecordView::Content(raw@),
        }
    }
}

impl DeepView for StoredRecord {
    type V = StoredRecordView;

    open spec fn deep_view(&self) -> StoredRecordView {
        self@
    }
}

/// The instant that a record's `fetched_at` names, if it names one.
pub open spec fn fetched_instant(field: Option<Option<Seq<char>>>) -> Option<Instant> {
    match field {
        Some(Some(text)) => rfc3339_instant(text),
        _ => None,
    }
}

/// Whether what is stored for an entry spares it a new fetch: a record that
/// can be read, that names a provider other than `local`, that says when it
/// was made, and that is no older than the horizon. A missing record does
/// not, nor does one that cannot be read or is no JSON: nothing shows that
/// it is fresh.
pub open spec fn has_usable_record(stored: StoredRecordView, now: Instant, months: u32) -> bool {
    match stored {
        StoredRecordView::Absent => false,
        StoredRecordView::Unreadable => false,
        StoredRecordView::Content(raw) => match json_string_field(raw, "provider"@) {
            Some(Some(provider)) => is_fresh(
                provider,
                fetched_instant(json_string_field(raw, "fetched_at"@)),
                now,
                months,
            ),
            _ => false,
        },
    }
}

/// Whether an entry has a record that spares it a new fetch.
pub fn has_rich_metadata(stored: &StoredRecord, now: Instant, cache_months: u32) -> (r: bool)
    ensures
        r == has_usable_record(stored@, now, cache_months),
{
    match stored {
        StoredRecord::Absent => false,
        StoredRecord::Unreadable => false,
        StoredRecord::Content(raw) => {
            match read_json_string(raw.as_str(), "provider") {
                Some(Some(provider)) => {
                    let fetched_at = match read_json_string(raw.as_str(), "fetched_at") {
                        Some(Some(text)) => instant_of(text.as_str()),
                        _ => None,
                    };
                    record_is_fresh(provider.as_str(), fetched_at, now, cache_months)
                },
                _ => false,
            }
        },
    }
}

/// Only a record that was read counts: what is missing or cannot be read
/// leaves its entry to be fetched.
pub proof fn law_unread_record_is_not_usable(now: Instant, months: u32)
    ensures
        !has_usable_record(StoredRecordView::Absent, now, months),
        !has_usable_record(StoredRecordView::Unreadable, now, months),
{
}

/// Whether the batch passes an entry by: it has no identifier, or what is
/// stored for it is still usable.
pub open spec fn is_skipped(entry: MediaEntryView, stored: StoredRecordView, now: Instant, months: u32)
    -> bool {
    entry.id.len() == 0 || has_usable_record(stored, now, clamped_months(months))
}

/// Whether the batch passes `entry` by, given what is stored for it. `months`
/// is the setting as the user left it.
pub fn skips_entry(entry: &MediaEntry, stored: &StoredRecord, now: Instant, months: u32) -> (r: bool)
    ensures
        r == is_skipped(entry@, stored@, now, months),
{
    entry.id.as_str().is_empty() || has_rich_metadata(stored, now, clamp_cache_months(months))
}

/// The keys that providers fall back on when the user gave none.
#[derive(Debug, PartialEq, Eq)]
pub struct DefaultKeys {
    /// The key for TMDB that the application ships; empty when it ships none.
    pub tmdb: String,
}

/// What to try next for an entry.
#[derive(Debug, PartialEq, Eq)]
pub enum ProviderStep {
    /// Ask TMDB with this key.
    Tmdb { api_key: String },
    /// Ask OMDb with this key.
    Omdb { api_key: String },
    /// Make the record from the file name: the end of every chain.
    Local,
}

/// What a `ProviderStep` holds, as mathematical values.
pub enum ProviderStepView {
    Tmdb { api_key: Seq<char> },
    Omdb { api_key: Seq<char> },
    Local,
}

impl View for ProviderStep {
    type V = ProviderStepView;

    open spec fn view(&self) -> ProviderStepView {
        match self {
            ProviderStep::Tmdb { api_key } => ProviderStepView::Tmdb { api_key: api_key@ },
            ProviderStep::Omdb { api_key } => ProviderStepView::Omdb { api_key: api_key@ },
            ProviderStep::Local => ProviderStepView::Local,
        }
    }
}

/// The step that a configured provider stands for, if it is not passed over.
/// A provider is passed over when it is disabled, when it is not one of the
/// known ones, and when there is no key for it: OMDb takes the user's key
/// only, TMDB the user's key or else the default one.
pub open spec fn step_for(provider: MetadataProviderConfigView, default_tmdb_key: Seq<char>)
    -> Option<ProviderStepView> {
    if !provider.enabled {
        None
    } else if provider.id == "tmdb"@ {
        if provider.api_key.len() > 0 {
            Some(ProviderStepView::Tmdb { api_key: provider.api_key })
        } else if default_tmdb_key.len() > 0 {
            Some(ProviderStepView::Tmdb { api_key: default_tmdb_key })
        } else {
            None
        }
    } else if provider.id == "omdb"@ {
        if provider.api_key.len() > 0 {
            Some(ProviderStepView::Omdb { api_key: provider.api_key })
        } else {
            None
        }
    } else {
        None
    }
}

/// The position of the first provider at or after `from` that is not passed
/// over; `providers.len()` when all the rest are.
pub open spec fn next_position(
    providers: Seq<MetadataProviderConfigView>,
    default_tmdb_key: Seq<char>,
    from: int,
) -> int
    decreases providers.len() - from,
{
    if from < 0 || from >= providers.len() {
        providers.len() as int
    } else if step_for(providers[from], default_tmdb_key) is Some {
        from
    } else {
        next_position(providers, default_tmdb_key, from + 1)
    }
}

/// The step to take when the providers before `from` have given nothing.
pub open spec fn next_step_at(
    providers: Seq<MetadataProviderConfigView>,
    default_tmdb_key: Seq<char>,
    from: int,
) -> ProviderStepView {
    let at = next_position(providers, default_tmdb_key, from);
    if 0 <= at < providers.len() {
        match step_for(providers[at], default_tmdb_key) {
            Some(step) => step,
            None => ProviderStepView::Local,
        }
    } else {
        ProviderStepView::Local
    }
}

/// The next position is the first from `from` on that is not passed over.
pub proof fn lemma_next_position(
    providers: Seq<MetadataProviderConfigView>,
    default_tmdb_key: Seq<char>,
    from: int,
)
    requires
        0 <= from,
    ensures
        from <= next_position(providers, default_tmdb_key, from) || from > providers.len(),
        next_position(providers, default_tmdb_key, from) <= providers.len(),
        next_position(providers, default_tmdb_key, from) < providers.len() ==> step_for(
            providers[next_position(providers, default_tmdb_key, from)],
            default_tmdb_key,
        ) is Some,
        forall|k: int|
            from <= k < next_position(providers, default_tmdb_key, from) ==> step_for(
                #[trigger] providers[k],
                default_tmdb_key,
            ) is None,
    decreases providers.len() - from,
{
    if from < providers.len() && step_for(providers[from], default_tmdb_key) is None {
        lemma_next_position(providers, default_tmdb_key, from + 1);
    }
}

/// The step that one provider stands for.
fn step_of(provider: &MetadataProviderConfig, defaults: &DefaultKeys) -> (r: Option<ProviderStep>)
    ensures
        r matches Some(step) ==> step_for(provider@, defaults.tmdb@) == Some(step@),
        r is None ==> step_for(provider@, defaults.tmdb@) is None,
{
    if !provider.enabled {
        None
    } else if str_eq(provider.id.as_str(), "tmdb") {
        if !provider.api_key.as_str().is_empty() {
            Some(ProviderStep::Tmdb { api_key: provider.api_key.clone() })
        } else if !defaults.tmdb.as_str().is_empty() {
            Some(ProviderStep::Tmdb { api_key: defaults.tmdb.clone() })
        } else {
            None
        }
    } else if str_eq(provider.id.as_str(), "omdb") {
        if !provider.api_key.as_str().is_empty() {
            Some(ProviderStep::Omdb { api_key: provider.api_key.clone() })
        } else {
            None
        }
    } else {
        None
    }
}

/// What to try for an entry when the providers before position `from` have
/// given nothing, and the position to go on from if this step gives nothing
/// either. The chain starts at position 0 and ends with `ProviderStep::Local`.
pub fn next_step(providers: &Vec<MetadataProviderConfig>, defaults: &DefaultKeys, from: usize) -> (r:
    (ProviderStep, usize))
    ensures
        r.0@ == next_step_at(providers.deep_view(), defaults.tmdb@, from as int),
        r.0 is Local ==> r.1 == providers.len(),
        !(r.0 is Local) ==> r.1 == next_position(providers.deep_view(), defaults.tmdb@, from as int)
            + 1 && from < r.1 <= providers.len(),
{
    let ghost all = providers.deep_view();
    let mut i: usize = from;
    while i < providers.len()
        invariant
            from <= i,
            all == providers.deep_view(),
            i <= providers.len() ==> next_position(all, defaults.tmdb@, from as int)
                == next_position(all, defaults.tmdb@, i as int),
            i > providers.len() ==> from > providers.len(),
        decreases providers.len() - i,
    {
        assert(all[i as int] == providers[i as int]@);
        match step_of(&providers[i], defaults) {
            Some(step) => {
                return (step, i + 1);
            },
            None => {},
        }
        i = i + 1;
    }
    (ProviderStep::Local, providers.len())
}

/// What a provider said when it was asked.
#[derive(Clone, Copy, Debug, PartialEq, Eq, Structural)]
pub enum ProviderAnswer {
    /// It returned at least one match.
    Match,
    /// It answered and had no match.
    NoMatch,
    /// The request failed, the status was no success, or the answer could
    /// not be read.
    Failed,
}

/// What the chain does after a provider's answer.
#[derive(Clone, Copy, Debug, PartialEq, Eq, Structural)]
pub enum ChainMove {
    /// Persist the record that the provider gave, with its images: the chain
    /// ends.
    Store,
    /// Go on with the next step, from this position.
    TryNext { from: usize },
}

/// A match ends the chain. No match and a failure alike are no reason to
/// stop: the chain goes on from the position that the step handed out.
pub open spec fn move_after(answer: ProviderAnswer, next: usize) -> ChainMove {
    match answer {
        ProviderAnswer::Match => ChainMove::Store,
        ProviderAnswer::NoMatch => ChainMove::TryNext { from: next },
        ProviderAnswer::Failed => ChainMove::TryNext { from: next },
    }
}

/// Decides how the chain goes on after a provider's answer; `next` is the
/// position that `next_step` handed out with the step.
pub fn after_answer(answer: ProviderAnswer, next: usize) -> (r: ChainMove)
    ensures
        r == move_after(answer, next),
{
    match answer {
        ProviderAnswer::Match => ChainMove::Store,
        ProviderAnswer::NoMatch => ChainMove::TryNext { from: next },
        ProviderAnswer::Failed => ChainMove::TryNext { from: next },
    }
}

/// The step at which the chain that starts at `from` ends, given for each
/// position whether the provider there has a match: the first step that is
/// not passed over and has one, or the record made from the file name.
pub open spec fn chain_end(
    providers: Seq<MetadataProviderConfigView>,
    default_tmdb_key: Seq<char>,
    has_match: Seq<bool>,
    from: int,
) -> ProviderStepView
    decreases providers.len() - from,
{
    let at = next_position(providers, default_tmdb_key, from);
    if from < 0 || at < from || at >= providers.len() {
        ProviderStepView::Local
    } else if at < has_match.len() && has_match[at] {
        next_step_at(providers, default_tmdb_key, from)
    } else {
        chain_end(providers, default_tmdb_key, has_match, at + 1)
    }
}

/// Every entry ends up with a record: when no provider has a match, whether
/// for want of one or because every request failed, the chain ends with the
/// record made from the file name.
pub proof fn law_chain_without_match_ends_local(
    providers: Seq<MetadataProviderConfigView>,
    default_tmdb_key: Seq<char>,
    has_match: Seq<bool>,
    from: int,
)
    requires
        0 <= from,
        forall|k: int| 0 <= k < has_match.len() ==> !has_match[k],
    ensures
        chain_end(providers, default_tmdb_key, has_match, from) == ProviderStepView::Local,
    decreases providers.len() - from,
{
    lemma_next_position(providers, default_tmdb_key, from);
    let at = next_position(providers, default_tmdb_key, from);
    if from <= at && at < providers.len() {
        law_chain_without_match_ends_local(providers, default_tmdb_key, has_match, at + 1);
    }
}

/// With no enabled provider the chain starts, and ends, with the record made
/// from the file name: nothing is asked of anyone, so nothing can fail.
pub proof fn law_local_when_no_provider_enabled(
    providers: Seq<MetadataProviderConfigView>,
    default_tmdb_key: Seq<char>,
)
    requires
        forall|k: int| 0 <= k < providers.len() ==> !(#[trigger] providers[k]).enabled,
    ensures
        next_step_at(providers, default_tmdb_key, 0) == ProviderStepView::Local,
{
    lemma_next_position(providers, default_tmdb_key, 0);
    let at = next_position(providers, default_tmdb_key, 0);
    if at < providers.len() {
        assert(!providers[at].enabled);
    }
}

/// Every chain ends: from position `from` on, at most `providers.len() - from`
/// providers are asked before the record is made from the file name.
pub proof fn law_chain_reaches_local(
    providers: Seq<MetadataProviderConfigView>,
    default_tmdb_key: Seq<char>,
    from: int,
)
    requires
        0 <= from <= providers.len(),
    ensures
        next_step_at(providers, default_tmdb_key, providers.len() as int) == ProviderStepView::Local,
        from <= next_position(providers, default_tmdb_key, from) <= providers.len(),
{
    lemma_next_position(providers, default_tmdb_key, from);
}

/// The providers that are enabled, in their order.
pub open spec fn enabled_of(providers: Seq<MetadataProviderConfigView>) -> Seq<
    MetadataProviderConfigView,
>
    decreases providers.len(),
{
    if providers.len() == 0 {
        providers
    } else {
        let init = enabled_of(providers.drop_last());
        if providers.last().enabled {
            init.push(providers.last())
        } else {
            init
        }
    }
}

/// The enabled providers, in their order.
pub fn enabled_providers(providers: &Vec<MetadataProviderConfig>) -> (r: Vec<MetadataProviderConfig>)
    ensures
        r.deep_view() == enabled_of(providers.deep_view()),
{
    let ghost all = providers.deep_view();
    let mut out: Vec<MetadataProviderConfig> = Vec::new();
    let mut i: usize = 0;
    assert(all.take(0) =~= Seq::empty());
    assert(out.deep_view() =~= Seq::empty());
    while i < providers.len()
        invariant
            i <= providers.len(),
            all == providers.deep_view(),
            out.deep_view() == enabled_of(all.take(i as int)),
        decreases providers.len() - i,
    {
        let ghost before = out.deep_view();
        assert(all.take(i + 1).drop_last() =~= all.take(i as int));
        assert(all.take(i + 1).last() == providers[i as int]@);
        if providers[i].enabled {
            out.push(providers[i].clone());
            assert(out.deep_view() =~= before.push(providers[i as int]@));
        }
        i = i + 1;
    }
    assert(all.take(i as int) =~= all);
    out
}

/// What a batch over the library is to do.
#[derive(Debug, PartialEq, Eq)]
pub struct BatchPlan {
    /// The enabled providers, in trial order.
    pub providers: Vec<MetadataProviderConfig>,
    /// The positions in the library of the entries to fetch, ascending.
    pub to_fetch: Vec<usize>,
    /// How many entries are passed by.
    pub skipped: usize,
    /// The pause after each fetched entry, in milliseconds, if any.
    pub delay_ms: Option<u64>,
}

/// The positions below `n` of the entries that are not passed by.
pub open spec fn positions_to_fetch(
    entries: Seq<MediaEntryView>,
    stored: Seq<StoredRecordView>,
    now: Instant,
    months: u32,
    n: int,
) -> Seq<usize>
    decreases n,
{
    if n <= 0 {
        Seq::empty()
    } else {
        let init = positions_to_fetch(entries, stored, now, months, n - 1);
        if is_skipped(entries[n - 1], stored[n - 1], now, months) {
            init
        } else {
            init.push((n - 1) as usize)
        }
    }
}

/// The batch fetches every entry that has an identifier and no usable
/// record, whatever the reason: none stored, one that cannot be read, one
/// made from the file name, one that is too old. With the chain's end this
/// gives every such entry a record, the one made from the file name where no
/// provider is enabled.
pub proof fn law_entry_without_usable_record_is_fetched(
    entries: Seq<MediaEntryView>,
    stored: Seq<StoredRecordView>,
    now: Instant,
    months: u32,
    n: int,
    i: int,
)
    requires
        0 <= i < n <= entries.len(),
        n <= stored.len(),
        n <= usize::MAX,
        entries[i].id.len() > 0,
        !has_usable_record(stored[i], now, clamped_months(months)),
    ensures
        positions_to_fetch(entries, stored, now, months, n).contains(i as usize),
    decreases n,
{
    let all = positions_to_fetch(entries, stored, now, months, n);
    let init = positions_to_fetch(entries, stored, now, months, n - 1);
    if i == n - 1 {
        assert(all == init.push((n - 1) as usize));
        assert(all[all.len() - 1] == i as usize);
    } else {
        law_entry_without_usable_record_is_fetched(entries, stored, now, months, n - 1, i);
        let k = choose|k: int| 0 <= k < init.len() && init[k] == i as usize;
        assert(all[k] == i as usize);
    }
}

/// Plans the batch that fetches missing metadata: which entries it fetches
/// and which it passes by, the providers to try and the pause between
/// entries. `stored[i]` is what is stored for `entries[i]`; an entry for which
/// nothing was handed over counts as having no record.
pub fn fetch_missing_metadata(
    settings_providers: &Vec<MetadataProviderConfig>,
    cache_months: u32,
    entries: &Vec<MediaEntry>,
    stored: &Vec<StoredRecord>,
    now: Instant,
) -> (r: BatchPlan)
    ensures
        r.providers.deep_view() == enabled_of(settings_providers.deep_view()),
        r.delay_ms == if r.providers.len() > 0 {
            Some(250u64)
        } else {
            None
        },
        r.to_fetch@ == positions_to_fetch(
            entries.deep_view(),
            padded(stored.deep_view(), entries.len() as int),
            now,
            cache_months,
            entries.len() as int,
        ),
        r.to_fetch.len() + r.skipped == entries.len(),
{
    let providers = enabled_providers(settings_providers);
    let delay_ms = batch_delay_ms(&providers);
    let ghost e = entries.deep_view();
    let ghost s = padded(stored.deep_view(), entries.len() as int);
    let mut to_fetch: Vec<usize> = Vec::new();
    let mut skipped: usize = 0;
    let mut i: usize = 0;
    let absent = StoredRecord::Absent;
    while i < entries.len()
        invariant
            i <= entries.len(),
            e == entries.deep_view(),
            s == padded(stored.deep_view(), entries.len() as int),
            absent@ == StoredRecordView::Absent,
            to_fetch@ == positions_to_fetch(e, s, now, cache_months, i as int),
            to_fetch.len() + skipped == i,
        decreases entries.len() - i,
    {
        assert(e[i as int] == entries[i as int]@);
        let record = if i < stored.len() {
            assert(s[i as int] == stored[i as int]@);
            &stored[i]
        } else {
            assert(s[i as int] == StoredRecordView::Absent);
            &absent
        };
        if skips_entry(&entries[i], record, now, cache_months) {
            skipped = skipped + 1;
        } else {
            to_fetch.push(i);
        }
        i = i + 1;
    }
    BatchPlan { providers, to_fetch, skipped, delay_ms }
}

/// `stored` brought to length `n`: cut, or filled up with absent records.
pub open spec fn padded(stored: Seq<StoredRecordView>, n: int) -> Seq<StoredRecordView> {
    Seq::new(
        n as nat,
        |i: int| if i < stored.len() {
            stored[i]
        } else {
            StoredRecordView::Absent
        },
    )
}

/// The pause after each entry of a batch, in milliseconds, which keeps the
/// batch within the providers' rate limits; none when no provider is enabled.
pub fn batch_delay_ms(enabled: &Vec<MetadataProviderConfig>) -> (r: Option<u64>)
    ensures
        r == if enabled.len() > 0 {
            Some(250u64)
        } else {
            None
        },
{
    if enabled.len() > 0 {
        Some(250)
    } else {
        None
    }
}

/// How the batch dealt with one entry.
#[derive(Clone, Copy, Debug, PartialEq, Eq, Structural)]
pub enum EntryOutcome {
    /// A record was stored.
    Fetched,
    /// Storing a record failed.
    Failed,
    /// The entry was passed by.
    Skipped,
}

/// How many entries of a batch ended in each way.
#[derive(Clone, Copy, Debug, PartialEq, Eq, Structural)]
pub struct BatchCounts {
    pub fetched: usize,
    pub failed: usize,
    pub skipped: usize,
}

/// How many of `outcomes` are `which`.
pub open spec fn count_of(outcomes: Seq<EntryOutcome>, which: EntryOutcome) -> nat
    decreases outcomes.len(),
{
    if outcomes.len() == 0 {
        0
    } else {
        count_of(outcomes.drop_last(), which) + if outcomes.last() == which {
            1nat
        } else {
            0nat
        }
    }
}

/// Counts the outcomes of a batch.
pub fn tally(outcomes: &Vec<EntryOutcome>) -> (r: BatchCounts)
    ensures
        r.fetched == count_of(outcomes@, EntryOutcome::Fetched),
        r.failed == count_of(outcomes@, EntryOutcome::Failed),
        r.skipped == count_of(outcomes@, EntryOutcome::Skipped),
        r.fetched + r.failed + r.skipped == outcomes.len(),
{
    let mut counts = BatchCounts { fetched: 0, failed: 0, skipped: 0 };
    let mut i: usize = 0;
    assert(outcomes@.take(0) =~= Seq::empty());
    while i < outcomes.len()
        invariant
            i <= outcomes.len(),
            counts.fetched == count_of(outcomes@.take(i as int), EntryOutcome::Fetched),
            counts.failed == count_of(outcomes@.take(i as int), EntryOutcome::Failed),
            counts.skipped == count_of(outcomes@.take(i as int), EntryOutcome::Skipped),
            counts.fetched + counts.failed + counts.skipped == i,
        decreases outcomes.len() - i,
    {
        assert(outcomes@.take(i + 1).drop_last() =~= outcomes@.take(i as int));
        assert(outcomes@.take(i + 1).last() == outcomes@[i as int]);
        match outcomes[i] {
            EntryOutcome::Fetched => {
                counts.fetched = counts.fetched + 1;
            },
            EntryOutcome::Failed => {
                counts.failed = counts.failed + 1;
            },
            EntryOutcome::Skipped => {
                counts.skipped = counts.skipped + 1;
            },
        }
        i = i + 1;
    }
    assert(outcomes@.take(i as int) =~= outcomes@);
    counts
}

/// The sentence that reports a batch.
pub open spec fn summary_text(counts: BatchCounts) -> Seq<char> {
    "Metadata fetch complete: "@ + decimal_text(counts.fetched as nat) + " fetched, "@
        + decimal_text(counts.failed as nat) + " failed, "@ + decimal_text(counts.skipped as nat)
        + " skipped"@
}

/// The sentence that reports a batch.
pub fn summary(counts: BatchCounts) -> (r: String)
    ensures
        r@ == summary_text(counts),
{
    let mut out = "Metadata fetch complete: ".to_owned();
    append_decimal(&mut out, counts.fetched as u64);
    append_str(&mut out, " fetched, ");
    append_decimal(&mut out, counts.failed as u64);
    append_str(&mut out, " failed, ");
    append_decimal(&mut out, counts.skipped as u64);
    append_str(&mut out, " skipped");
    out
}

/// What a batch over a library reports: that there was nothing to do when
/// the library is empty, the three counts otherwise.
pub fn batch_report(library_len: usize, outcomes: &Vec<EntryOutcome>) -> (r: String)
    ensures
        r@ == if library_len == 0 {
            "No media entries to process"@
        } else {
            summary_text(
                BatchCounts {
                    fetched: count_of(outcomes@, EntryOutcome::Fetched) as usize,
                    failed: count_of(outcomes@, EntryOutcome::Failed) as usize,
                    skipped: count_of(outcomes@, EntryOutcome::Skipped) as usize,
                },
            )
        },
{
    if library_len == 0 {
        "No media entries to process".to_owned()
    } else {
        summary(tally(outcomes))
    }
}

/// How many seconds the retry loop lets the application settle before its
/// first batch.
pub const RETRY_SETTLE_SECONDS: u32 = 30;

/// How many seconds the retry loop waits between two batches.
pub const RETRY_INTERVAL_SECONDS: u32 = 900;

/// Where the retry loop stands.
#[derive(Clone, Copy, Debug, PartialEq, Eq, Structural)]
pub enum RetryPhase {
    /// Settling after the start; `waited` seconds have passed.
    Settling { waited: u32 },
    /// A batch is due.
    Due,
    /// Between two batches; `waited` seconds have passed since the last one.
    Waiting { waited: u32 },
    /// The loop has ended.
    Stopped,
}

/// What the retry loop does next.
#[derive(Clone, Copy, Debug, PartialEq, Eq, Structural)]
pub enum RetryAction {
    /// Sleep for one second.
    Sleep,
    /// Run the batch that fetches missing metadata.
    RunBatch,
    /// End the loop.
    Exit,
}

/// The retry loop's next phase and action, given whether a stop was asked
/// for. The stop signal is looked at before every action, so the loop ends
/// within a second of it.
pub open spec fn retry_next(phase: RetryPhase, stop_requested: bool) -> (RetryPhase, RetryAction) {
    if stop_requested {
        (RetryPhase::Stopped, RetryAction::Exit)
    } else {
        match phase {
            RetryPhase::Settling { waited } => if waited + 1 >= RETRY_SETTLE_SECONDS {
                (RetryPhase::Due, RetryAction::Sleep)
            } else {
                (RetryPhase::Settling { waited: (waited + 1) as u32 }, RetryAction::Sleep)
            },
            RetryPhase::Due => (RetryPhase::Waiting { waited: 0 }, RetryAction::RunBatch),
            RetryPhase::Waiting { waited } => if waited + 1 >= RETRY_INTERVAL_SECONDS {
                (RetryPhase::Due, RetryAction::Sleep)
            } else {
                (RetryPhase::Waiting { waited: (waited + 1) as u32 }, RetryAction::Sleep)
            },
            RetryPhase::Stopped => (RetryPhase::Stopped, RetryAction::Exit),
        }
    }
}

/// The retry loop as it starts.
pub fn retry_start() -> (r: RetryPhase)
    ensures
        r == (RetryPhase::Settling { waited: 0 }),
{
    RetryPhase::Settling { waited: 0 }
}

/// One step of the retry loop.
pub fn retry_step(phase: RetryPhase, stop_requested: bool) -> (r: (RetryPhase, RetryAction))
    ensures
        r == retry_next(phase, stop_requested),
{
    if stop_requested {
        return (RetryPhase::Stopped, RetryAction::Exit);
    }
    match phase {
        RetryPhase::Settling { waited } => if waited >= RETRY_SETTLE_SECONDS - 1 {
            (RetryPhase::Due, RetryAction::Sleep)
        } else {
            (RetryPhase::Settling { waited: waited + 1 }, RetryAction::Sleep)
        },
        RetryPhase::Due => (RetryPhase::Waiting { waited: 0 }, RetryAction::RunBatch),
        RetryPhase::Waiting { waited } => if waited >= RETRY_INTERVAL_SECONDS - 1 {
            (RetryPhase::Due, RetryAction::Sleep)
        } else {
            (RetryPhase::Waiting { waited: waited + 1 }, RetryAction::Sleep)
        },
        RetryPhase::Stopped => (RetryPhase::Stopped, RetryAction::Exit),
    }
}

/// The phase after `n` steps during which no stop was asked for.
pub open spec fn retry_after(phase: RetryPhase, n: nat) -> RetryPhase
    decreases n,
{
    if n == 0 {
        phase
    } else {
        retry_next(retry_after(phase, (n - 1) as nat), false).0
    }
}

proof fn lemma_settling(n: nat)
    requires
        n < RETRY_SETTLE_SECONDS,
    ensures
        retry_after(RetryPhase::Settling { waited: 0 }, n) == (RetryPhase::Settling {
            waited: n as u32,
        }),
    decreases n,
{
    if n > 0 {
        lemma_settling((n - 1) as nat);
    }
}

proof fn lemma_waiting(n: nat)
    requires
        n < RETRY_INTERVAL_SECONDS,
    ensures
        retry_after(RetryPhase::Waiting { waited: 0 }, n) == (RetryPhase::Waiting {
            waited: n as u32,
        }),
    decreases n,
{
    if n > 0 {
        lemma_waiting((n - 1) as nat);
    }
}

/// The first batch is due after the settle delay and not before; after a
/// batch the next one is due after the retry interval and not before.
pub proof fn law_retry_schedule(n: nat)
    ensures
        n < RETRY_SETTLE_SECONDS ==> retry_after(RetryPhase::Settling { waited: 0 }, n)
            != RetryPhase::Due,
        retry_after(RetryPhase::Settling { waited: 0 }, RETRY_SETTLE_SECONDS as nat)
            == RetryPhase::Due,
        n < RETRY_INTERVAL_SECONDS ==> retry_after(RetryPhase::Waiting { waited: 0 }, n)
            != RetryPhase::Due,
        retry_after(RetryPhase::Waiting { waited: 0 }, RETRY_INTERVAL_SECONDS as nat)
            == RetryPhase::Due,
{
    if n < RETRY_SETTLE_SECONDS {
        lemma_settling(n);
    }
    if n < RETRY_INTERVAL_SECONDS {
        lemma_waiting(n);
    }
    lemma_settling((RETRY_SETTLE_SECONDS - 1) as nat);
    lemma_waiting((RETRY_INTERVAL_SECONDS - 1) as nat);
}

/// Whether a retry loop is running for the session.
#[derive(Clone, Copy, Debug, PartialEq, Eq, Structural)]
pub struct MetadataRetryState {
    pub running: bool,
}

impl MetadataRetryState {
    /// No retry loop runs yet.
    pub fn new() -> (r: Self)
        ensures
            !r.running,
    {
        MetadataRetryState { running: false }
    }

    /// The state after `action` was carried out.
    pub open spec fn recorded(self, action: SessionAction) -> MetadataRetryState {
        match action {
            SessionAction::StopRetry => MetadataRetryState { running: false },
            SessionAction::SpawnRetry => MetadataRetryState { running: true },
            _ => self,
        }
    }

    /// Takes note that `action` was carried out.
    pub fn record(&mut self, action: SessionAction)
        ensures
            *final(self) == old(self).recorded(action),
    {
        match action {
            SessionAction::StopRetry => {
                self.running = false;
            },
            SessionAction::SpawnRetry => {
                self.running = true;
            },
            _ => {},
        }
    }
}

/// What starting the retry loop takes: the loop that runs, if any, is
/// stopped and joined first, then the new one is spawned.
pub fn start_metadata_retry() -> (r: Vec<SessionAction>)
    ensures
        r@ == seq![SessionAction::StopRetry, SessionAction::SpawnRetry],
{
    let mut plan: Vec<SessionAction> = Vec::new();
    plan.push(SessionAction::StopRetry);
    plan.push(SessionAction::SpawnRetry);
    assert(plan@ =~= seq![SessionAction::StopRetry, SessionAction::SpawnRetry]);
    plan
}

/// What stopping the retry loop takes.
pub fn stop_metadata_retry() -> (r: Vec<SessionAction>)
    ensures
        r@ == seq![SessionAction::StopRetry],
{
    let mut plan: Vec<SessionAction> = Vec::new();
    plan.push(SessionAction::StopRetry);
    assert(plan@ =~= seq![SessionAction::StopRetry]);
    plan
}

/// Which image of a record.
#[derive(Clone, Copy, Debug, PartialEq, Eq, Structural)]
pub enum ImageKind {
    Poster,
    Backdrop,
}

/// One image to fetch and store beside a record.
#[derive(Debug, PartialEq, Eq)]
pub struct ImageRequest {
    pub kind: ImageKind,
    /// Where to get the image.
    pub url: String,
    /// The file to write, beside the record.
    pub file_name: String,
}

/// What a `ImageRequest` holds, as mathematical values.
pub struct ImageRequestView {
    pub kind: ImageKind,
    pub url: Seq<char>,
    pub file_name: Seq<char>,
}

impl View for ImageRequest {
    type V = ImageRequestView;

    open spec fn view(&self) -> ImageRequestView {
        ImageRequestView { kind: self.kind, url: self.url@, file_name: self.file_name@ }
    }
}

impl DeepView for ImageRequest {
    type V = ImageRequestView;

    open spec fn deep_view(&self) -> ImageRequestView {
        self@
    }
}

/// The file name of an image beside its record.
pub open spec fn image_file_name(kind: ImageKind) -> Seq<char> {
    match kind {
        ImageKind::Poster => "poster.jpg"@,
        ImageKind::Backdrop => "backdrop.jpg"@,
    }
}

/// The request for the image `kind` at `url`.
pub open spec fn request_for(kind: ImageKind, url: Seq<char>) -> ImageRequestView {
    ImageRequestView { kind: kind, url: url, file_name: image_file_name(kind) }
}

/// The images to store for a record by `provider`. For TMDB: the poster,
/// 500 wide, and the backdrop, 1280 wide, where the answer names them. For
/// OMDb: the poster, where the answer gives an address for it; an address
/// that is empty or `N/A` is none. No other provider has images.
pub open spec fn images_wanted(
    provider: Seq<char>,
    tmdb_poster: Option<Seq<char>>,
    tmdb_backdrop: Option<Seq<char>>,
    omdb_poster: Option<Seq<char>>,
) -> Seq<ImageRequestView> {
    if provider == "tmdb"@ {
        (match tmdb_poster {
            Some(p) => seq![request_for(ImageKind::Poster, image_address("w500"@, p))],
            None => Seq::empty(),
        }) + (match tmdb_backdrop {
            Some(b) => seq![request_for(ImageKind::Backdrop, image_address("w1280"@, b))],
            None => Seq::empty(),
        })
    } else if provider == "omdb"@ {
        match omdb_poster {
            Some(u) => if u == "N/A"@ || u.len() == 0 {
                Seq::empty()
            } else {
                seq![request_for(ImageKind::Poster, u)]
            },
            None => Seq::empty(),
        }
    } else {
        Seq::empty()
    }
}

/// The file name under which the image `kind` is stored.
pub fn file_name_of(kind: ImageKind) -> (r: String)
    ensures
        r@ == image_file_name(kind),
{
    match kind {
        ImageKind::Poster => "poster.jpg".to_owned(),
        ImageKind::Backdrop => "backdrop.jpg".to_owned(),
    }
}

/// The images to store for a record, in the order in which to get them.
pub fn image_requests(
    provider_id: &str,
    tmdb_poster_path: Option<&str>,
    tmdb_backdrop_path: Option<&str>,
    omdb_poster_url: Option<&str>,
) -> (r: Vec<ImageRequest>)
    ensures
        r.deep_view() == images_wanted(
            provider_id@,
            tmdb_poster_path.deep_view(),
            tmdb_backdrop_path.deep_view(),
            omdb_poster_url.deep_view(),
        ),
{
    let mut out: Vec<ImageRequest> = Vec::new();
    if str_eq(provider_id, "tmdb") {
        match tmdb_poster_path {
            Some(p) => {
                out.push(
                    ImageRequest {
                        kind: ImageKind::Poster,
                        url: image_url("w500", p),
                        file_name: file_name_of(ImageKind::Poster),
                    },
                );
            },
            None => {},
        }
        match tmdb_backdrop_path {
            Some(b) => {
                out.push(
                    ImageRequest {
                        kind: ImageKind::Backdrop,
                        url: image_url("w1280", b),
                        file_name: file_name_of(ImageKind::Backdrop),
                    },
                );
            },
            None => {},
        }
    } else if str_eq(provider_id, "omdb") {
        match omdb_poster_url {
            Some(u) => {
                if !(str_eq(u, "N/A") || u.is_empty()) {
                    out.push(
                        ImageRequest {
                            kind: ImageKind::Poster,
                            url: u.to_owned(),
                            file_name: file_name_of(ImageKind::Poster),
                        },
                    );
                }
            },
            None => {},
        }
    }
    assert(out.deep_view() =~= images_wanted(
        provider_id@,
        tmdb_poster_path.deep_view(),
        tmdb_backdrop_path.deep_view(),
        omdb_poster_url.deep_view(),
    ));
    out
}

/// The images of a record once the image `kind` was stored beside it.
pub open spec fn with_image(images: MetadataImagesView, kind: ImageKind) -> MetadataImagesView {
    match kind {
        ImageKind::Poster => MetadataImagesView { poster: Some(image_file_name(kind)), ..images },
        ImageKind::Backdrop => MetadataImagesView {
            backdrop: Some(image_file_name(kind)),
            ..images
        },
    }
}

/// Notes in the record that the image `kind` was stored beside it.
pub fn record_image(metadata: VideoMetadata, kind: ImageKind) -> (r: VideoMetadata)
    ensures
        r@ == (VideoMetadataView { images: with_image(metadata@.images, kind), ..metadata@ }),
{
    let mut m = metadata;
    match kind {
        ImageKind::Poster => {
            m.images.poster = Some(file_name_of(kind));
        },
        ImageKind::Backdrop => {
            m.images.backdrop = Some(file_name_of(kind));
        },
    }
    m
}

/// The record for `entry` that its file name alone gives, made now.
pub fn build_local_metadata(entry: &MediaEntry) -> (r: VideoMetadata)
    ensures
        r@ == local_record(entry@, parsed(entry.filename@), r.fetched_at@),
{
    local_metadata_at(entry, timestamp_now())
}

/// The file in a user's directory that holds the settings.
pub const SETTINGS_FILE: &'static str = "settings.json";

/// The file in a user's directory that holds the library.
pub const LIBRARY_FILE: &'static str = "library.json";

/// The directory in a user's directory that holds one directory of metadata
/// for each entry, named by the entry's identifier.
pub const METADATA_DIR: &'static str = "metas";

/// The file in an entry's metadata directory that holds its record.
pub const RECORD_FILE: &'static str = "meta.json";

} // verus!
