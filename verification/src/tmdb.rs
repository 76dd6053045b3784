//! The Movie Database: the addresses to ask and how its answers become
//! records.

use vstd::prelude::*;
use crate::metadata::{
    append_urlencoded, bare_metadata, bare_record, url_encoded, CastMember, CastMemberView,
    CrewMember, CrewMemberView, VideoMetadata, VideoMetadataView,
};
use crate::text::{
    append_decimal, append_str, decimal_text, first_segment, leading_number, parsed_u32, str_eq,
};

verus! {

/// Where the service answers.
pub const TMDB_BASE_URL: &'static str = "https://api.themoviedb.org/3";

/// Where the service serves images.
pub const TMDB_IMAGE_BASE: &'static str = "https://image.tmdb.org/t/p";

/// How many members of the cast a record keeps.
pub const CAST_LIMIT: usize = 10;

/// How many members of a series' crew a record keeps.
pub const CREW_LIMIT: usize = 10;

/// The address that searches for a film by title, and by year if one is
/// known.
pub open spec fn movie_search_address(api_key: Seq<char>, title: Seq<char>, year: Option<u32>)
    -> Seq<char> {
    TMDB_BASE_URL@ + "/search/movie?api_key="@ + api_key + "&query="@ + url_encoded(title) + match year {
        Some(y) => "&year="@ + decimal_text(y as nat),
        None => Seq::empty(),
    }
}

/// Builds the address that searches for a film.
pub fn movie_search_url(api_key: &str, title: &str, year: Option<u32>) -> (r: String)
    ensures
        r@ == movie_search_address(api_key@, title@, year),
{
    let mut url = TMDB_BASE_URL.to_owned();
    append_str(&mut url, "/search/movie?api_key=");
    append_str(&mut url, api_key);
    append_str(&mut url, "&query=");
    append_urlencoded(&mut url, title);
    match year {
        Some(y) => {
            append_str(&mut url, "&year=");
            append_decimal(&mut url, y as u64);
            assert(url@ =~= movie_search_address(api_key@, title@, year));
        },
        None => {
            assert(url@ =~= movie_search_address(api_key@, title@, year));
        },
    }
    url
}

/// The address of a film's details with its credits.
pub open spec fn movie_detail_address(api_key: Seq<char>, id: u64) -> Seq<char> {
    TMDB_BASE_URL@ + "/movie/"@ + decimal_text(id as nat) + "?api_key="@ + api_key
        + "&append_to_response=credits"@
}

/// Builds the address of a film's details.
pub fn movie_detail_url(api_key: &str, id: u64) -> (r: String)
    ensures
        r@ == movie_detail_address(api_key@, id),
{
    let mut url = TMDB_BASE_URL.to_owned();
    append_str(&mut url, "/movie/");
    append_decimal(&mut url, id);
    append_str(&mut url, "?api_key=");
    append_str(&mut url, api_key);
    append_str(&mut url, "&append_to_response=credits");
    url
}

/// The address that searches for a series by title.
pub open spec fn tv_search_address(api_key: Seq<char>, title: Seq<char>) -> Seq<char> {
    TMDB_BASE_URL@ + "/search/tv?api_key="@ + api_key + "&query="@ + url_encoded(title)
}

/// Builds the address that searches for a series.
pub fn tv_search_url(api_key: &str, title: &str) -> (r: String)
    ensures
        r@ == tv_search_address(api_key@, title@),
{
    let mut url = TMDB_BASE_URL.to_owned();
    append_str(&mut url, "/search/tv?api_key=");
    append_str(&mut url, api_key);
    append_str(&mut url, "&query=");
    append_urlencoded(&mut url, title);
    url
}

/// The address of a series' details with its credits.
pub open spec fn tv_detail_address(api_key: Seq<char>, id: u64) -> Seq<char> {
    TMDB_BASE_URL@ + "/tv/"@ + decimal_text(id as nat) + "?api_key="@ + api_key
        + "&append_to_response=credits"@
}

/// Builds the address of a series' details.
pub fn tv_detail_url(api_key: &str, id: u64) -> (r: String)
    ensures
        r@ == tv_detail_address(api_key@, id),
{
    let mut url = TMDB_BASE_URL.to_owned();
    append_str(&mut url, "/tv/");
    append_decimal(&mut url, id);
    append_str(&mut url, "?api_key=");
    append_str(&mut url, api_key);
    append_str(&mut url, "&append_to_response=credits");
    url
}

/// The address of one episode's details.
pub open spec fn episode_address(api_key: Seq<char>, series_id: u64, season: u32, episode: u32)
    -> Seq<char> {
    TMDB_BASE_URL@ + "/tv/"@ + decimal_text(series_id as nat) + "/season/"@ + decimal_text(
        season as nat,
    ) + "/episode/"@ + decimal_text(episode as nat) + "?api_key="@ + api_key
}

/// Builds the address of an episode's details.
pub fn episode_url(api_key: &str, series_id: u64, season: u32, episode: u32) -> (r: String)
    ensures
        r@ == episode_address(api_key@, series_id, season, episode),
{
    let mut url = TMDB_BASE_URL.to_owned();
    append_str(&mut url, "/tv/");
    append_decimal(&mut url, series_id);
    append_str(&mut url, "/season/");
    append_decimal(&mut url, season as u64);
    append_str(&mut url, "/episode/");
    append_decimal(&mut url, episode as u64);
    append_str(&mut url, "?api_key=");
    append_str(&mut url, api_key);
    url
}

/// The address of an image in a given size (`w500`, `w1280`).
pub open spec fn image_address(size: Seq<char>, path: Seq<char>) -> Seq<char> {
    TMDB_IMAGE_BASE@ + "/"@ + size + path
}

/// Builds the address of an image.
pub fn image_url(size: &str, path: &str) -> (r: String)
    ensures
        r@ == image_address(size@, path@),
{
    let mut url = TMDB_IMAGE_BASE.to_owned();
    append_str(&mut url, "/");
    append_str(&mut url, size);
    append_str(&mut url, path);
    url
}

/// The identifier of the first result of a search, the one whose details are
/// asked for.
pub fn first_result(ids: &Vec<u64>) -> (r: Option<u64>)
    ensures
        r == if ids.len() > 0 {
            Some(ids[0])
        } else {
            None
        },
{
    if ids.len() > 0 {
        Some(ids[0])
    } else {
        None
    }
}

/// The cast and crew of a title, as the service lists them.
#[derive(Debug, PartialEq, Eq)]
pub struct TmdbCredits {
    pub cast: Option<Vec<CastMember>>,
    pub crew: Option<Vec<CrewMember>>,
}

/// The details of a film or of a series, as the service gives them. For a
/// series `title` is its name, `release_date` the day it first aired and
/// `runtimes` the lengths of its episodes; for a film `runtimes` holds its
/// one length, if known.
#[derive(Debug, PartialEq, Eq)]
pub struct TmdbDetail {
    pub id: u64,
    pub title: Option<String>,
    pub original_title: Option<String>,
    pub overview: Option<String>,
    pub tagline: Option<String>,
    pub release_date: Option<String>,
    pub runtimes: Vec<u32>,
    /// The average vote as the decimal number the service sent, in text.
    pub vote_average: Option<String>,
    pub vote_count: Option<u32>,
    pub genres: Option<Vec<String>>,
    pub poster_path: Option<String>,
    pub backdrop_path: Option<String>,
    pub imdb_id: Option<String>,
    pub original_language: Option<String>,
    pub status: Option<String>,
    pub production_companies: Option<Vec<String>>,
    pub credits: Option<TmdbCredits>,
}

/// What a `TmdbDetail` holds, as mathematical values.
pub struct TmdbDetailView {
    pub id: u64,
    pub title: Option<Seq<char>>,
    pub original_title: Option<Seq<char>>,
    pub overview: Option<Seq<char>>,
    pub tagline: Option<Seq<char>>,
    pub release_date: Option<Seq<char>>,
    pub runtimes: Seq<u32>,
    pub vote_average: Option<Seq<char>>,
    pub vote_count: Option<u32>,
    pub genres: Option<Seq<Seq<char>>>,
    pub poster_path: Option<Seq<char>>,
    pub backdrop_path: Option<Seq<char>>,
    pub imdb_id: Option<Seq<char>>,
    pub original_language: Option<Seq<char>>,
    pub status: Option<Seq<char>>,
    pub production_companies: Option<Seq<Seq<char>>>,
    pub cast: Option<Seq<CastMemberView>>,
    pub crew: Option<Seq<CrewMemberView>>,
}

impl View for TmdbDetail {
    type V = TmdbDetailView;

    open spec fn view(&self) -> TmdbDetailView {
        TmdbDetailView {
            id: self.id,
            title: self.title.deep_view(),
            original_title: self.original_title.deep_view(),
            overview: self.overview.deep_view(),
            tagline: self.tagline.deep_view(),
            release_date: self.release_date.deep_view(),
            runtimes: self.runtimes@,
            vote_average: self.vote_average.deep_view(),
            vote_count: self.vote_count,
            genres: self.genres.deep_view(),
            poster_path: self.poster_path.deep_view(),
            backdrop_path: self.backdrop_path.deep_view(),
            imdb_id: self.imdb_id.deep_view(),
            original_language: self.original_language.deep_view(),
            status: self.status.deep_view(),
            production_companies: self.production_companies.deep_view(),
            cast: match self.credits {
                Some(c) => c.cast.deep_view(),
                None => None,
            },
            crew: match self.credits {
                Some(c) => c.crew.deep_view(),
                None => None,
            },
        }
    }
}

/// The details of one episode.
#[derive(Debug, PartialEq, Eq)]
pub struct TmdbEpisodeDetail {
    pub name: Option<String>,
    pub overview: Option<String>,
    pub still_path: Option<String>,
}

/// One episode as it was asked for and answered.
#[derive(Debug, PartialEq, Eq)]
pub struct EpisodeAnswer {
    pub season: u32,
    pub episode: u32,
    pub detail: TmdbEpisodeDetail,
}

/// What a `EpisodeAnswer` holds, as mathematical values.
pub struct EpisodeAnswerView {
    pub season: u32,
    pub episode: u32,
    pub name: Option<Seq<char>>,
    pub overview: Option<Seq<char>>,
    pub still_path: Option<Seq<char>>,
}

impl View for EpisodeAnswer {
    type V = EpisodeAnswerView;

    open spec fn view(&self) -> EpisodeAnswerView {
        EpisodeAnswerView {
            season: self.season,
            episode: self.episode,
            name: self.detail.name.deep_view(),
            overview: self.detail.overview.deep_view(),
            still_path: self.detail.still_path.deep_view(),
        }
    }
}

impl DeepView for EpisodeAnswer {
    type V = EpisodeAnswerView;

    open spec fn deep_view(&self) -> EpisodeAnswerView {
        self@
    }
}

/// A record made from the service's answer, with the places of its images.
#[derive(Debug, PartialEq, Eq)]
pub struct TmdbFetchResult {
    pub metadata: VideoMetadata,
    pub poster_path: Option<String>,
    pub backdrop_path: Option<String>,
}

/// The year of a date such as `2024-05-17`: the number before its first `-`.
pub open spec fn year_of_date(date: Option<Seq<char>>) -> Option<u32> {
    match date {
        Some(d) => parsed_u32(first_segment(d, '-')),
        None => None,
    }
}

fn date_year(date: &Option<String>) -> (r: Option<u32>)
    ensures
        r == year_of_date(date.deep_view()),
{
    match date {
        Some(d) => leading_number(d.as_str(), '-'),
        None => None,
    }
}

/// Whether a member of the crew is kept: directors, writers and screenplay
/// authors are, and for a series the executive producers too.
pub open spec fn is_key_job(job: Option<Seq<char>>, series: bool) -> bool {
    match job {
        Some(j) => j == "Director"@ || j == "Writer"@ || j == "Screenplay"@ || (series && j
            == "Executive Producer"@),
        None => false,
    }
}

/// The members of the crew that are kept, in their order.
pub open spec fn key_crew(crew: Seq<CrewMemberView>, series: bool) -> Seq<CrewMemberView>
    decreases crew.len(),
{
    if crew.len() == 0 {
        crew
    } else {
        let init = key_crew(crew.drop_last(), series);
        if is_key_job(crew.last().job, series) {
            init.push(crew.last())
        } else {
            init
        }
    }
}

/// At most the first `n` of `s`.
pub open spec fn at_most<T>(s: Seq<T>, n: int) -> Seq<T> {
    if s.len() > n {
        s.take(n)
    } else {
        s
    }
}

/// The cast of a record: the first ten the service lists.
pub open spec fn record_cast(cast: Option<Seq<CastMemberView>>) -> Seq<CastMemberView> {
    match cast {
        Some(c) => at_most(c, CAST_LIMIT as int),
        None => Seq::empty(),
    }
}

/// The crew of a record: the key members, for a series the first ten of them.
pub open spec fn record_crew(crew: Option<Seq<CrewMemberView>>, series: bool) -> Seq<CrewMemberView> {
    match crew {
        Some(c) => if series {
            at_most(key_crew(c, series), CREW_LIMIT as int)
        } else {
            key_crew(c, series)
        },
        None => Seq::empty(),
    }
}

fn keep_key_crew(crew: Vec<CrewMember>, series: bool) -> (r: Vec<CrewMember>)
    ensures
        r.deep_view() == key_crew(crew.deep_view(), series),
{
    let ghost s = crew.deep_view();
    let mut kept: Vec<CrewMember> = Vec::new();
    assert(s.take(0) =~= Seq::empty());
    assert(kept.deep_view() =~= Seq::empty());
    for m in it: crew
        invariant
            it.seq() == crew@,
            s == crew.deep_view(),
            kept.deep_view() == key_crew(s.take(it.index()), series),
    {
        let ghost i = it.index();
        let ghost before = kept.deep_view();
        assert(s.take(i + 1).drop_last() =~= s.take(i));
        assert(s.take(i + 1).last() == m@);
        let key = match &m.job {
            Some(j) => str_eq(j.as_str(), "Director") || str_eq(j.as_str(), "Writer") || str_eq(
                j.as_str(),
                "Screenplay",
            ) || (series && str_eq(j.as_str(), "Executive Producer")),
            None => false,
        };
        if key {
            kept.push(m);
            assert(kept.deep_view() =~= before.push(s[i]));
        }
    }
    assert(s.take(s.len() as int) =~= s);
    kept
}

/// The record that the details of a film or of a series give. The year is
/// that of the release date; the first of the runtimes is the runtime. For a
/// series no IMDb identifier is kept, and the episode that was answered, if
/// one was, fills the episode's fields.
pub open spec fn detail_record(
    detail: TmdbDetailView,
    series: bool,
    episode: Option<EpisodeAnswerView>,
    fetched_at: Seq<char>,
) -> VideoMetadataView {
    VideoMetadataView {
        original_title: detail.original_title,
        year: year_of_date(detail.release_date),
        overview: detail.overview,
        tagline: detail.tagline,
        genres: match detail.genres {
            Some(g) => g,
            None => Seq::empty(),
        },
        runtime_minutes: if detail.runtimes.len() > 0 {
            Some(detail.runtimes[0])
        } else {
            None
        },
        rating: detail.vote_average,
        vote_count: detail.vote_count,
        release_date: detail.release_date,
        imdb_id: if series {
            None
        } else {
            detail.imdb_id
        },
        tmdb_id: Some(detail.id),
        cast: record_cast(detail.cast),
        crew: record_crew(detail.crew, series),
        studios: match detail.production_companies {
            Some(c) => c,
            None => Seq::empty(),
        },
        language: detail.original_language,
        status: detail.status,
        season_number: match episode {
            Some(e) => Some(e.season),
            None => None,
        },
        episode_number: match episode {
            Some(e) => Some(e.episode),
            None => None,
        },
        episode_title: match episode {
            Some(e) => e.name,
            None => None,
        },
        episode_overview: match episode {
            Some(e) => e.overview,
            None => None,
        },
        episode_still: match episode {
            Some(e) => e.still_path,
            None => None,
        },
        ..bare_record(
            match detail.title {
                Some(t) => t,
                None => Seq::empty(),
            },
            "tmdb"@,
            fetched_at,
        )
    }
}

fn build_record(detail: TmdbDetail, series: bool, episode: Option<EpisodeAnswer>, fetched_at: String)
    -> (r: TmdbFetchResult)
    ensures
        r.metadata@ == detail_record(detail@, series, episode.deep_view(), fetched_at@),
        r.poster_path.deep_view() == detail@.poster_path,
        r.backdrop_path.deep_view() == detail@.backdrop_path,
{
    let ghost d = detail@;
    let TmdbDetail {
        id,
        title,
        original_title,
        overview,
        tagline,
        release_date,
        runtimes,
        vote_average,
        vote_count,
        genres,
        poster_path,
        backdrop_path,
        imdb_id,
        original_language,
        status,
        production_companies,
        credits,
    } = detail;
    let (cast, crew) = match credits {
        Some(c) => (c.cast, c.crew),
        None => (None, None),
    };
    let title = match title {
        Some(t) => t,
        None => String::new(),
    };
    let mut m = bare_metadata(title, "tmdb", fetched_at);
    m.original_title = original_title;
    m.year = date_year(&release_date);
    m.overview = overview;
    m.tagline = tagline;
    m.genres = match genres {
        Some(g) => g,
        None => Vec::new(),
    };
    m.runtime_minutes = if runtimes.len() > 0 {
        Some(runtimes[0])
    } else {
        None
    };
    m.rating = vote_average;
    m.vote_count = vote_count;
    m.release_date = release_date;
    m.imdb_id = if series {
        None
    } else {
        imdb_id
    };
    m.tmdb_id = Some(id);
    m.cast = match cast {
        Some(c) => {
            let mut c = c;
            if c.len() > CAST_LIMIT {
                c.truncate(CAST_LIMIT);
            }
            c
        },
        None => Vec::new(),
    };
    m.crew = match crew {
        Some(c) => {
            let mut kept = keep_key_crew(c, series);
            if series && kept.len() > CREW_LIMIT {
                kept.truncate(CREW_LIMIT);
            }
            kept
        },
        None => Vec::new(),
    };
    m.studios = match production_companies {
        Some(c) => c,
        None => Vec::new(),
    };
    m.language = original_language;
    m.status = status;
    match episode {
        Some(e) => {
            m.season_number = Some(e.season);
            m.episode_number = Some(e.episode);
            m.episode_title = e.detail.name;
            m.episode_overview = e.detail.overview;
            m.episode_still = e.detail.still_path;
        },
        None => {},
    }
    proof {
        let want = detail_record(d, series, episode.deep_view(), fetched_at@);
        assert(m@.genres =~= want.genres);
        assert(m@.cast =~= want.cast);
        assert(m@.crew =~= want.crew);
        assert(m@.studios =~= want.studios);
    }
    TmdbFetchResult { metadata: m, poster_path, backdrop_path }
}

/// Makes the record for a film from its details.
pub fn movie_metadata(detail: TmdbDetail, fetched_at: String) -> (r: TmdbFetchResult)
    ensures
        r.metadata@ == detail_record(detail@, false, None, fetched_at@),
        r.poster_path.deep_view() == detail@.poster_path,
        r.backdrop_path.deep_view() == detail@.backdrop_path,
{
    build_record(detail, false, None, fetched_at)
}

/// The episode to ask for: the one that the file name gives, when it gives
/// both a season and an episode.
pub fn wanted_episode(season: Option<u32>, episode: Option<u32>) -> (r: Option<(u32, u32)>)
    ensures
        r == match (season, episode) {
            (Some(s), Some(e)) => Some((s, e)),
            _ => None,
        },
{
    match (season, episode) {
        (Some(s), Some(e)) => Some((s, e)),
        _ => None,
    }
}

/// Makes the record for a series from its details and from the episode that
/// was answered, if one was asked for and answered.
pub fn tv_metadata(detail: TmdbDetail, episode: Option<EpisodeAnswer>, fetched_at: String) -> (r:
    TmdbFetchResult)
    ensures
        r.metadata@ == detail_record(detail@, true, episode.deep_view(), fetched_at@),
        r.poster_path.deep_view() == detail@.poster_path,
        r.backdrop_path.deep_view() == detail@.backdrop_path,
{
    build_record(detail, true, episode, fetched_at)
}

} // verus!
