//! The Open Movie Database: the address to ask and how its answer becomes a
//! record.

use vstd::prelude::*;
use crate::metadata::{
    append_urlencoded, bare_metadata, bare_record, url_encoded, CastMember, CastMemberView,
    CrewMember, CrewMemberView, VideoMetadata, VideoMetadataView,
};
use crate::text::{
    append_decimal, append_str, decimal_text, first_segment, leading_number, parse_u32,
    parsed_u32, remove_all, split, split_text, str_eq, trim, trimmed, without_text,
};

verus! {

/// The address that looks a film up by title, and by year if one is known.
pub open spec fn lookup_address(api_key: Seq<char>, title: Seq<char>, year: Option<u32>) -> Seq<
    char,
> {
    "https://www.omdbapi.com/?apikey="@ + api_key + "&t="@ + url_encoded(title)
        + "&type=movie&plot=full"@ + match year {
        Some(y) => "&y="@ + decimal_text(y as nat),
        None => Seq::empty(),
    }
}

/// Builds the address that looks a film up.
pub fn lookup_url(api_key: &str, title: &str, year: Option<u32>) -> (r: String)
    ensures
        r@ == lookup_address(api_key@, title@, year),
{
    let mut url = "https://www.omdbapi.com/?apikey=".to_owned();
    append_str(&mut url, api_key);
    append_str(&mut url, "&t=");
    append_urlencoded(&mut url, title);
    append_str(&mut url, "&type=movie&plot=full");
    match year {
        Some(y) => {
            append_str(&mut url, "&y=");
            append_decimal(&mut url, y as u64);
            assert(url@ =~= lookup_address(api_key@, title@, year));
        },
        None => {
            assert(url@ =~= lookup_address(api_key@, title@, year));
        },
    }
    url
}

/// The service's answer, field by field as it sends them.
#[derive(Debug, PartialEq, Eq)]
pub struct OmdbResult {
    pub response: String,
    pub title: Option<String>,
    pub year: Option<String>,
    pub plot: Option<String>,
    pub genre: Option<String>,
    pub runtime: Option<String>,
    pub imdb_rating: Option<String>,
    pub imdb_votes: Option<String>,
    pub imdb_id: Option<String>,
    pub released: Option<String>,
    pub director: Option<String>,
    pub actors: Option<String>,
    pub language: Option<String>,
    pub poster: Option<String>,
    pub production: Option<String>,
}

/// What a `OmdbResult` holds, as mathematical values.
pub struct OmdbResultView {
    pub response: Seq<char>,
    pub title: Option<Seq<char>>,
    pub year: Option<Seq<char>>,
    pub plot: Option<Seq<char>>,
    pub genre: Option<Seq<char>>,
    pub runtime: Option<Seq<char>>,
    pub imdb_rating: Option<Seq<char>>,
    pub imdb_votes: Option<Seq<char>>,
    pub imdb_id: Option<Seq<char>>,
    pub released: Option<Seq<char>>,
    pub director: Option<Seq<char>>,
    pub actors: Option<Seq<char>>,
    pub language: Option<Seq<char>>,
    pub poster: Option<Seq<char>>,
    pub production: Option<Seq<char>>,
}

impl View for OmdbResult {
    type V = OmdbResultView;

    open spec fn view(&self) -> OmdbResultView {
        OmdbResultView {
            response: self.response@,
            title: self.title.deep_view(),
            year: self.year.deep_view(),
            plot: self.plot.deep_view(),
            genre: self.genre.deep_view(),
            runtime: self.runtime.deep_view(),
            imdb_rating: self.imdb_rating.deep_view(),
            imdb_votes: self.imdb_votes.deep_view(),
            imdb_id: self.imdb_id.deep_view(),
            released: self.released.deep_view(),
            director: self.director.deep_view(),
            actors: self.actors.deep_view(),
            language: self.language.deep_view(),
            poster: self.poster.deep_view(),
            production: self.production.deep_view(),
        }
    }
}

/// A record made from the service's answer, with the address of its poster.
#[derive(Debug, PartialEq, Eq)]
pub struct OmdbFetchResult {
    pub metadata: VideoMetadata,
    pub poster_url: Option<String>,
}

/// A field that the service filled in: it writes `N/A` for what it does not
/// know.
pub open spec fn known(field: Option<Seq<char>>) -> Option<Seq<char>> {
    match field {
        Some(t) => if t == "N/A"@ {
            None
        } else {
            Some(t)
        },
        None => None,
    }
}

fn keep_known(field: Option<String>) -> (r: Option<String>)
    ensures
        r.deep_view() == known(field.deep_view()),
{
    match field {
        Some(t) => if str_eq(t.as_str(), "N/A") {
            None
        } else {
            Some(t)
        },
        None => None,
    }
}

/// The names in a list that `, ` separates.
pub open spec fn listed(field: Option<Seq<char>>) -> Seq<Seq<char>> {
    match field {
        Some(t) => split_text(t, ", "@),
        None => Seq::empty(),
    }
}

/// The cast that a list of actors gives: each by name alone.
pub open spec fn cast_of(names: Seq<Seq<char>>) -> Seq<CastMemberView> {
    Seq::new(
        names.len(),
        |i: int| CastMemberView { name: names[i], character: None, profile_path: None },
    )
}

/// The crew that a list of directors gives.
pub open spec fn directors_of(names: Seq<Seq<char>>) -> Seq<CrewMemberView> {
    Seq::new(
        names.len(),
        |i: int| CrewMemberView { name: names[i], job: Some("Director"@), profile_path: None },
    )
}

/// The year of a field such as `2019` or `2019–2023`: the number before the
/// first dash.
pub open spec fn year_of(field: Option<Seq<char>>) -> Option<u32> {
    match field {
        Some(t) => parsed_u32(first_segment(t, '\u{2013}')),
        None => None,
    }
}

/// The minutes of a field such as `142 min`.
pub open spec fn minutes_of(field: Option<Seq<char>>) -> Option<u32> {
    match field {
        Some(t) => parsed_u32(trimmed(without_text(t, " min"@))),
        None => None,
    }
}

/// The count of a field such as `1,234,567`.
pub open spec fn votes_of(field: Option<Seq<char>>) -> Option<u32> {
    match field {
        Some(t) => parsed_u32(without_text(t, ","@)),
        None => None,
    }
}

/// The record that an answer gives; none when the service found nothing,
/// which it says by a `Response` other than `True`.
pub open spec fn answer_record(answer: OmdbResultView, fetched_at: Seq<char>) -> Option<
    VideoMetadataView,
> {
    if answer.response != "True"@ {
        None
    } else {
        Some(
            VideoMetadataView {
                year: year_of(answer.year),
                overview: answer.plot,
                genres: listed(answer.genre),
                runtime_minutes: minutes_of(answer.runtime),
                rating: answer.imdb_rating,
                vote_count: votes_of(answer.imdb_votes),
                release_date: known(answer.released),
                imdb_id: answer.imdb_id,
                cast: cast_of(listed(answer.actors)),
                crew: directors_of(listed(answer.director)),
                studios: match known(answer.production) {
                    Some(p) => seq![p],
                    None => Seq::empty(),
                },
                language: known(answer.language),
                ..bare_record(
                    match answer.title {
                        Some(t) => t,
                        None => Seq::empty(),
                    },
                    "omdb"@,
                    fetched_at,
                )
            },
        )
    }
}

fn list_of(field: &Option<String>) -> (r: Vec<String>)
    ensures
        r.deep_view() == listed(field.deep_view()),
{
    match field {
        Some(t) => split(t.as_str(), ", "),
        None => {
            let r: Vec<String> = Vec::new();
            assert(r.deep_view() =~= Seq::empty());
            r
        },
    }
}

fn cast_from(names: Vec<String>) -> (r: Vec<CastMember>)
    ensures
        r.deep_view() == cast_of(names.deep_view()),
{
    let ghost s = names.deep_view();
    let mut out: Vec<CastMember> = Vec::new();
    for name in it: names
        invariant
            it.seq() == names@,
            s == names.deep_view(),
            out.len() == it.index(),
            forall|k: int| 0 <= k < out.len() ==> (#[trigger] out[k])@ == cast_of(s)[k],
    {
        assert(s[it.index()] == name@);
        out.push(CastMember { name, character: None, profile_path: None });
    }
    assert(out.deep_view() =~= cast_of(s));
    out
}

fn directors_from(names: Vec<String>) -> (r: Vec<CrewMember>)
    ensures
        r.deep_view() == directors_of(names.deep_view()),
{
    let ghost s = names.deep_view();
    let mut out: Vec<CrewMember> = Vec::new();
    for name in it: names
        invariant
            it.seq() == names@,
            s == names.deep_view(),
            out.len() == it.index(),
            forall|k: int| 0 <= k < out.len() ==> (#[trigger] out[k])@ == directors_of(s)[k],
    {
        assert(s[it.index()] == name@);
        out.push(CrewMember { name, job: Some("Director".to_owned()), profile_path: None });
    }
    assert(out.deep_view() =~= directors_of(s));
    out
}

/// Makes the record from the service's answer. The poster's address is handed
/// back beside it, unless the service knows none.
pub fn omdb_metadata(answer: OmdbResult, fetched_at: String) -> (r: Option<OmdbFetchResult>)
    ensures
        match r {
            Some(found) => answer_record(answer@, fetched_at@) == Some(found.metadata@)
                && found.poster_url.deep_view() == known(answer@.poster),
            None => answer_record(answer@, fetched_at@) is None,
        },
{
    if !str_eq(answer.response.as_str(), "True") {
        return None;
    }
    let ghost a = answer@;
    let year = match &answer.year {
        Some(t) => leading_number(t.as_str(), '\u{2013}'),
        None => None,
    };
    let runtime_minutes = match &answer.runtime {
        Some(t) => {
            let bare = remove_all(t.as_str(), " min");
            let bare = trim(bare.as_str());
            parse_u32(bare.as_str())
        },
        None => None,
    };
    let vote_count = match &answer.imdb_votes {
        Some(t) => {
            let bare = remove_all(t.as_str(), ",");
            parse_u32(bare.as_str())
        },
        None => None,
    };
    let genres = list_of(&answer.genre);
    let cast = cast_from(list_of(&answer.actors));
    let crew = directors_from(list_of(&answer.director));
    let OmdbResult {
        response,
        title,
        year: _,
        plot,
        genre,
        runtime,
        imdb_rating,
        imdb_votes,
        imdb_id,
        released,
        director,
        actors,
        language,
        poster,
        production,
    } = answer;
    let studios: Vec<String> = match keep_known(production) {
        Some(p) => {
            let mut v: Vec<String> = Vec::new();
            v.push(p);
            v
        },
        None => Vec::new(),
    };
    let title = match title {
        Some(t) => t,
        None => String::new(),
    };
    let mut m = bare_metadata(title, "omdb", fetched_at);
    m.year = year;
    m.overview = plot;
    m.genres = genres;
    m.runtime_minutes = runtime_minutes;
    m.rating = imdb_rating;
    m.vote_count = vote_count;
    m.release_date = keep_known(released);
    m.imdb_id = imdb_id;
    m.cast = cast;
    m.crew = crew;
    m.studios = studios;
    m.language = keep_known(language);
    proof {
        let want = answer_record(a, fetched_at@).unwrap();
        assert(m@.studios =~= want.studios);
    }
    Some(OmdbFetchResult { metadata: m, poster_url: keep_known(poster) })
}

} // verus!
