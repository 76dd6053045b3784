//! What a video file's name says about its content: a title with a year for a
//! film, a title with season and episode for a series.

use vstd::prelude::*;
use crate::text::{
    chars_of, find_last, is_whitespace, last_index_of, lemma_last_index_of, parse_u32, parsed_u32,
    str_before, str_between, string_of, string_of_range, text_before, text_between,
    unicode_whitespace,
};

verus! {

/// A season and episode marker such as `.S01E05`, in either case.
pub const SERIES_PATTERN: &'static str = r"(?i)[\.\s_\-]S(\d{1,2})E(\d{1,3})";

/// A year in parentheses, as in `Name (2024)`.
pub const YEAR_IN_PARENTHESES_PATTERN: &'static str = r"\((\d{4})\)";

/// A year between separators, as in `Name.2024.1080p`.
pub const YEAR_BETWEEN_SEPARATORS_PATTERN: &'static str = r"[\.\s_\-](\d{4})[\.\s_\-]";

/// A year at the end of the name, as in `Name 2024`.
pub const YEAR_AT_END_PATTERN: &'static str = r"[\.\s_\-](\d{4})$";

/// The first token that tells of quality, codec or source, with all that
/// follows it.
pub const QUALITY_PATTERN: &'static str =
    r"(?i)[\.\s_\-](1080p|720p|2160p|4K|BluRay|BRRip|HDRip|WEBRip|WEB[\-\.]?DL|DVDRip|HDTV|CAM|TS|HC|x264|x265|H\.?264|H\.?265|HEVC|AAC\d?\.?\d?|AC3|DTS|REMUX|PROPER|REPACK|EXTENDED|UNRATED|DIRECTORS\.?CUT|10bit|CUSTOM|MULTi|FRENCH|VOSTFR|SUBFRENCH|TRUEFRENCH|iNTERNAL|FiXED|AMZN|NF|DSNP|HMAX|ATVP|PCOK|WEBRiP).*$";

/// What a file name was read as.
#[derive(Debug, PartialEq, Eq)]
pub struct ParsedFilename {
    pub title: String,
    pub year: Option<u32>,
    /// Whether the name carries a season and episode marker.
    pub is_tv: bool,
    pub season: Option<u32>,
    pub episode: Option<u32>,
}

/// What a `ParsedFilename` holds, as mathematical values.
pub struct ParsedFilenameView {
    pub title: Seq<char>,
    pub year: Option<u32>,
    pub is_tv: bool,
    pub season: Option<u32>,
    pub episode: Option<u32>,
}

impl View for ParsedFilename {
    type V = ParsedFilenameView;

    open spec fn view(&self) -> ParsedFilenameView {
        ParsedFilenameView {
            title: self.title@,
            year: self.year,
            is_tv: self.is_tv,
            season: self.season,
            episode: self.episode,
        }
    }
}

/// Whether a character separates the words of a title.
pub open spec fn is_title_separator(c: char) -> bool {
    c == '.' || c == '_' || c == '-' || unicode_whitespace(c)
}

/// Whether the character at index `i` was marked as a separator.
pub open spec fn is_marked(separators: Seq<bool>, i: int) -> bool {
    0 <= i < separators.len() && separators[i]
}

/// The words of `raw`, which the characters marked in `separators` part,
/// joined by single spaces.
pub open spec fn joined_words(raw: Seq<char>, separators: Seq<bool>) -> Seq<char>
    decreases raw.len(),
{
    if raw.len() == 0 {
        Seq::empty()
    } else {
        let init = joined_words(raw.drop_last(), separators);
        let i = raw.len() - 1;
        if is_marked(separators, i) {
            init
        } else if init.len() == 0 || (i >= 1 && !is_marked(separators, i - 1)) {
            init.push(raw[i])
        } else {
            init.push(' ').push(raw[i])
        }
    }
}

/// For each character of `raw`, whether it separates the words of a title.
pub open spec fn title_separators(raw: Seq<char>) -> Seq<bool> {
    Seq::new(raw.len(), |i: int| is_title_separator(raw[i]))
}

/// The words of `raw`, which dots, underscores, hyphens and white space
/// separate, joined by single spaces.
pub open spec fn cleaned_title(raw: Seq<char>) -> Seq<char> {
    joined_words(raw, title_separators(raw))
}

/// Joins the words of `raw` by single spaces; `separators` marks the
/// characters that part the words, index by index.
pub fn join_words(raw: &Vec<char>, separators: &Vec<bool>) -> (r: String)
    ensures
        r@ == joined_words(raw@, separators@),
{
    let mut out = String::new();
    let mut i: usize = 0;
    assert(raw@.take(0) =~= Seq::empty());
    while i < raw.len()
        invariant
            i <= raw.len(),
            out@ == joined_words(raw@.take(i as int), separators@),
        decreases raw.len() - i,
    {
        assert(raw@.take(i + 1).drop_last() =~= raw@.take(i as int));
        assert(raw@.take(i + 1)[i as int] == raw@[i as int]);
        let marked = i < separators.len() && separators[i];
        if !marked {
            let after_word = i >= 1 && !(i - 1 < separators.len() && separators[i - 1]);
            if out.as_str().is_empty() || after_word {
                out.push(raw[i]);
            } else {
                out.push(' ');
                out.push(raw[i]);
            }
        }
        i = i + 1;
    }
    assert(raw@.take(raw@.len() as int) =~= raw@);
    out
}

/// Turns a raw title into words joined by single spaces.
pub fn clean_title(raw: &str) -> (r: String)
    ensures
        r@ == cleaned_title(raw@),
{
    let v = chars_of(raw);
    let mut separators: Vec<bool> = Vec::new();
    let mut i: usize = 0;
    while i < v.len()
        invariant
            i <= v.len(),
            separators.len() == i,
            forall|k: int| 0 <= k < i ==> separators@[k] == is_title_separator(v@[k]),
        decreases v.len() - i,
    {
        let c = v[i];
        separators.push(c == '.' || c == '_' || c == '-' || is_whitespace(c));
        i = i + 1;
    }
    assert(separators@ =~= title_separators(v@));
    join_words(&v, &separators)
}

/// The byte ranges of the capture groups of the first match of `pattern` in
/// `haystack`, group 0 being the whole match; `None` when nothing matches or
/// `pattern` is no regular expression.
pub uninterp spec fn regex_captures(pattern: Seq<char>, haystack: Seq<char>) -> Option<
    Seq<Option<(usize, usize)>>,
>;

/// `regex::Regex::new` on `pattern`, then `Regex::captures` on `haystack`:
/// for each capture group of the first match, the byte offsets at which it
/// starts and ends, or `None` where the group took no part. The result is
/// `None` when there is no match and when the pattern does not compile.
#[verifier::external_body]
pub(crate) fn captures(pattern: &str, haystack: &str) -> (r: Option<Vec<Option<(usize, usize)>>>)
    ensures
        match r {
            Some(groups) => regex_captures(pattern@, haystack@) == Some(groups@),
            None => regex_captures(pattern@, haystack@) is None,
        },
{
    let re = match regex::Regex::new(pattern) {
        Ok(re) => re,
        Err(_) => return None,
    };
    let caps = re.captures(haystack)?;
    Some((0..caps.len()).map(|i| caps.get(i).map(|m| (m.start(), m.end()))).collect())
}

/// The name without its extension: what stands before the last dot.
pub open spec fn stem_of(filename: Seq<char>) -> Seq<char> {
    let dot = last_index_of(filename, '.', '.');
    if dot < 0 {
        filename
    } else {
        filename.take(dot)
    }
}

/// The name without its extension.
pub fn stem(filename: &str) -> (r: String)
    ensures
        r@ == stem_of(filename@),
{
    let v = chars_of(filename);
    let found = find_last(&v, '.', '.');
    proof {
        lemma_last_index_of(v@, '.', '.');
    }
    match found {
        Some(dot) => {
            let r = string_of_range(&v, 0, dot);
            assert(v@.subrange(0, dot as int) == v@.take(dot as int));
            r
        },
        None => string_of(&v),
    }
}

/// The range of capture group `i`, if the group is there and took part.
pub open spec fn group_at(groups: Seq<Option<(usize, usize)>>, i: int) -> Option<(usize, usize)> {
    if 0 <= i < groups.len() {
        groups[i]
    } else {
        None
    }
}

/// The number that capture group `i` holds.
pub open spec fn group_number(name: Seq<char>, groups: Seq<Option<(usize, usize)>>, i: int)
    -> Option<u32> {
    match group_at(groups, i) {
        Some(span) => match text_between(name, span.0 as int, span.1 as int) {
            Some(t) => parsed_u32(t),
            None => None,
        },
        None => None,
    }
}

/// What stands in `name` before capture group `i`; all of `name` where the
/// group gives no place to cut.
pub open spec fn title_before_group(name: Seq<char>, groups: Seq<Option<(usize, usize)>>, i: int)
    -> Seq<char> {
    match group_at(groups, i) {
        Some(span) => title_before(name, Some(span.0)),
        None => name,
    }
}

/// What stands in `name` before the byte offset `end`; all of `name` where
/// there is no such place.
pub open spec fn title_before(name: Seq<char>, end: Option<usize>) -> Seq<char> {
    match end {
        Some(e) => match text_before(name, e as int) {
            Some(t) => t,
            None => name,
        },
        None => name,
    }
}

fn number_in(name: &str, groups: &Vec<Option<(usize, usize)>>, i: usize) -> (r: Option<u32>)
    ensures
        r == group_number(name@, groups@, i as int),
{
    if i >= groups.len() {
        return None;
    }
    match groups[i] {
        Some(span) => match str_between(name, span.0, span.1) {
            Some(t) => parse_u32(t),
            None => None,
        },
        None => None,
    }
}

fn raw_title_before<'a>(name: &'a str, end: Option<usize>) -> (r: &'a str)
    ensures
        r@ == title_before(name@, end),
{
    match end {
        Some(e) => match str_before(name, e) {
            Some(t) => t,
            None => name,
        },
        None => name,
    }
}

fn start_of(groups: &Vec<Option<(usize, usize)>>, i: usize) -> (r: Option<usize>)
    ensures
        r == match group_at(groups@, i as int) {
            Some(span) => Some(span.0),
            None => None,
        },
{
    if i >= groups.len() {
        return None;
    }
    match groups[i] {
        Some(span) => Some(span.0),
        None => None,
    }
}

/// How a name with a season and episode marker reads: the title is what
/// stands before the marker, the numbers are the marker's two groups.
pub open spec fn series_from(name: Seq<char>, groups: Seq<Option<(usize, usize)>>)
    -> ParsedFilenameView {
    ParsedFilenameView {
        title: cleaned_title(title_before_group(name, groups, 0)),
        year: None,
        is_tv: true,
        season: group_number(name, groups, 1),
        episode: group_number(name, groups, 2),
    }
}

/// Reads a name in which the series pattern matched with `groups`.
pub fn parse_series(name: &str, groups: &Vec<Option<(usize, usize)>>) -> (r: ParsedFilename)
    ensures
        r@ == series_from(name@, groups@),
{
    let raw = raw_title_before(name, start_of(groups, 0));
    ParsedFilename {
        title: clean_title(raw),
        year: None,
        is_tv: true,
        season: number_in(name, groups, 1),
        episode: number_in(name, groups, 2),
    }
}

/// A year found in a name, and the byte offset at which the title ends.
#[derive(Clone, Copy, Debug, PartialEq, Eq, Structural)]
pub struct YearMatch {
    pub year: u32,
    pub title_end: Option<usize>,
}

/// The year that a match of one of the year patterns gives: the number in
/// group 1, if it lies between 1900 and 2100; the title then ends where group
/// `end_group` starts.
pub open spec fn year_from(
    name: Seq<char>,
    groups: Option<Seq<Option<(usize, usize)>>>,
    end_group: int,
) -> Option<YearMatch> {
    match groups {
        None => None,
        Some(g) => match group_number(name, g, 1) {
            Some(y) => if 1900 <= y <= 2100 {
                Some(
                    YearMatch {
                        year: y,
                        title_end: match group_at(g, end_group) {
                            Some(span) => Some(span.0),
                            None => None,
                        },
                    },
                )
            } else {
                None
            },
            None => None,
        },
    }
}

/// Reads the year out of a match of one of the year patterns.
pub fn year_from_match(
    name: &str,
    groups: &Option<Vec<Option<(usize, usize)>>>,
    end_group: usize,
) -> (r: Option<YearMatch>)
    ensures
        r == year_from(
            name@,
            match groups {
                Some(g) => Some(g@),
                None => None,
            },
            end_group as int,
        ),
{
    match groups {
        None => None,
        Some(g) => match number_in(name, g, 1) {
            Some(y) => if 1900 <= y && y <= 2100 {
                Some(YearMatch { year: y, title_end: start_of(g, end_group) })
            } else {
                None
            },
            None => None,
        },
    }
}

/// How a name without a series marker reads. With a year, the title is what
/// stands before it; without one, or where the year gives no place to cut,
/// what stands before the first quality token.
pub open spec fn movie_from(
    name: Seq<char>,
    year: Option<YearMatch>,
    quality: Option<Seq<Option<(usize, usize)>>>,
) -> ParsedFilenameView {
    let cut = match year {
        Some(m) => m.title_end,
        None => None,
    };
    let raw = match cut {
        Some(end) => title_before(name, Some(end)),
        None => match quality {
            Some(g) => title_before_group(name, g, 0),
            None => name,
        },
    };
    ParsedFilenameView {
        title: cleaned_title(raw),
        year: match year {
            Some(m) => Some(m.year),
            None => None,
        },
        is_tv: false,
        season: None,
        episode: None,
    }
}

/// Reads a name without a series marker, given the year found in it and the
/// match of the quality pattern.
pub fn parse_movie(
    name: &str,
    year: Option<YearMatch>,
    quality: &Option<Vec<Option<(usize, usize)>>>,
) -> (r: ParsedFilename)
    ensures
        r@ == movie_from(
            name@,
            year,
            match quality {
                Some(g) => Some(g@),
                None => None,
            },
        ),
{
    let cut = match year {
        Some(m) => m.title_end,
        None => None,
    };
    let raw = match cut {
        Some(end) => raw_title_before(name, Some(end)),
        None => match quality {
            Some(g) => raw_title_before(name, start_of(g, 0)),
            None => name,
        },
    };
    ParsedFilename {
        title: clean_title(raw),
        year: match year {
            Some(m) => Some(m.year),
            None => None,
        },
        is_tv: false,
        season: None,
        episode: None,
    }
}

/// The year of a name: from the year in parentheses first, then from the
/// year between separators, then from the year at the end.
pub open spec fn year_of(name: Seq<char>) -> Option<YearMatch> {
    match year_from(name, regex_captures(YEAR_IN_PARENTHESES_PATTERN@, name), 0) {
        Some(m) => Some(m),
        None => match year_from(name, regex_captures(YEAR_BETWEEN_SEPARATORS_PATTERN@, name), 1) {
            Some(m) => Some(m),
            None => year_from(name, regex_captures(YEAR_AT_END_PATTERN@, name), 1),
        },
    }
}

/// How a file name reads: as a series if its stem carries a season and
/// episode marker, as a film otherwise.
pub open spec fn parsed(filename: Seq<char>) -> ParsedFilenameView {
    let name = stem_of(filename);
    match regex_captures(SERIES_PATTERN@, name) {
        Some(groups) => series_from(name, groups),
        None => movie_from(name, year_of(name), regex_captures(QUALITY_PATTERN@, name)),
    }
}

/// Reads a video file's name.
pub fn parse_filename(filename: &str) -> (r: ParsedFilename)
    ensures
        r@ == parsed(filename@),
{
    let stem = stem(filename);
    let name = stem.as_str();
    match captures(SERIES_PATTERN, name) {
        Some(groups) => parse_series(name, &groups),
        None => {
            let in_parentheses = captures(YEAR_IN_PARENTHESES_PATTERN, name);
            let mut year = year_from_match(name, &in_parentheses, 0);
            if year.is_none() {
                let between = captures(YEAR_BETWEEN_SEPARATORS_PATTERN, name);
                year = year_from_match(name, &between, 1);
            }
            if year.is_none() {
                let at_end = captures(YEAR_AT_END_PATTERN, name);
                year = year_from_match(name, &at_end, 1);
            }
            let cut = match year {
                Some(m) => m.title_end,
                None => None,
            };
            let quality = if cut.is_none() {
                captures(QUALITY_PATTERN, name)
            } else {
                None
            };
            parse_movie(name, year, &quality)
        },
    }
}

} // verus!
