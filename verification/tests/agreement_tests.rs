//! The library's text functions against the standard library and the regex
//! crate used directly, over generated inputs.

use popcorn_hero::changes::{merge_changes, ChangeKind, PendingChange};
use popcorn_hero::filename::{clean_title, parse_filename, stem};
use popcorn_hero::media::{display_name, extension, normalize_path, MediaEntry};
use popcorn_hero::metadata::urlencoded;
use popcorn_hero::store::sort_dedup_by_path;
use popcorn_hero::text::{parse_u32, remove_all, split, str_eq, str_lt, trim};
use regex::Regex;
use std::collections::HashMap;
use std::path::Path;

/// A small deterministic generator.
struct Gen(u64);

impl Gen {
    fn next(&mut self) -> u64 {
        self.0 = self.0.wrapping_mul(6364136223846793005).wrapping_add(1442695040888963407);
        self.0 >> 33
    }

    fn below(&mut self, n: usize) -> usize {
        (self.next() % n as u64) as usize
    }

    fn text(&mut self, alphabet: &[&str], max_len: usize) -> String {
        let len = self.below(max_len + 1);
        (0..len).map(|_| alphabet[self.below(alphabet.len())]).collect()
    }
}

const NAME_PARTS: &[&str] = &[
    "Movie", "Name", "the", "S01E05", "s1e2", "S12E123", "S1", "E5", "2024", "1999", "1899", "2100",
    "2101", "(2024)", "(1999)", "(20245)", "1080p", "720p", "x264", "BluRay", "WEB-DL", "WEB.DL",
    "HEVC", "TS", "NF", "H.264", "AAC2.0", ".", ".", " ", "_", "-", "(", ")", "é", "日本", "\t",
    "\u{00a0}", "mkv", "mp4", "٢٠٢٤", "S٠١E٠٥", "",
];

fn parse_with_regex_directly(filename: &str) -> (String, Option<u32>, bool, Option<u32>, Option<u32>) {
    let name = filename.rsplit_once('.').map(|(name, _ext)| name).unwrap_or(filename);
    let clean = |raw: &str| -> String {
        raw.replace('.', " ")
            .replace('_', " ")
            .replace('-', " ")
            .split_whitespace()
            .collect::<Vec<&str>>()
            .join(" ")
            .trim()
            .to_string()
    };
    let tv_re = Regex::new(r"(?i)[\.\s_\-]S(\d{1,2})E(\d{1,3})").unwrap();
    if let Some(caps) = tv_re.captures(name) {
        let season = caps[1].parse().ok();
        let episode = caps[2].parse().ok();
        let end = caps.get(0).map(|m| m.start()).unwrap();
        return (clean(&name[..end]), None, true, season, episode);
    }
    let year_paren_re = Regex::new(r"\((\d{4})\)").unwrap();
    let year_sep_re = Regex::new(r"[\.\s_\-](\d{4})[\.\s_\-]").unwrap();
    let year_end_re = Regex::new(r"[\.\s_\-](\d{4})$").unwrap();
    let mut year: Option<u32> = None;
    let mut title_end: Option<usize> = None;
    if let Some(caps) = year_paren_re.captures(name) {
        let y: u32 = caps[1].parse().unwrap_or(0);
        if (1900..=2100).contains(&y) {
            year = Some(y);
            title_end = caps.get(0).map(|m| m.start());
        }
    }
    if year.is_none() {
        if let Some(caps) = year_sep_re.captures(name) {
            let y: u32 = caps[1].parse().unwrap_or(0);
            if (1900..=2100).contains(&y) {
                year = Some(y);
                title_end = caps.get(1).map(|m| m.start());
            }
        }
    }
    if year.is_none() {
        if let Some(caps) = year_end_re.captures(name) {
            let y: u32 = caps[1].parse().unwrap_or(0);
            if (1900..=2100).contains(&y) {
                year = Some(y);
                title_end = caps.get(1).map(|m| m.start());
            }
        }
    }
    let title_raw = if let Some(end) = title_end {
        &name[..end]
    } else {
        let quality_re = Regex::new(r"(?i)[\.\s_\-](1080p|720p|2160p|4K|BluRay|BRRip|HDRip|WEBRip|WEB[\-\.]?DL|DVDRip|HDTV|CAM|TS|HC|x264|x265|H\.?264|H\.?265|HEVC|AAC\d?\.?\d?|AC3|DTS|REMUX|PROPER|REPACK|EXTENDED|UNRATED|DIRECTORS\.?CUT|10bit|CUSTOM|MULTi|FRENCH|VOSTFR|SUBFRENCH|TRUEFRENCH|iNTERNAL|FiXED|AMZN|NF|DSNP|HMAX|ATVP|PCOK|WEBRiP).*$").unwrap();
        if let Some(m) = quality_re.find(name) {
            &name[..m.start()]
        } else {
            name
        }
    };
    (clean(title_raw), year, false, None, None)
}

fn compare_generated_names(seed: u64, count: usize, max_parts: usize) {
    let mut g = Gen(seed);
    for _ in 0..count {
        let name = g.text(NAME_PARTS, max_parts);
        let p = parse_filename(&name);
        let want = parse_with_regex_directly(&name);
        assert_eq!((p.title, p.year, p.is_tv, p.season, p.episode), want, "for {:?}", name);
    }
}

#[test]
fn parse_filename_agrees_with_regex_used_directly() {
    compare_generated_names(1, 40, 8);
}

#[test]
fn parse_filename_agrees_with_regex_used_directly_on_short_names() {
    compare_generated_names(11, 40, 4);
}

#[test]
fn parse_filename_agrees_with_regex_used_directly_on_long_names() {
    compare_generated_names(12, 40, 12);
}

#[test]
fn parse_filename_agrees_with_regex_used_directly_on_more_names() {
    compare_generated_names(13, 40, 6);
}

#[test]
fn parse_filename_agrees_on_everyday_names() {
    for name in [
        "Movie.Name.2024.1080p.BluRay.x264.mkv",
        "Movie Name (2024).mp4",
        "Movie_Name_2024_720p.mkv",
        "Series.Name.S01E05.1080p.WEB-DL.mkv",
        "Series.Name.S02E10.CUSTOM.MULTi.1080p.mkv",
        "2001.A.Space.Odyssey.1968.mkv",
        "1917.2019.mkv",
        "2012.mkv",
        "The.Movie.4K.HDR.mkv",
        "Amélie (2001) [1080p].mkv",
        "show - s01e02 - title.avi",
        ".hidden",
        "noextension",
        "",
        ".",
        "..",
        "a.",
    ] {
        let p = parse_filename(name);
        let want = parse_with_regex_directly(name);
        assert_eq!((p.title, p.year, p.is_tv, p.season, p.episode), want, "for {:?}", name);
    }
}

const TEXT_PARTS: &[&str] = &[
    "a", "b", "Z", "0", "9", " ", "  ", ".", "_", "-", "~", ",", ", ", " min", "min", "m", "\t", "\n",
    "\u{00a0}", "\u{2003}", "\u{2028}", "é", "€", "😀", "&", "=", "+", "#", "?", "/", "\\", "%", "\u{0}",
    "\u{7f}", "ß", "İ", "Σ",
];

#[test]
fn clean_title_agrees_with_split_whitespace() {
    let mut g = Gen(2);
    for _ in 0..3000 {
        let s = g.text(TEXT_PARTS, 10);
        let want = s
            .replace('.', " ")
            .replace('_', " ")
            .replace('-', " ")
            .split_whitespace()
            .collect::<Vec<&str>>()
            .join(" ");
        assert_eq!(clean_title(&s), want, "for {:?}", s);
    }
}

#[test]
fn stem_agrees_with_rsplit_once() {
    let mut g = Gen(3);
    for _ in 0..2000 {
        let s = g.text(TEXT_PARTS, 8);
        let want = s.rsplit_once('.').map(|(name, _)| name).unwrap_or(&s);
        assert_eq!(stem(&s), want, "for {:?}", s);
    }
}

#[test]
fn urlencoded_agrees_with_formatting() {
    let mut g = Gen(4);
    for _ in 0..2000 {
        let s = g.text(TEXT_PARTS, 10);
        let want: String = s
            .chars()
            .map(|c| match c {
                ' ' => "%20".to_string(),
                '&' => "%26".to_string(),
                '=' => "%3D".to_string(),
                '+' => "%2B".to_string(),
                '#' => "%23".to_string(),
                '?' => "%3F".to_string(),
                _ if c.is_ascii_alphanumeric() || c == '-' || c == '_' || c == '.' || c == '~' => {
                    c.to_string()
                }
                _ => format!("%{:02X}", c as u32),
            })
            .collect();
        assert_eq!(urlencoded(&s), want, "for {:?}", s);
    }
}

#[test]
fn text_functions_agree_with_std() {
    let mut g = Gen(5);
    for _ in 0..3000 {
        let s = g.text(TEXT_PARTS, 10);
        let t = g.text(TEXT_PARTS, 10);
        assert_eq!(trim(&s), s.trim(), "for {:?}", s);
        assert_eq!(remove_all(&s, " min"), s.replace(" min", ""), "for {:?}", s);
        assert_eq!(remove_all(&s, ","), s.replace(',', ""), "for {:?}", s);
        let want: Vec<String> = s.split(", ").map(String::from).collect();
        assert_eq!(split(&s, ", "), want, "for {:?}", s);
        assert_eq!(normalize_path(&s), s.replace('\\', "/"), "for {:?}", s);
        assert_eq!(str_eq(&s, &t), s == t);
        assert_eq!(str_lt(&s, &t), s < t, "for {:?} and {:?}", s, t);
        assert!(!str_lt(&s, &s));
    }
}

#[test]
fn numbers_agree_with_std() {
    let parts = ["0", "1", "9", "4", "2", "+", "-", " ", "a", "٣", "", "00", "429496729"];
    let mut g = Gen(6);
    for _ in 0..3000 {
        let s = g.text(&parts, 5);
        assert_eq!(parse_u32(&s), s.parse::<u32>().ok(), "for {:?}", s);
    }
}

#[test]
fn path_functions_agree_with_std_on_slash_paths() {
    let parts = ["a", "b", "mkv", "MP4", ".", ".", "/", "/", "é", "x y", "_"];
    let mut g = Gen(7);
    for _ in 0..3000 {
        let s = g.text(&parts, 8);
        // the standard library drops trailing separators and reads `.` and `..` as
        // directories; file paths do not look like that
        if s.is_empty() || s.ends_with('/') || s.ends_with("/.") || s.ends_with("/..") || s == "." || s == ".." {
            continue;
        }
        let path = Path::new(&s);
        let name = path.file_name().and_then(|n| n.to_str()).unwrap_or("unknown");
        assert_eq!(display_name(&s), name, "for {:?}", s);
        let ext = path.extension().and_then(|e| e.to_str()).map(String::from);
        assert_eq!(extension(&s), ext, "for {:?}", s);
    }
}

fn entry(id: usize, path: &str) -> MediaEntry {
    MediaEntry {
        id: id.to_string(),
        path: path.to_string(),
        filename: String::new(),
        extension: String::new(),
        size_bytes: id as u64,
    }
}

#[test]
fn sort_dedup_agrees_with_stable_sort_and_dedup() {
    let parts = ["a", "b", "B", "/", "é", "z", "0"];
    let mut g = Gen(8);
    for _ in 0..500 {
        let n = g.below(12);
        let paths: Vec<String> = (0..n).map(|_| g.text(&parts, 3)).collect();
        let entries: Vec<MediaEntry> = paths.iter().enumerate().map(|(i, p)| entry(i, p)).collect();
        let mut want: Vec<MediaEntry> = paths.iter().enumerate().map(|(i, p)| entry(i, p)).collect();
        want.sort_by(|a, b| a.path.cmp(&b.path));
        want.dedup_by(|a, b| a.path == b.path);
        assert_eq!(sort_dedup_by_path(entries), want);
    }
}

fn merge_with_a_map(changes: &[PendingChange]) -> HashMap<String, ChangeKind> {
    let mut map: HashMap<String, ChangeKind> = HashMap::new();
    for c in changes {
        map.entry(c.path.clone())
            .and_modify(|existing| match (&existing, &c.kind) {
                (ChangeKind::Added, ChangeKind::Modified) => {}
                (ChangeKind::Added, ChangeKind::Removed) => *existing = ChangeKind::Removed,
                (ChangeKind::Modified, ChangeKind::Added) => *existing = ChangeKind::Added,
                (ChangeKind::Modified, ChangeKind::Removed) => *existing = ChangeKind::Removed,
                (ChangeKind::Removed, ChangeKind::Added) => *existing = ChangeKind::Added,
                _ => {}
            })
            .or_insert(c.kind);
    }
    map
}

#[test]
fn merge_agrees_with_merging_in_a_map() {
    let kinds = [ChangeKind::Added, ChangeKind::Modified, ChangeKind::Removed];
    let mut g = Gen(9);
    for _ in 0..1000 {
        let n = g.below(10);
        let changes: Vec<PendingChange> = (0..n)
            .map(|_| PendingChange { path: format!("/m/{}.mkv", g.below(4)), kind: kinds[g.below(3)] })
            .collect();
        let net = merge_changes(&changes);
        let want = merge_with_a_map(&changes);
        assert_eq!(net.len(), want.len());
        for c in &net {
            assert_eq!(want.get(&c.path), Some(&c.kind));
        }
        // in order of first arrival
        let mut firsts: Vec<&str> = Vec::new();
        for c in &changes {
            if !firsts.contains(&c.path.as_str()) {
                firsts.push(&c.path);
            }
        }
        let got: Vec<&str> = net.iter().map(|c| c.path.as_str()).collect();
        assert_eq!(got, firsts);
    }
}
