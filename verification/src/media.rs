//! Catalogue entries, settings and the rules that decide which files belong
//! to the library.

use vstd::prelude::*;
use crate::store::{is_scan_of, scan_library};
use crate::text::{
    chars_of, find_last, last_index_of, lemma_last_index_of, lowercase, replace_char, replaced,
    str_eq, string_of_range, to_lowercase,
};

verus! {

/// The list of directories to scan.
#[derive(Debug, PartialEq, Eq)]
pub struct MediaConfig {
    pub folders: Vec<String>,
}

/// One tracked video file.
#[derive(Debug, PartialEq, Eq)]
pub struct MediaEntry {
    pub id: String,
    pub path: String,
    pub filename: String,
    pub extension: String,
    pub size_bytes: u64,
}

/// What a `MediaEntry` holds, as mathematical values.
pub struct MediaEntryView {
    pub id: Seq<char>,
    pub path: Seq<char>,
    pub filename: Seq<char>,
    pub extension: Seq<char>,
    pub size_bytes: u64,
}

impl View for MediaEntry {
    type V = MediaEntryView;

    open spec fn view(&self) -> MediaEntryView {
        MediaEntryView {
            id: self.id@,
            path: self.path@,
            filename: self.filename@,
            extension: self.extension@,
            size_bytes: self.size_bytes,
        }
    }
}

impl DeepView for MediaEntry {
    type V = MediaEntryView;

    open spec fn deep_view(&self) -> MediaEntryView {
        self@
    }
}

impl Clone for MediaEntry {
    fn clone(&self) -> (r: Self)
        ensures
            r == *self,
    {
        MediaEntry {
            id: self.id.clone(),
            path: self.path.clone(),
            filename: self.filename.clone(),
            extension: self.extension.clone(),
            size_bytes: self.size_bytes,
        }
    }
}

/// The outcome of a scan.
#[derive(Debug, PartialEq, Eq)]
pub struct ScanResult {
    pub total_found: usize,
    pub media_entries: Vec<MediaEntry>,
}

/// One metadata provider as the user configured it.
#[derive(Debug, PartialEq, Eq)]
pub struct MetadataProviderConfig {
    pub id: String,
    pub name: String,
    pub enabled: bool,
    pub api_key: String,
}

/// What a `MetadataProviderConfig` holds, as mathematical values.
pub struct MetadataProviderConfigView {
    pub id: Seq<char>,
    pub name: Seq<char>,
    pub enabled: bool,
    pub api_key: Seq<char>,
}

impl View for MetadataProviderConfig {
    type V = MetadataProviderConfigView;

    open spec fn view(&self) -> MetadataProviderConfigView {
        MetadataProviderConfigView {
            id: self.id@,
            name: self.name@,
            enabled: self.enabled,
            api_key: self.api_key@,
        }
    }
}

impl DeepView for MetadataProviderConfig {
    type V = MetadataProviderConfigView;

    open spec fn deep_view(&self) -> MetadataProviderConfigView {
        self@
    }
}

impl Clone for MetadataProviderConfig {
    fn clone(&self) -> (r: Self)
        ensures
            r == *self,
    {
        MetadataProviderConfig {
            id: self.id.clone(),
            name: self.name.clone(),
            enabled: self.enabled,
            api_key: self.api_key.clone(),
        }
    }
}

/// Everything the user can configure.
#[derive(Debug, PartialEq, Eq)]
pub struct Settings {
    pub media: MediaConfig,
    pub scan_on_startup: bool,
    pub live_scan: bool,
    pub metadata_providers: Vec<MetadataProviderConfig>,
    /// How many months a provider's record stays fresh (used clamped to 1..=6).
    pub metadata_cache_months: u32,
}

/// The providers of a new installation, in trial order.
pub open spec fn default_providers() -> Seq<MetadataProviderConfigView> {
    seq![
        MetadataProviderConfigView {
            id: "tmdb"@,
            name: "The Movie Database (TMDB)"@,
            enabled: true,
            api_key: Seq::empty(),
        },
        MetadataProviderConfigView {
            id: "omdb"@,
            name: "Open Movie Database (OMDb)"@,
            enabled: false,
            api_key: Seq::empty(),
        },
    ]
}

/// The providers of a new installation: TMDB, enabled, then OMDb, disabled.
pub fn default_metadata_providers() -> (r: Vec<MetadataProviderConfig>)
    ensures
        r.deep_view() == default_providers(),
{
    let mut v: Vec<MetadataProviderConfig> = Vec::new();
    v.push(
        MetadataProviderConfig {
            id: "tmdb".to_owned(),
            name: "The Movie Database (TMDB)".to_owned(),
            enabled: true,
            api_key: String::new(),
        },
    );
    v.push(
        MetadataProviderConfig {
            id: "omdb".to_owned(),
            name: "Open Movie Database (OMDb)".to_owned(),
            enabled: false,
            api_key: String::new(),
        },
    );
    assert(v.deep_view() =~= default_providers());
    v
}

/// The default of the settings that are switches: on.
pub fn default_true() -> (r: bool)
    ensures
        r,
{
    true
}

/// The default horizon of the metadata cache: one month.
pub fn default_cache_months() -> (r: u32)
    ensures
        r == 1,
{
    1
}

impl Default for MediaConfig {
    fn default() -> (r: Self)
        ensures
            r.folders@.len() == 0,
    {
        MediaConfig { folders: Vec::new() }
    }
}

impl Default for Settings {
    fn default() -> (r: Self)
        ensures
            r.media.folders@.len() == 0,
            r.scan_on_startup,
            r.live_scan,
            r.metadata_providers.deep_view() == default_providers(),
            r.metadata_cache_months == 1,
    {
        Settings {
            media: MediaConfig { folders: Vec::new() },
            scan_on_startup: default_true(),
            live_scan: default_true(),
            metadata_providers: default_metadata_providers(),
            metadata_cache_months: default_cache_months(),
        }
    }
}

/// The extensions of the video files that the library tracks, in lower case.
pub const VIDEO_EXTENSIONS: [&'static str; 19] = [
    "mp4", "mkv", "avi", "mov", "wmv", "flv", "webm", "m4v", "mpg", "mpeg", "ts", "vob", "3gp",
    "ogv", "divx", "asf", "m2ts", "mts", "rmvb",
];

/// Whether `ext`, already in lower case, is one of the video file extensions
/// that the library tracks.
pub open spec fn is_video_extension_text(ext: Seq<char>) -> bool {
    exists|i: int| 0 <= i < VIDEO_EXTENSIONS@.len() && (#[trigger] VIDEO_EXTENSIONS@[i])@ == ext
}

/// Whether `ext`, already in lower case, is a video file extension.
pub fn is_video_extension(ext: &str) -> (r: bool)
    ensures
        r == is_video_extension_text(ext@),
{
    let mut i: usize = 0;
    while i < VIDEO_EXTENSIONS.len()
        invariant
            i <= VIDEO_EXTENSIONS@.len(),
            forall|k: int| 0 <= k < i ==> (#[trigger] VIDEO_EXTENSIONS@[k])@ != ext@,
        decreases VIDEO_EXTENSIONS@.len() - i,
    {
        if str_eq(VIDEO_EXTENSIONS[i], ext) {
            return true;
        }
        i = i + 1;
    }
    false
}

/// The last component of a path: what follows its last `/` or `\`.
pub open spec fn file_name_of(path: Seq<char>) -> Seq<char> {
    path.skip(last_index_of(path, '/', '\\') + 1)
}

/// The extension of a path: what follows the last `.` of its file name.
/// A file name without a `.`, or whose only `.` is its first character, has
/// none.
pub open spec fn extension_of(path: Seq<char>) -> Option<Seq<char>> {
    let name = file_name_of(path);
    let dot = last_index_of(name, '.', '.');
    if dot <= 0 {
        None
    } else {
        Some(name.skip(dot + 1))
    }
}

/// The name under which a path is shown: its file name, or `unknown` when the
/// path ends in a separator or is empty.
pub open spec fn display_name_of(path: Seq<char>) -> Seq<char> {
    if file_name_of(path).len() == 0 {
        "unknown"@
    } else {
        file_name_of(path)
    }
}

/// A path as the library stores it: with `/` for every `\`.
pub open spec fn normalized_path(path: Seq<char>) -> Seq<char> {
    replaced(path, '\\', '/')
}

/// The path with forward slashes only.
pub fn normalize_path(path: &str) -> (r: String)
    ensures
        r@ == normalized_path(path@),
{
    replace_char(path, '\\', '/')
}

/// The name under which a path is shown in notifications and in the library.
pub fn display_name(path: &str) -> (r: String)
    ensures
        r@ == display_name_of(path@),
{
    let v = chars_of(path);
    let found = find_last(&v, '/', '\\');
    proof {
        lemma_last_index_of(v@, '/', '\\');
    }
    let start: usize = match found {
        Some(i) => {
            assert(i < v.len());
            i + 1
        },
        None => 0,
    };
    assert(start == last_index_of(v@, '/', '\\') + 1);
    if start == v.len() {
        "unknown".to_owned()
    } else {
        let r = string_of_range(&v, start, v.len());
        assert(v@.subrange(start as int, v@.len() as int) == v@.skip(start as int));
        r
    }
}

/// The extension of a path, as written.
pub fn extension(path: &str) -> (r: Option<String>)
    ensures
        r.deep_view() == extension_of(path@),
{
    let v = chars_of(path);
    let found = find_last(&v, '/', '\\');
    proof {
        lemma_last_index_of(v@, '/', '\\');
    }
    let start: usize = match found {
        Some(i) => {
            assert(i < v.len());
            i + 1
        },
        None => 0,
    };
    assert(start == last_index_of(v@, '/', '\\') + 1);
    let ghost name = file_name_of(path@);
    assert(name == v@.skip(start as int));
    // the last dot of the file name is the last dot of the path, if it lies in the name
    let mut k: usize = v.len();
    assert(name.take(k - start) =~= name);
    while k > start
        invariant
            start <= k <= v.len(),
            name == v@.skip(start as int),
            name == file_name_of(path@),
            last_index_of(name, '.', '.') == last_index_of(name.take(k - start), '.', '.'),
        decreases k,
    {
        assert(name.take(k - start).last() == v@[k - 1]);
        assert(name.take(k - start).drop_last() =~= name.take(k - 1 - start));
        if v[k - 1] == '.' {
            assert(last_index_of(name, '.', '.') == k - 1 - start);
            if k - 1 == start {
                return None;
            }
            let r = string_of_range(&v, k, v.len());
            assert(v@.subrange(k as int, v@.len() as int) == name.skip(k - 1 - start + 1));
            return Some(r);
        }
        k = k - 1;
    }
    None
}

/// The entry that stands for the file at `path`, if its extension, in lower
/// case, is a video extension.
pub open spec fn entry_for(path: Seq<char>, size_bytes: u64, id: Seq<char>) -> Option<
    MediaEntryView,
> {
    match extension_of(path) {
        None => None,
        Some(ext) => if is_video_extension_text(lowercase(ext)) {
            Some(
                MediaEntryView {
                    id: id,
                    path: normalized_path(path),
                    filename: display_name_of(path),
                    extension: lowercase(ext),
                    size_bytes: size_bytes,
                },
            )
        } else {
            None
        },
    }
}

/// Builds the entry for the file at `path` under the identifier `id`.
pub fn entry_with_id(path: &str, size_bytes: u64, id: String) -> (r: Option<MediaEntry>)
    ensures
        r.deep_view() == entry_for(path@, size_bytes, id@),
{
    match extension(path) {
        None => None,
        Some(ext) => {
            let lower = to_lowercase(ext.as_str());
            if is_video_extension(lower.as_str()) {
                Some(
                    MediaEntry {
                        id: id,
                        path: normalize_path(path),
                        filename: display_name(path),
                        extension: lower,
                        size_bytes: size_bytes,
                    },
                )
            } else {
                None
            }
        },
    }
}

/// `uuid::Uuid::new_v4` followed by the identifier's `to_string`: a random
/// identifier in its hyphenated form, which is 36 characters long.
#[verifier::external_body]
pub(crate) fn fresh_id() -> (r: String)
    ensures
        r@.len() == 36,
{
    uuid::Uuid::new_v4().to_string()
}

/// Builds the entry for what stands at `path` under a fresh identifier.
/// `is_file` says whether a regular file stands there; `size_bytes` is its
/// size, 0 where it could not be read.
pub fn entry_from_path(path: &str, is_file: bool, size_bytes: u64) -> (r: Option<MediaEntry>)
    ensures
        match r {
            Some(e) => is_file && e.id@.len() == 36 && entry_for(path@, size_bytes, e.id@) == Some(
                e@,
            ),
            None => !is_file || entry_for(path@, size_bytes, Seq::empty()) is None,
        },
{
    if !is_file {
        return None;
    }
    let id = fresh_id();
    entry_with_id(path, size_bytes, id)
}

/// Why a change to the folder list was refused.
#[derive(Clone, Copy, Debug, PartialEq, Eq, Structural)]
pub enum FolderError {
    /// The folder is in the list already.
    AlreadyListed,
    /// No directory stands at the path.
    NotADirectory,
    /// The folder is not in the list.
    NotListed,
}

impl FolderError {
    /// The message shown to the user.
    pub open spec fn message_text(self) -> Seq<char> {
        match self {
            FolderError::AlreadyListed => "This folder is already in the list."@,
            FolderError::NotADirectory => "The specified folder does not exist."@,
            FolderError::NotListed => "Folder not found in configuration."@,
        }
    }

    /// The message shown to the user.
    pub fn message(&self) -> (r: String)
        ensures
            r@ == self.message_text(),
    {
        match self {
            FolderError::AlreadyListed => "This folder is already in the list.".to_owned(),
            FolderError::NotADirectory => "The specified folder does not exist.".to_owned(),
            FolderError::NotListed => "Folder not found in configuration.".to_owned(),
        }
    }
}

/// `folders` without every occurrence of `folder`.
pub open spec fn without_folder(folders: Seq<Seq<char>>, folder: Seq<char>) -> Seq<Seq<char>>
    decreases folders.len(),
{
    if folders.len() == 0 {
        folders
    } else {
        let init = without_folder(folders.drop_last(), folder);
        if folders.last() == folder {
            init
        } else {
            init.push(folders.last())
        }
    }
}

/// Whether `folder` is in the list.
fn lists_folder(folders: &Vec<String>, folder: &str) -> (r: bool)
    ensures
        r == folders.deep_view().contains(folder@),
{
    let mut i: usize = 0;
    while i < folders.len()
        invariant
            i <= folders.len(),
            forall|k: int| 0 <= k < i ==> (#[trigger] folders[k])@ != folder@,
        decreases folders.len() - i,
    {
        if str_eq(folders[i].as_str(), folder) {
            assert(folders.deep_view()[i as int] == folder@);
            return true;
        }
        i = i + 1;
    }
    assert forall|k: int| 0 <= k < folders.deep_view().len() implies folders.deep_view()[k]
        != folder@ by {
        assert(folders.deep_view()[k] == folders[k]@);
    }
    false
}

/// Adds a folder to the configuration. The folder is stored with forward
/// slashes; `is_dir` says whether a directory stands at `folder` as given.
pub fn add_media_folder(config: MediaConfig, folder: &str, is_dir: bool) -> (r: Result<
    MediaConfig,
    FolderError,
>)
    ensures
        match r {
            Ok(c) => !config.folders.deep_view().contains(normalized_path(folder@)) && is_dir
                && c.folders.deep_view() == config.folders.deep_view().push(
                normalized_path(folder@),
            ),
            Err(FolderError::AlreadyListed) => config.folders.deep_view().contains(
                normalized_path(folder@),
            ),
            Err(FolderError::NotADirectory) => !config.folders.deep_view().contains(
                normalized_path(folder@),
            ) && !is_dir,
            Err(FolderError::NotListed) => false,
        },
{
    let normalized = normalize_path(folder);
    if lists_folder(&config.folders, normalized.as_str()) {
        return Err(FolderError::AlreadyListed);
    }
    if !is_dir {
        return Err(FolderError::NotADirectory);
    }
    let ghost before = config.folders.deep_view();
    let mut folders = config.folders;
    folders.push(normalized);
    assert(folders.deep_view() =~= before.push(normalized_path(folder@)));
    Ok(MediaConfig { folders })
}

/// Removes a folder, given with either kind of slash, from the configuration.
pub fn remove_media_folder(config: MediaConfig, folder: &str) -> (r: Result<
    MediaConfig,
    FolderError,
>)
    ensures
        match r {
            Ok(c) => config.folders.deep_view().contains(normalized_path(folder@))
                && c.folders.deep_view() == without_folder(
                config.folders.deep_view(),
                normalized_path(folder@),
            ),
            Err(e) => e == FolderError::NotListed && !config.folders.deep_view().contains(
                normalized_path(folder@),
            ),
        },
{
    let normalized = normalize_path(folder);
    let ghost s = config.folders.deep_view();
    let ghost f = normalized_path(folder@);
    let mut kept: Vec<String> = Vec::new();
    let mut seen = false;
    assert(s.take(0) =~= Seq::empty());
    assert(kept.deep_view() =~= Seq::empty());
    for x in it: config.folders
        invariant
            it.seq() == config.folders@,
            s == config.folders.deep_view(),
            f == normalized@,
            kept.deep_view() == without_folder(s.take(it.index()), f),
            seen == s.take(it.index()).contains(f),
    {
        let ghost i = it.index();
        let ghost before = kept.deep_view();
        assert(s.take(i + 1).drop_last() =~= s.take(i));
        assert(s.take(i + 1).last() == x@);
        if str_eq(x.as_str(), normalized.as_str()) {
            seen = true;
            assert(s.take(i + 1)[i] == f);
        } else {
            kept.push(x);
            assert(kept.deep_view() =~= before.push(s[i]));
            proof {
                let next = s.take(i + 1);
                if next.contains(f) {
                    let k = choose|k: int| 0 <= k < next.len() && next[k] == f;
                    assert(s.take(i)[k] == f);
                }
            }
        }
        proof {
            let prev = s.take(i);
            if prev.contains(f) {
                let k = choose|k: int| 0 <= k < prev.len() && prev[k] == f;
                assert(s.take(i + 1)[k] == f);
            }
        }
    }
    assert(s.take(s.len() as int) =~= s);
    if seen {
        Ok(MediaConfig { folders: kept })
    } else {
        Err(FolderError::NotListed)
    }
}

/// The folder list of the settings.
pub fn get_media_config(settings: Settings) -> (r: MediaConfig)
    ensures
        r == settings.media,
{
    settings.media
}

/// The settings with a new folder list and all else as it was.
pub fn save_media_config(settings: Settings, config: MediaConfig) -> (r: Settings)
    ensures
        r == (Settings { media: config, ..settings }),
{
    let mut s = settings;
    s.media = config;
    s
}

/// What was found where the library is kept.
#[derive(Debug, PartialEq, Eq)]
pub enum StoredLibrary {
    /// No library file yet.
    Absent,
    /// A library file that could not be read, or that is no list of
    /// entries.
    Unreadable,
    /// The entries of the library file.
    Entries(Vec<MediaEntry>),
}

/// What a `StoredLibrary` holds, as mathematical values.
pub enum StoredLibraryView {
    Absent,
    Unreadable,
    Entries(Seq<MediaEntryView>),
}

impl View for StoredLibrary {
    type V = StoredLibraryView;

    open spec fn view(&self) -> StoredLibraryView {
        match self {
            StoredLibrary::Absent => StoredLibraryView::Absent,
            StoredLibrary::Unreadable => StoredLibraryView::Unreadable,
            StoredLibrary::Entries(entries) => StoredLibraryView::Entries(entries.deep_view()),
        }
    }
}

/// The entries that a stored library is known to hold.
pub open spec fn entries_of(stored: StoredLibraryView) -> Seq<MediaEntryView> {
    match stored {
        StoredLibraryView::Entries(entries) => entries,
        _ => Seq::empty(),
    }
}

/// Why a scan was refused.
#[derive(Clone, Copy, Debug, PartialEq, Eq, Structural)]
pub enum ScanError {
    /// The library file is there and cannot be read. It is left as it is:
    /// to scan over it would draw a new identifier for every file.
    LibraryUnreadable,
}

impl ScanError {
    /// The message shown to the user.
    pub open spec fn message_text(self) -> Seq<char> {
        "The media library file cannot be read; it was left as it is."@
    }

    /// The message shown to the user.
    pub fn message(&self) -> (r: String)
        ensures
            r@ == self.message_text(),
    {
        "The media library file cannot be read; it was left as it is.".to_owned()
    }
}

/// What a scan hands back, and whether it takes effect. With no folder
/// configured there is nothing to scan: the result is empty and nothing else
/// happens. With folders, a library file that cannot be read fails the scan,
/// and nothing is written. Otherwise the result holds what was found, one
/// entry per path and sorted by path, each path under the identifier it had
/// in the previous library; it replaces the library, and a metadata batch
/// follows.
pub fn scan_media_folders(config: &MediaConfig, found: Vec<MediaEntry>, previous: &StoredLibrary)
    -> (r: Result<(ScanResult, bool), ScanError>)
    ensures
        match r {
            Err(e) => e == ScanError::LibraryUnreadable && config.folders.len() > 0 && previous@
                is Unreadable,
            Ok(out) => {
                &&& config.folders.len() == 0 || !(previous@ is Unreadable)
                &&& out.0.total_found == out.0.media_entries.len()
                &&& out.1 == (config.folders.len() > 0)
                &&& config.folders.len() == 0 ==> out.0.media_entries.len() == 0
                &&& config.folders.len() > 0 ==> is_scan_of(
                    out.0.media_entries.deep_view(),
                    found.deep_view(),
                    entries_of(previous@),
                )
            },
        },
{
    if config.folders.len() == 0 {
        return Ok((ScanResult { total_found: 0, media_entries: Vec::new() }, false));
    }
    let entries = match previous {
        StoredLibrary::Unreadable => {
            return Err(ScanError::LibraryUnreadable);
        },
        StoredLibrary::Absent => {
            let none: Vec<MediaEntry> = Vec::new();
            assert(none.deep_view() =~= Seq::empty());
            scan_library(found, &none)
        },
        StoredLibrary::Entries(existing) => scan_library(found, existing),
    };
    Ok((ScanResult { total_found: entries.len(), media_entries: entries }, true))
}

/// Whether a scan has to walk the folders at all: not when none is
/// configured, and not when the library file cannot be read.
pub fn scan_walks(config: &MediaConfig, previous: &StoredLibrary) -> (r: bool)
    ensures
        r == (config.folders.len() > 0 && !(previous@ is Unreadable)),
{
    config.folders.len() > 0 && match previous {
        StoredLibrary::Unreadable => false,
        _ => true,
    }
}

} // verus!
