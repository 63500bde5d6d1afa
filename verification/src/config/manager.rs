//! The settings and the wallpaper library.
use vstd::prelude::*;
use vstd::string::*;
use vstd::utf8::*;
use crate::config::settings;
use crate::config::settings::AppConfig;
use crate::encoding;
use crate::error::{ErrorKind, MirrorStarError};
use crate::paths;
use crate::text;
use crate::time;
use crate::wallpaper::WallpaperType;

verus! {

/// Changed settings are written at most once in this time, in nanoseconds.
pub const CONFIG_SAVE_DEBOUNCE_NANOS: u128 = 300_000_000;

/// The largest file of settings or wallpapers, in bytes.
pub const MAX_CONFIG_FILE_SIZE: u64 = 1048576;

/// A display that is connected.
#[derive(Clone, Debug, PartialEq, Eq)]
pub struct DisplayInfo {
    /// The system's name for it.
    pub id: String,
    /// Its name for people.
    pub name: String,
    /// Its width in pixels.
    pub width: u32,
    /// Its height in pixels.
    pub height: u32,
    /// Its left edge on the virtual screen.
    pub x: i32,
    /// Its top edge on the virtual screen.
    pub y: i32,
    /// It is the primary display.
    pub is_primary: bool,
    /// Its dots per inch.
    pub dpi: u32,
    /// The path of its wallpaper.
    pub current_wallpaper: Option<String>,
}

/// Which of the two files something is about.
#[derive(Clone, Copy, Debug, PartialEq, Eq, Structural)]
pub enum ConfigKind {
    /// The file of the settings.
    Config,
    /// The file of the wallpaper library.
    Library,
}

/// A file could not be understood, and defaults are used in its place.
#[derive(Clone, Debug)]
pub struct ConfigLoadError {
    /// The path of the file.
    pub path: String,
    /// Which file it is.
    pub kind: ConfigKind,
    /// What is wrong with it.
    pub message: String,
}

/// What is known of the contents of a wallpaper file.
#[derive(Clone, Copy, Debug, PartialEq, Eq, Structural)]
pub struct WallpaperMetadata {
    /// Its width in pixels.
    pub width: Option<u32>,
    /// Its height in pixels.
    pub height: Option<u32>,
    /// Its length in seconds, as the bits of a 64-bit floating-point number.
    pub duration_bits: Option<u64>,
    /// How many frames it has.
    pub frame_count: Option<u32>,
}

/// A wallpaper of the library.
#[derive(Debug, PartialEq, Eq)]
pub struct WallpaperEntry {
    /// What it is known by.
    pub id: String,
    /// The path of its file.
    pub file_path: String,
    /// What its file holds.
    pub wallpaper_type: WallpaperType,
    /// The display it belongs to.
    pub display_id: Option<String>,
    /// When it was added, in seconds.
    pub added_at: String,
    /// The path of its thumbnail, empty as long as there is none.
    pub thumbnail: String,
    /// The size of its file in bytes.
    pub file_size: u64,
    /// What is known of the contents of its file.
    pub metadata: Option<WallpaperMetadata>,
    /// The path of its file in the form in which paths are compared.
    pub normalized_path: String,
}

/// What a wallpaper of the library holds.
pub struct EntryView {
    /// What it is known by.
    pub id: Seq<char>,
    /// The path of its file.
    pub file_path: Seq<char>,
    /// What its file holds.
    pub wallpaper_type: WallpaperType,
    /// The display it belongs to.
    pub display_id: Option<Seq<char>>,
    /// When it was added.
    pub added_at: Seq<char>,
    /// The path of its thumbnail.
    pub thumbnail: Seq<char>,
    /// The size of its file.
    pub file_size: u64,
    /// What is known of the contents of its file.
    pub metadata: Option<WallpaperMetadata>,
    /// The path of its file in the form in which paths are compared.
    pub normalized_path: Seq<char>,
}

impl View for WallpaperEntry {
    type V = EntryView;

    open spec fn view(&self) -> EntryView {
        EntryView {
            id: self.id@,
            file_path: self.file_path@,
            wallpaper_type: self.wallpaper_type,
            display_id: match self.display_id {
                Some(d) => Some(d@),
                None => None,
            },
            added_at: self.added_at@,
            thumbnail: self.thumbnail@,
            file_size: self.file_size,
            metadata: self.metadata,
            normalized_path: self.normalized_path@,
        }
    }
}

impl Clone for WallpaperEntry {
    fn clone(&self) -> (r: Self)
        ensures
            r@ == self@,
    {
        WallpaperEntry {
            id: self.id.clone(),
            file_path: self.file_path.clone(),
            wallpaper_type: self.wallpaper_type,
            display_id: match &self.display_id {
                Some(d) => Some(d.clone()),
                None => None,
            },
            added_at: self.added_at.clone(),
            thumbnail: self.thumbnail.clone(),
            file_size: self.file_size,
            metadata: self.metadata,
            normalized_path: self.normalized_path.clone(),
        }
    }
}

/// The wallpapers that can be shown.
#[derive(Debug)]
pub struct WallpaperLibrary {
    /// The wallpapers, oldest first.
    pub wallpapers: Vec<WallpaperEntry>,
}

/// What some wallpapers hold.
pub open spec fn entries_of(wallpapers: Seq<WallpaperEntry>) -> Seq<EntryView> {
    wallpapers.map_values(|e: WallpaperEntry| e@)
}

impl View for WallpaperLibrary {
    type V = Seq<EntryView>;

    open spec fn view(&self) -> Seq<EntryView> {
        entries_of(self.wallpapers@)
    }
}

impl Default for WallpaperLibrary {
    fn default() -> (r: Self)
        ensures
            r@ == Seq::<EntryView>::empty(),
    {
        let r = WallpaperLibrary { wallpapers: Vec::new() };
        assert(r@ =~= Seq::<EntryView>::empty());
        r
    }
}

impl Clone for WallpaperLibrary {
    fn clone(&self) -> (r: Self)
        ensures
            r@ == self@,
    {
        let mut wallpapers: Vec<WallpaperEntry> = Vec::new();
        let mut i: usize = 0;
        while i < self.wallpapers.len()
            invariant
                i <= self.wallpapers.len(),
                entries_of(wallpapers@) == self@.take(i as int),
            decreases self.wallpapers.len() - i,
        {
            let ghost before = wallpapers@;
            wallpapers.push(self.wallpapers[i].clone());
            assert(entries_of(wallpapers@) =~= entries_of(before).push(self@[i as int]));
            assert(self@.take(i + 1) =~= self@.take(i as int).push(self@[i as int]));
            i += 1;
        }
        assert(self@.take(i as int) =~= self@);
        WallpaperLibrary { wallpapers }
    }
}

/// A path in the form in which paths are compared: in small letters, and with `\\` for
/// every separator.
pub open spec fn normalized(path: Seq<char>) -> Seq<char> {
    text::replaced(text::lowercase(path), '/', '\\')
}

/// The form in which a path of ASCII characters is compared.
pub open spec fn ascii_normalized(path: Seq<char>) -> Seq<char> {
    text::replaced(path.map_values(|c: char| text::ascii_lower(c)), '/', '\\')
}

/// The path in the form in which paths are compared.
pub fn normalize_path(p: &str) -> (r: String)
    ensures
        r@ == normalized(p@),
        is_ascii_chars(p@) ==> r@ == ascii_normalized(p@),
{
    let lower = text::to_lowercase(p);
    text::replace_char(lower.as_str(), '/', '\\')
}

/// Neither which separator is written nor the size of the letters makes a difference, and
/// what is in the form for comparison stays as it is.
pub proof fn law_normalized(path: Seq<char>)
    ensures
        ascii_normalized(text::replaced(path, '/', '\\')) == ascii_normalized(path),
        ascii_normalized(text::replaced(path, '\\', '/')) == ascii_normalized(path),
        ascii_normalized(path.map_values(|c: char| text::ascii_lower(c))) == ascii_normalized(path),
        ascii_normalized(ascii_normalized(path)) == ascii_normalized(path),
{
    assert(ascii_normalized(text::replaced(path, '/', '\\')) =~= ascii_normalized(path));
    assert(ascii_normalized(text::replaced(path, '\\', '/')) =~= ascii_normalized(path));
    assert(ascii_normalized(path.map_values(|c: char| text::ascii_lower(c))) =~= ascii_normalized(
        path,
    ));
    assert(ascii_normalized(ascii_normalized(path)) =~= ascii_normalized(path));
}

/// The place of the first wallpaper with this id.
pub open spec fn place_of_id(entries: Seq<EntryView>, id: Seq<char>) -> Option<int>
    decreases entries.len(),
{
    if entries.len() == 0 {
        None
    } else {
        match place_of_id(entries.drop_last(), id) {
            Some(i) => Some(i),
            None => if entries.last().id == id {
                Some(entries.len() - 1)
            } else {
                None
            },
        }
    }
}

/// The place of the first wallpaper whose file has this path, which is in the form for
/// comparison.
pub open spec fn place_of_path(entries: Seq<EntryView>, path: Seq<char>) -> Option<int>
    decreases entries.len(),
{
    if entries.len() == 0 {
        None
    } else {
        match place_of_path(entries.drop_last(), path) {
            Some(i) => Some(i),
            None => if entries.last().normalized_path == path {
                Some(entries.len() - 1)
            } else {
                None
            },
        }
    }
}

/// What the place of the first wallpaper with an id is.
pub proof fn law_place_of_id(entries: Seq<EntryView>, id: Seq<char>)
    ensures
        match place_of_id(entries, id) {
            Some(i) => 0 <= i < entries.len() && entries[i].id == id && forall|j: int|
                0 <= j < i ==> (#[trigger] entries[j]).id != id,
            None => forall|j: int| 0 <= j < entries.len() ==> (#[trigger] entries[j]).id != id,
        },
    decreases entries.len(),
{
    if entries.len() > 0 {
        law_place_of_id(entries.drop_last(), id);
        assert forall|j: int| 0 <= j < entries.len() - 1 implies #[trigger] entries[j]
            == entries.drop_last()[j] by {}
    }
}

/// What the place of the first wallpaper with a path is.
pub proof fn law_place_of_path(entries: Seq<EntryView>, path: Seq<char>)
    ensures
        match place_of_path(entries, path) {
            Some(i) => 0 <= i < entries.len() && entries[i].normalized_path == path && forall|
                j: int,
            |
                0 <= j < i ==> (#[trigger] entries[j]).normalized_path != path,
            None => forall|j: int|
                0 <= j < entries.len() ==> (#[trigger] entries[j]).normalized_path != path,
        },
    decreases entries.len(),
{
    if entries.len() > 0 {
        law_place_of_path(entries.drop_last(), path);
        assert forall|j: int| 0 <= j < entries.len() - 1 implies #[trigger] entries[j]
            == entries.drop_last()[j] by {}
    }
}

/// Finds the first wallpaper with this id.
fn find_id(wallpapers: &Vec<WallpaperEntry>, id: &str) -> (r: Option<usize>)
    ensures
        match (r, place_of_id(entries_of(wallpapers@), id@)) {
            (Some(i), Some(k)) => i == k && i < wallpapers.len(),
            (None, None) => true,
            _ => false,
        },
{
    let ghost entries = entries_of(wallpapers@);
    let mut i: usize = 0;
    while i < wallpapers.len()
        invariant
            i <= wallpapers.len(),
            entries == entries_of(wallpapers@),
            place_of_id(entries.take(i as int), id@) is None,
        decreases wallpapers.len() - i,
    {
        assert(entries.take(i + 1).drop_last() =~= entries.take(i as int));
        if text::same_text(wallpapers[i].id.as_str(), id) {
            proof {
                lemma_place_of_id_grows(entries, id@, i + 1);
            }
            return Some(i);
        }
        i += 1;
    }
    assert(entries.take(i as int) =~= entries);
    None
}

/// A wallpaper found among the first ones is found among all.
proof fn lemma_place_of_id_grows(entries: Seq<EntryView>, id: Seq<char>, n: int)
    requires
        0 <= n <= entries.len(),
        place_of_id(entries.take(n), id) is Some,
    ensures
        place_of_id(entries, id) == place_of_id(entries.take(n), id),
    decreases entries.len() - n,
{
    if n < entries.len() {
        assert(entries.take(n + 1).drop_last() =~= entries.take(n));
        lemma_place_of_id_grows(entries, id, n + 1);
    } else {
        assert(entries.take(n) =~= entries);
    }
}

/// Finds the first wallpaper whose file has this path, which is in the form for comparison.
fn find_path(wallpapers: &Vec<WallpaperEntry>, path: &str) -> (r: Option<usize>)
    ensures
        match (r, place_of_path(entries_of(wallpapers@), path@)) {
            (Some(i), Some(k)) => i == k && i < wallpapers.len(),
            (None, None) => true,
            _ => false,
        },
{
    let ghost entries = entries_of(wallpapers@);
    let mut i: usize = 0;
    while i < wallpapers.len()
        invariant
            i <= wallpapers.len(),
            entries == entries_of(wallpapers@),
            place_of_path(entries.take(i as int), path@) is None,
        decreases wallpapers.len() - i,
    {
        assert(entries.take(i + 1).drop_last() =~= entries.take(i as int));
        if text::same_text(wallpapers[i].normalized_path.as_str(), path) {
            proof {
                lemma_place_of_path_grows(entries, path@, i + 1);
            }
            return Some(i);
        }
        i += 1;
    }
    assert(entries.take(i as int) =~= entries);
    None
}

/// A wallpaper found among the first ones is found among all.
proof fn lemma_place_of_path_grows(entries: Seq<EntryView>, path: Seq<char>, n: int)
    requires
        0 <= n <= entries.len(),
        place_of_path(entries.take(n), path) is Some,
    ensures
        place_of_path(entries, path) == place_of_path(entries.take(n), path),
    decreases entries.len() - n,
{
    if n < entries.len() {
        assert(entries.take(n + 1).drop_last() =~= entries.take(n));
        lemma_place_of_path_grows(entries, path, n + 1);
    } else {
        assert(entries.take(n) =~= entries);
    }
}

/// Where the program's data could be kept.
#[derive(Debug)]
pub struct DataPlaces {
    /// The directory that the environment variable `MIRRORSTAR_DATA_ROOT` names.
    pub environment: Option<String>,
    /// The directory of the program's own file.
    pub program_dir: Option<String>,
    /// The directory of the user's data.
    pub user_data_dir: Option<String>,
}

/// Where the program's data is kept: in the directory that the environment names, unless
/// that is empty; else where the program stands; else in a directory of its own among the
/// user's data; else in the current directory.
pub open spec fn resolved_root(places: DataPlaces) -> Seq<char> {
    if places.environment is Some && places.environment->0@.len() > 0 {
        places.environment->0@
    } else if places.program_dir is Some {
        places.program_dir->0@
    } else if places.user_data_dir is Some {
        paths::joined(places.user_data_dir->0@, "mirrorstar"@)
    } else {
        "."@
    }
}

/// Where the program's data is kept.
pub fn resolve_data_root(places: &DataPlaces) -> (r: String)
    ensures
        r@ == resolved_root(*places),
{
    if let Some(dir) = &places.environment {
        if text::chars_of(dir.as_str()).len() > 0 {
            return dir.clone();
        }
    }
    if let Some(dir) = &places.program_dir {
        return dir.clone();
    }
    match &places.user_data_dir {
        Some(dir) => paths::join(dir.as_str(), "mirrorstar"),
        None => String::from_str("."),
    }
}

/// Sets where the program's data is kept, if that is not settled yet.
pub fn init_data_root(root: &mut Option<String>, dir: String)
    ensures
        *final(root) == match *old(root) {
            Some(settled) => Some(settled),
            None => Some(dir),
        },
{
    if root.is_none() {
        *root = Some(dir);
    }
}

/// Where the program's data is kept. The first answer settles it.
pub fn data_root(root: &mut Option<String>, places: &DataPlaces) -> (r: String)
    ensures
        *final(root) matches Some(settled) && settled@ == r@,
        match *old(root) {
            Some(settled) => r@ == settled@,
            None => r@ == resolved_root(*places),
        },
{
    match root {
        Some(settled) => settled.clone(),
        None => {
            let found = resolve_data_root(places);
            *root = Some(found.clone());
            found
        },
    }
}

/// What came of reading a file, at least up to one byte more than is allowed.
#[derive(Debug)]
pub enum FileRead {
    /// There is no such file.
    Missing,
    /// The file could not be read; holds the system's own words.
    Failed(String),
    /// These bytes were read.
    Data(Vec<u8>),
}

/// The text of a file: none if there is no file; an error, as its kind and text, if the
/// file cannot be read, is larger than `max_size`, or is not UTF-8.
pub open spec fn bounded_text(read: FileRead, max_size: u64) -> Result<
    Option<Seq<char>>,
    (ErrorKind, Seq<char>),
> {
    match read {
        FileRead::Missing => Ok(None),
        FileRead::Failed(e) => Err((ErrorKind::Io, e@)),
        FileRead::Data(bytes) => if bytes@.len() > max_size {
            Err(
                (
                    ErrorKind::ConfigParse,
                    "文件超过 "@ + text::decimal(max_size as nat) + " 字节上限（读取 "@
                        + text::decimal((max_size + 1) as nat) + " 字节）"@,
                ),
            )
        } else if !valid_utf8(bytes@) {
            Err((ErrorKind::Io, encoding::utf8_error_text(bytes@)))
        } else {
            Ok(Some(decode_utf8(bytes@)))
        },
    }
}

/// Whether this is the text of a file of settings or wallpapers.
pub open spec fn is_text_of(read: FileRead, s: String) -> bool {
    bounded_text(read, MAX_CONFIG_FILE_SIZE) matches Ok(Some(t)) && t == s@
}

/// The text of a file that may have up to `max_size` bytes.
pub fn read_bounded_utf8_file(read: FileRead, max_size: u64) -> (r: Result<
    Option<String>,
    MirrorStarError,
>)
    ensures
        match bounded_text(read, max_size) {
            Ok(None) => r matches Ok(None),
            Ok(Some(t)) => r matches Ok(Some(s)) && s@ == t,
            Err(e) => r matches Err(x) && x@ == e,
        },
{
    match read {
        FileRead::Missing => Ok(None),
        FileRead::Failed(e) => Err(MirrorStarError::Io(e)),
        FileRead::Data(bytes) => {
            if bytes.len() as u128 > max_size as u128 {
                let mut s = String::from_str("文件超过 ");
                s.append(text::decimal_text(max_size as u128).as_str());
                s.append(" 字节上限（读取 ");
                s.append(text::decimal_text(max_size as u128 + 1).as_str());
                s.append(" 字节）");
                return Err(MirrorStarError::ConfigParse(s));
            }
            match encoding::decode_text(bytes) {
                Ok(s) => Ok(Some(s)),
                Err(e) => Err(MirrorStarError::Io(e)),
            }
        },
    }
}

/// What is used of a file of settings that was parsed, or could not be.
pub open spec fn is_accepted_config(
    path: Seq<char>,
    parsed: Result<AppConfig, String>,
    r: (AppConfig, Option<ConfigLoadError>),
) -> bool {
    match parsed {
        Ok(c) => r.0 == c.validated() && r.1 is None,
        Err(m) => r.0 == settings::default_config() && (r.1 matches Some(e) && e.path@ == path
            && e.kind == ConfigKind::Config && e.message@ == m@),
    }
}

/// The settings that a file of settings gives: those in it, with every value brought into
/// range; the default ones, and what is wrong, if it could not be parsed.
pub fn accept_config(path: &str, parsed: Result<AppConfig, String>) -> (r: (
    AppConfig,
    Option<ConfigLoadError>,
))
    ensures
        is_accepted_config(path@, parsed, r),
        r.0.in_range(),
{
    match parsed {
        Ok(c) => {
            let mut config: AppConfig = c;
            config.validate();
            (config, None)
        },
        Err(message) => {
            proof {
                settings::law_default_in_range();
            }
            (
                AppConfig::default(),
                Some(
                    ConfigLoadError {
                        path: String::from_str(path),
                        kind: ConfigKind::Config,
                        message,
                    },
                ),
            )
        },
    }
}

/// What comes of loading a file of settings.
pub open spec fn is_loaded_config<P: FnOnce(String) -> Result<AppConfig, String>>(
    path: Seq<char>,
    read: FileRead,
    parse: P,
    r: Result<(AppConfig, Option<ConfigLoadError>), MirrorStarError>,
) -> bool {
    match bounded_text(read, MAX_CONFIG_FILE_SIZE) {
        Err(e) => r matches Err(x) && x@ == e,
        Ok(None) => r matches Ok(l) && l.0 == settings::default_config() && l.1 is None,
        Ok(Some(t)) => r matches Ok(l) && exists|s: String, parsed: Result<AppConfig, String>|
            s@ == t && #[trigger] parse.ensures((s,), parsed) && is_accepted_config(
                path,
                parsed,
                l,
            ),
    }
}

/// The settings in the file at `path`, of which `read` has come and which `parse` parses.
/// If there is no such file, the default ones.
pub fn load_config<P: FnOnce(String) -> Result<AppConfig, String>>(
    path: &str,
    read: FileRead,
    parse: P,
) -> (r: Result<(AppConfig, Option<ConfigLoadError>), MirrorStarError>)
    requires
        forall|s: String| is_text_of(read, s) ==> #[trigger] parse.requires((s,)),
    ensures
        is_loaded_config(path@, read, parse, r),
        r matches Ok(l) ==> l.0.in_range(),
{
    match read_bounded_utf8_file(read, MAX_CONFIG_FILE_SIZE) {
        Err(e) => Err(e),
        Ok(None) => {
            proof {
                settings::law_default_in_range();
            }
            Ok((AppConfig::default(), None))
        },
        Ok(Some(content)) => {
            let ghost s = content;
            let parsed = parse(content);
            let ghost p = parsed;
            assert(parse.ensures((s,), p));
            Ok(accept_config(path, parsed))
        },
    }
}

/// A wallpaper with the path of its file in the form for comparison.
pub open spec fn with_normalized(entry: EntryView) -> EntryView {
    EntryView { normalized_path: normalized(entry.file_path), ..entry }
}

/// Every wallpaper has the path of its file in the form for comparison.
pub open spec fn all_normalized(entries: Seq<EntryView>) -> bool {
    forall|i: int|
        0 <= i < entries.len() ==> (#[trigger] entries[i]).normalized_path == normalized(
            entries[i].file_path,
        )
}

/// What is used of a file of wallpapers that was parsed, or could not be.
pub open spec fn is_accepted_library(
    path: Seq<char>,
    parsed: Result<WallpaperLibrary, String>,
    r: (WallpaperLibrary, Option<ConfigLoadError>),
) -> bool {
    match parsed {
        Ok(l) => r.0@ == l@.map_values(|e: EntryView| with_normalized(e)) && r.1 is None,
        Err(m) => r.0@ == Seq::<EntryView>::empty() && (r.1 matches Some(e) && e.path@ == path
            && e.kind == ConfigKind::Library && e.message@ == m@),
    }
}

/// The library that a file of wallpapers gives: that in it, with the paths for comparison
/// made anew; an empty one, and what is wrong, if it could not be parsed.
pub fn accept_library(path: &str, parsed: Result<WallpaperLibrary, String>) -> (r: (
    WallpaperLibrary,
    Option<ConfigLoadError>,
))
    ensures
        is_accepted_library(path@, parsed, r),
        all_normalized(r.0@),
{
    match parsed {
        Ok(library) => {
            let ghost before = library@;
            let ghost wanted = before.map_values(|e: EntryView| with_normalized(e));
            let mut wallpapers: Vec<WallpaperEntry> = library.wallpapers;
            let mut i: usize = 0;
            while i < wallpapers.len()
                invariant
                    i <= wallpapers.len() == before.len(),
                    wanted == before.map_values(|e: EntryView| with_normalized(e)),
                    forall|j: int| 0 <= j < i ==> (#[trigger] wallpapers@[j])@ == wanted[j],
                    forall|j: int|
                        i <= j < before.len() ==> (#[trigger] wallpapers@[j])@ == before[j],
                decreases wallpapers.len() - i,
            {
                let path = normalize_path(wallpapers[i].file_path.as_str());
                wallpapers[i].normalized_path = path;
                assert(wallpapers@[i as int]@ == wanted[i as int]);
                i += 1;
            }
            assert(entries_of(wallpapers@) =~= wanted);
            (WallpaperLibrary { wallpapers }, None)
        },
        Err(message) => (
            WallpaperLibrary::default(),
            Some(
                ConfigLoadError {
                    path: String::from_str(path),
                    kind: ConfigKind::Library,
                    message,
                },
            ),
        ),
    }
}

/// What comes of loading a file of wallpapers.
pub open spec fn is_loaded_library<P: FnOnce(String) -> Result<WallpaperLibrary, String>>(
    path: Seq<char>,
    read: FileRead,
    parse: P,
    r: Result<(WallpaperLibrary, Option<ConfigLoadError>), MirrorStarError>,
) -> bool {
    match bounded_text(read, MAX_CONFIG_FILE_SIZE) {
        Err(e) => r matches Err(x) && x@ == e,
        Ok(None) => r matches Ok(l) && l.0@ == Seq::<EntryView>::empty() && l.1 is None,
        Ok(Some(t)) => r matches Ok(l) && exists|
            s: String,
            parsed: Result<WallpaperLibrary, String>,
        |
            s@ == t && #[trigger] parse.ensures((s,), parsed) && is_accepted_library(
                path,
                parsed,
                l,
            ),
    }
}

/// The library in the file at `path`, of which `read` has come and which `parse` parses.
/// If there is no such file, an empty one.
pub fn load_library<P: FnOnce(String) -> Result<WallpaperLibrary, String>>(
    path: &str,
    read: FileRead,
    parse: P,
) -> (r: Result<(WallpaperLibrary, Option<ConfigLoadError>), MirrorStarError>)
    requires
        forall|s: String| is_text_of(read, s) ==> #[trigger] parse.requires((s,)),
    ensures
        is_loaded_library(path@, read, parse, r),
        r matches Ok(l) ==> all_normalized(l.0@),
{
    match read_bounded_utf8_file(read, MAX_CONFIG_FILE_SIZE) {
        Err(e) => Err(e),
        Ok(None) => Ok((WallpaperLibrary::default(), None)),
        Ok(Some(content)) => {
            let ghost s = content;
            let parsed = parse(content);
            let ghost p = parsed;
            assert(parse.ensures((s,), p));
            Ok(accept_library(path, parsed))
        },
    }
}

/// Saves what is marked as changed. If nothing is, nothing happens; else the mark is taken
/// off and `save_fn` saves; if that fails, the mark is set again.
pub fn save_with_dirty_rollback<T, F: FnOnce() -> Result<T, MirrorStarError>>(
    dirty: &mut bool,
    save_fn: F,
) -> (r: Result<Option<T>, MirrorStarError>)
    requires
        *old(dirty) ==> save_fn.requires(()),
    ensures
        if *old(dirty) {
            exists|saved: Result<T, MirrorStarError>| #[trigger]
                save_fn.ensures((), saved) && match saved {
                    Ok(t) => !*final(dirty) && r == Ok::<Option<T>, MirrorStarError>(Some(t)),
                    Err(e) => *final(dirty) && r == Err::<Option<T>, MirrorStarError>(e),
                }
        } else {
            !*final(dirty) && r matches Ok(None)
        },
{
    if !*dirty {
        return Ok(None);
    }
    *dirty = false;
    match save_fn() {
        Ok(t) => Ok(Some(t)),
        Err(e) => {
            *dirty = true;
            Err(e)
        },
    }
}

/// The settings and the wallpaper library of the running program. `C` is what is told of
/// changes, `E` what is told of files that could not be understood.
pub struct ConfigManager<C, E> {
    dir: String,
    config_path: String,
    library_path: String,
    config: AppConfig,
    library: WallpaperLibrary,
    dirty: bool,
    library_dirty: bool,
    last_save_time: Option<u128>,
    last_internal_save: Option<u128>,
    on_config_changed: Option<C>,
    on_config_error: Option<E>,
    pending_config_errors: Vec<ConfigLoadError>,
    watching: bool,
    periodic_save_running: bool,
    stop_signal: bool,
}

/// What a manager holds.
pub struct ManagerView<C, E> {
    /// The directory of the files.
    pub dir: Seq<char>,
    /// The settings.
    pub config: AppConfig,
    /// The wallpapers.
    pub library: Seq<EntryView>,
    /// The settings have changed since they were written.
    pub dirty: bool,
    /// The wallpapers have changed since they were written.
    pub library_dirty: bool,
    /// When the settings were last written because they had been changed.
    pub last_save_time: Option<u128>,
    /// When either file was last written.
    pub last_internal_save: Option<u128>,
    /// What is told of changes.
    pub on_config_changed: Option<C>,
    /// What is told of files that could not be understood.
    pub on_config_error: Option<E>,
    /// Files that could not be understood, of which nothing has been told yet.
    pub pending: Seq<ConfigLoadError>,
    /// The files are watched.
    pub watching: bool,
    /// Changes are written from time to time.
    pub periodic_save_running: bool,
    /// There is a way to tell the periodic writing to end.
    pub stop_signal: bool,
}

/// What a manager holds once its files are loaded.
pub open spec fn fresh_manager<C, E>(
    dir: Seq<char>,
    config: (AppConfig, Option<ConfigLoadError>),
    library: (WallpaperLibrary, Option<ConfigLoadError>),
) -> ManagerView<C, E> {
    ManagerView {
        dir,
        config: config.0,
        library: library.0@,
        dirty: false,
        library_dirty: false,
        last_save_time: None,
        last_internal_save: None,
        on_config_changed: None,
        on_config_error: None,
        pending: load_errors(config.1, library.1),
        watching: false,
        periodic_save_running: false,
        stop_signal: false,
    }
}

/// The errors that loading both files left.
pub open spec fn load_errors(
    config: Option<ConfigLoadError>,
    library: Option<ConfigLoadError>,
) -> Seq<ConfigLoadError> {
    one_error(config) + one_error(library)
}

/// The error, if there is one.
pub open spec fn one_error(error: Option<ConfigLoadError>) -> Seq<ConfigLoadError> {
    match error {
        Some(e) => seq![e],
        None => Seq::empty(),
    }
}

/// The settings were written so shortly before that a change has to wait.
pub open spec fn debounced(last: Option<u128>, now: u128) -> bool {
    last matches Some(t) && time::spec_elapsed(now, t) < CONFIG_SAVE_DEBOUNCE_NANOS
}

/// What is left after an attempt to write the settings, if they were marked as changed. A
/// success tells the time; a failure leaves the mark.
pub open spec fn is_config_saved<C, E>(
    before: ManagerView<C, E>,
    saved: Result<u128, MirrorStarError>,
    after: ManagerView<C, E>,
    r: Result<(), MirrorStarError>,
) -> bool {
    match saved {
        Ok(t) => r is Ok && after == (ManagerView {
            dirty: false,
            last_save_time: Some(t),
            last_internal_save: Some(t),
            ..before
        }),
        Err(e) => r == Err::<(), MirrorStarError>(e) && after == before,
    }
}

/// What is left after an attempt to write the library. A success tells the time.
pub open spec fn is_library_saved<C, E>(
    before: ManagerView<C, E>,
    saved: Result<u128, MirrorStarError>,
    after: ManagerView<C, E>,
    r: Result<(), MirrorStarError>,
) -> bool {
    match saved {
        Ok(t) => r is Ok && after == (ManagerView { last_internal_save: Some(t), ..before }),
        Err(e) => r == Err::<(), MirrorStarError>(e) && after == before,
    }
}

/// The library with another thumbnail for the first wallpaper whose file has this path;
/// none if there is no such wallpaper.
pub open spec fn with_thumbnail(
    entries: Seq<EntryView>,
    file_path: Seq<char>,
    thumbnail: Seq<char>,
) -> Option<Seq<EntryView>> {
    match place_of_path(entries, normalized(file_path)) {
        Some(i) => Some(entries.update(i, EntryView { thumbnail, ..entries[i] })),
        None => None,
    }
}

/// The library after some changes of thumbnails, one after the other, and how many of them
/// found their wallpaper.
pub open spec fn with_thumbnails(
    entries: Seq<EntryView>,
    updates: Seq<(Seq<char>, Seq<char>)>,
) -> (Seq<EntryView>, nat)
    decreases updates.len(),
{
    if updates.len() == 0 {
        (entries, 0)
    } else {
        let (before, n) = with_thumbnails(entries, updates.drop_last());
        match with_thumbnail(before, updates.last().0, updates.last().1) {
            Some(after) => (after, n + 1),
            None => (before, n),
        }
    }
}

impl<C, E> View for ConfigManager<C, E> {
    type V = ManagerView<C, E>;

    closed spec fn view(&self) -> ManagerView<C, E> {
        ManagerView {
            dir: self.dir@,
            config: self.config,
            library: self.library@,
            dirty: self.dirty,
            library_dirty: self.library_dirty,
            last_save_time: self.last_save_time,
            last_internal_save: self.last_internal_save,
            on_config_changed: self.on_config_changed,
            on_config_error: self.on_config_error,
            pending: self.pending_config_errors@,
            watching: self.watching,
            periodic_save_running: self.periodic_save_running,
            stop_signal: self.stop_signal,
        }
    }
}

/// What was found in a directory of data.
#[derive(Debug)]
pub struct OpenedDir {
    /// How creating the directory went.
    pub created: Result<(), String>,
    /// What came of reading the file of the settings.
    pub config_read: FileRead,
    /// What came of reading the file of the wallpapers.
    pub library_read: FileRead,
}

/// What comes of setting up a manager of the files in the directory `dir`.
pub open spec fn is_opened<
    C,
    E,
    P: FnOnce(String) -> Result<AppConfig, String>,
    Q: FnOnce(String) -> Result<WallpaperLibrary, String>,
>(
    dir: Seq<char>,
    opened: OpenedDir,
    parse_config: P,
    parse_library: Q,
    r: Result<ConfigManager<C, E>, MirrorStarError>,
) -> bool {
    match opened.created {
        Err(e) => r matches Err(x) && x@ == (ErrorKind::Io, e@),
        Ok(()) => exists|config: Result<(AppConfig, Option<ConfigLoadError>), MirrorStarError>|
            #[trigger] is_loaded_config(
                paths::joined(dir, "config.toml"@),
                opened.config_read,
                parse_config,
                config,
            ) && match config {
                Err(e) => r == Err::<ConfigManager<C, E>, MirrorStarError>(e),
                Ok(c) => exists|
                    library: Result<(WallpaperLibrary, Option<ConfigLoadError>), MirrorStarError>,
                |
                    #[trigger] is_loaded_library(
                        paths::joined(dir, "wallpapers.toml"@),
                        opened.library_read,
                        parse_library,
                        library,
                    ) && match library {
                        Err(e) => r == Err::<ConfigManager<C, E>, MirrorStarError>(e),
                        Ok(l) => r matches Ok(m) && m@ == fresh_manager::<C, E>(dir, c, l),
                    },
            },
    }
}

impl<C, E> ConfigManager<C, E> {
    /// The settings are in range, and the paths of all wallpapers have their form for
    /// comparison.
    #[verifier::type_invariant]
    spec fn well_formed(self) -> bool {
        &&& self.config_path@ == paths::joined(self.dir@, "config.toml"@)
        &&& self.library_path@ == paths::joined(self.dir@, "wallpapers.toml"@)
        &&& self.config.in_range()
        &&& all_normalized(self.library@)
    }

    /// A manager of the files in the directory `dir`. `created` says how creating the
    /// directory went.
    pub fn new_in_dir<
        P: FnOnce(String) -> Result<AppConfig, String>,
        Q: FnOnce(String) -> Result<WallpaperLibrary, String>,
    >(
        dir: String,
        created: Result<(), String>,
        config_read: FileRead,
        parse_config: P,
        library_read: FileRead,
        parse_library: Q,
    ) -> (r: Result<Self, MirrorStarError>)
        requires
            created is Ok ==> forall|s: String|
                is_text_of(config_read, s) ==> #[trigger] parse_config.requires((s,)),
            created is Ok ==> forall|s: String|
                is_text_of(library_read, s) ==> #[trigger] parse_library.requires((s,)),
        ensures
            is_opened(
                dir@,
                OpenedDir { created, config_read, library_read },
                parse_config,
                parse_library,
                r,
            ),
    {
        if let Err(e) = created {
            return Err(MirrorStarError::Io(e));
        }
        let config_path = paths::join(dir.as_str(), "config.toml");
        let library_path = paths::join(dir.as_str(), "wallpapers.toml");
        let config_loaded = load_config(config_path.as_str(), config_read, parse_config);
        let ghost config_result = config_loaded;
        assert(is_loaded_config(config_path@, config_read, parse_config, config_result));
        let (config, config_error) = match config_loaded {
            Ok(l) => l,
            Err(e) => return Err(e),
        };
        let library_loaded = load_library(library_path.as_str(), library_read, parse_library);
        let ghost library_result = library_loaded;
        assert(is_loaded_library(library_path@, library_read, parse_library, library_result));
        let (library, library_error) = match library_loaded {
            Ok(l) => l,
            Err(e) => return Err(e),
        };
        let ghost errors = load_errors(config_error, library_error);
        let mut pending_config_errors: Vec<ConfigLoadError> = Vec::new();
        if let Some(e) = config_error {
            pending_config_errors.push(e);
        }
        if let Some(e) = library_error {
            pending_config_errors.push(e);
        }
        assert(pending_config_errors@ =~= errors);
        Ok(
            ConfigManager {
                dir,
                config_path,
                library_path,
                config,
                library,
                dirty: false,
                library_dirty: false,
                last_save_time: None,
                last_internal_save: None,
                on_config_changed: None,
                on_config_error: None,
                pending_config_errors,
                watching: false,
                periodic_save_running: false,
                stop_signal: false,
            },
        )
    }

    /// A manager of the files in the directory of the program's data, which `open` creates
    /// and looks into.
    pub fn new<
        O: FnOnce(String) -> OpenedDir,
        P: FnOnce(String) -> Result<AppConfig, String>,
        Q: FnOnce(String) -> Result<WallpaperLibrary, String>,
    >(
        root: &mut Option<String>,
        places: &DataPlaces,
        open: O,
        parse_config: P,
        parse_library: Q,
    ) -> (r: Result<Self, MirrorStarError>)
        requires
            forall|s: String|
                s@ == (match *old(root) {
                    Some(dir) => dir@,
                    None => resolved_root(*places),
                }) ==> #[trigger] open.requires((s,)),
            forall|s: String| #[trigger] parse_config.requires((s,)),
            forall|s: String| #[trigger] parse_library.requires((s,)),
        ensures
            *final(root) matches Some(settled) && settled@ == match *old(root) {
                Some(dir) => dir@,
                None => resolved_root(*places),
            },
            exists|dir: String, opened: OpenedDir| #[trigger]
                open.ensures((dir,), opened) && dir@ == final(root)->0@ && is_opened(
                    dir@,
                    opened,
                    parse_config,
                    parse_library,
                    r,
                ),
    {
        let dir = match Self::data_dir(root, places) {
            Ok(dir) => dir,
            Err(e) => return Err(e),
        };
        let asked = dir.clone();
        let ghost asked_dir = asked;
        let opened = open(asked);
        let ghost found = opened;
        assert(open.ensures((asked_dir,), found));
        Self::new_in_dir(
            dir,
            opened.created,
            opened.config_read,
            parse_config,
            opened.library_read,
            parse_library,
        )
    }

    /// The directory of the program's data.
    pub fn data_dir(root: &mut Option<String>, places: &DataPlaces) -> (r: Result<
        String,
        MirrorStarError,
    >)
        ensures
            r matches Ok(dir) && (*final(root) matches Some(settled) && settled@ == dir@)
                && match *old(root) {
                Some(settled) => dir@ == settled@,
                None => dir@ == resolved_root(*places),
            },
    {
        Ok(data_root(root, places))
    }

    /// The path of the file of the settings.
    pub fn config_path(&self) -> (r: &str)
        ensures
            r@ == paths::joined(self@.dir, "config.toml"@),
    {
        proof {
            use_type_invariant(self);
        }
        self.config_path.as_str()
    }

    /// The path of the file of the wallpapers.
    pub fn library_path(&self) -> (r: &str)
        ensures
            r@ == paths::joined(self@.dir, "wallpapers.toml"@),
    {
        proof {
            use_type_invariant(self);
        }
        self.library_path.as_str()
    }

    /// The settings, which are always in range.
    pub fn get_config(&self) -> (r: AppConfig)
        ensures
            r == self@.config,
            r.in_range(),
    {
        proof {
            use_type_invariant(self);
        }
        self.config
    }

    /// Replaces the settings, with every value brought into range. They are written by
    /// `write` at once, unless they were written shortly before.
    pub fn update_config<F: FnOnce(AppConfig) -> Result<(), MirrorStarError>>(
        &mut self,
        config: AppConfig,
        now: u128,
        write: F,
    ) -> (r: Result<(), MirrorStarError>)
        requires
            !debounced(old(self)@.last_save_time, now) ==> write.requires((config.validated(),)),
        ensures
            ({
                let changed = ManagerView { config: config.validated(), dirty: true, ..old(self)@ };
                if debounced(old(self)@.last_save_time, now) {
                    r is Ok && final(self)@ == changed
                } else {
                    exists|saved: Result<(), MirrorStarError>| #[trigger]
                        write.ensures((config.validated(),), saved) && is_config_saved(
                            changed,
                            match saved {
                                Ok(()) => Ok(now),
                                Err(e) => Err(e),
                            },
                            final(self)@,
                            r,
                        )
                }
            }),
    {
        proof {
            use_type_invariant(&*self);
        }
        let mut valid: AppConfig = config;
        valid.validate();
        self.config = valid;
        self.dirty = true;
        self.maybe_save_config(now, write)
    }

    /// Writes the settings by `write` if they have changed, unless they were written
    /// shortly before.
    pub fn maybe_save_config<F: FnOnce(AppConfig) -> Result<(), MirrorStarError>>(
        &mut self,
        now: u128,
        write: F,
    ) -> (r: Result<(), MirrorStarError>)
        requires
            !debounced(old(self)@.last_save_time, now) && old(self)@.dirty ==> write.requires(
                (old(self)@.config,),
            ),
        ensures
            if debounced(old(self)@.last_save_time, now) || !old(self)@.dirty {
                r is Ok && final(self)@ == old(self)@
            } else {
                exists|saved: Result<(), MirrorStarError>| #[trigger]
                    write.ensures((old(self)@.config,), saved) && is_config_saved(
                        old(self)@,
                        match saved {
                            Ok(()) => Ok(now),
                            Err(e) => Err(e),
                        },
                        final(self)@,
                        r,
                    )
            },
    {
        if let Some(t) = self.last_save_time {
            if time::elapsed(now, t) < CONFIG_SAVE_DEBOUNCE_NANOS {
                return Ok(());
            }
        }
        proof {
            use_type_invariant(&*self);
        }
        let config = self.config;
        let mut dirty: bool = self.dirty;
        let save = move || -> (saved: Result<(), MirrorStarError>)
            requires
                write.requires((config,)),
            ensures
                write.ensures((config,), saved),
            { write(config) };
        let r = save_with_dirty_rollback(&mut dirty, save);
        self.dirty = dirty;
        match r {
            Ok(Some(())) => {
                self.last_save_time = Some(now);
                self.last_internal_save = Some(now);
                Ok(())
            },
            Ok(None) => Ok(()),
            Err(e) => Err(e),
        }
    }

    /// Writes the settings by `write`, which tells the time, if they have changed.
    pub fn flush<F: FnOnce(AppConfig) -> Result<u128, MirrorStarError>>(&mut self, write: F) -> (r:
        Result<(), MirrorStarError>)
        requires
            old(self)@.dirty ==> write.requires((old(self)@.config,)),
        ensures
            if old(self)@.dirty {
                exists|saved: Result<u128, MirrorStarError>| #[trigger]
                    write.ensures((old(self)@.config,), saved) && is_config_saved(
                        old(self)@,
                        saved,
                        final(self)@,
                        r,
                    )
            } else {
                r is Ok && final(self)@ == old(self)@
            },
    {
        proof {
            use_type_invariant(&*self);
        }
        let config = self.config;
        let mut dirty: bool = self.dirty;
        let save = move || -> (saved: Result<u128, MirrorStarError>)
            requires
                write.requires((config,)),
            ensures
                write.ensures((config,), saved),
            { write(config) };
        let r = save_with_dirty_rollback(&mut dirty, save);
        self.dirty = dirty;
        match r {
            Ok(Some(t)) => {
                self.last_save_time = Some(t);
                self.last_internal_save = Some(t);
                Ok(())
            },
            Ok(None) => Ok(()),
            Err(e) => Err(e),
        }
    }

    /// Sets what is told of changes.
    pub fn set_on_config_changed(&mut self, callback: C)
        ensures
            final(self)@ == (ManagerView { on_config_changed: Some(callback), ..old(self)@ }),
    {
        proof {
            use_type_invariant(&*self);
        }
        self.on_config_changed = Some(callback);
    }

    /// Sets what is told of files that could not be understood.
    pub fn set_on_config_error(&mut self, callback: E)
        ensures
            final(self)@ == (ManagerView { on_config_error: Some(callback), ..old(self)@ }),
    {
        proof {
            use_type_invariant(&*self);
        }
        self.on_config_error = Some(callback);
    }

    /// What is told of changes.
    pub fn on_config_changed(&self) -> (r: Option<&C>)
        ensures
            match self@.on_config_changed {
                Some(c) => r matches Some(x) && *x == c,
                None => r is None,
            },
    {
        self.on_config_changed.as_ref()
    }

    /// What is told of files that could not be understood.
    pub fn on_config_error(&self) -> (r: Option<&E>)
        ensures
            match self@.on_config_error {
                Some(c) => r matches Some(x) && *x == c,
                None => r is None,
            },
    {
        self.on_config_error.as_ref()
    }

    /// Takes out the errors of which nothing has been told yet.
    pub fn drain_pending_config_errors(&mut self) -> (r: Vec<ConfigLoadError>)
        ensures
            r@ == old(self)@.pending,
            final(self)@ == (ManagerView {
                pending: Seq::<ConfigLoadError>::empty(),
                ..old(self)@
            }),
    {
        proof {
            use_type_invariant(&*self);
        }
        let mut taken: Vec<ConfigLoadError> = Vec::new();
        std::mem::swap(&mut taken, &mut self.pending_config_errors);
        taken
    }

    /// The error, if there is something to tell it to. If there is not, it is kept.
    pub fn notify_config_error(&mut self, error: ConfigLoadError) -> (r: Option<ConfigLoadError>)
        ensures
            if old(self)@.on_config_error is Some {
                r == Some(error) && final(self)@ == old(self)@
            } else {
                r is None && final(self)@ == (ManagerView {
                    pending: old(self)@.pending.push(error),
                    ..old(self)@
                })
            },
    {
        proof {
            use_type_invariant(&*self);
        }
        if self.on_config_error.is_some() {
            return Some(error);
        }
        let mut pending: Vec<ConfigLoadError> = Vec::new();
        std::mem::swap(&mut pending, &mut self.pending_config_errors);
        pending.push(error);
        self.pending_config_errors = pending;
        None
    }

    /// A copy of the wallpapers.
    pub fn get_wallpapers(&self) -> (r: Vec<WallpaperEntry>)
        ensures
            entries_of(r@) == self@.library,
    {
        self.library.clone().wallpapers
    }

    /// A copy of the first wallpaper with this id.
    pub fn get_wallpaper(&self, id: &str) -> (r: Option<WallpaperEntry>)
        ensures
            match place_of_id(self@.library, id@) {
                Some(i) => r matches Some(e) && e@ == self@.library[i],
                None => r is None,
            },
    {
        match find_id(&self.library.wallpapers, id) {
            Some(i) => Some(self.library.wallpapers[i].clone()),
            None => None,
        }
    }

    /// Puts a wallpaper at the end of the library, which is to be written then.
    pub fn add_wallpaper(&mut self, entry: WallpaperEntry) -> (r: Result<(), MirrorStarError>)
        ensures
            r is Ok,
            final(self)@ == (ManagerView {
                library: old(self)@.library.push(with_normalized(entry@)),
                library_dirty: true,
                ..old(self)@
            }),
    {
        proof {
            use_type_invariant(&*self);
        }
        let mut added = entry;
        added.normalized_path = normalize_path(added.file_path.as_str());
        let ghost before = self.library@;
        let mut library = WallpaperLibrary { wallpapers: Vec::new() };
        std::mem::swap(&mut library, &mut self.library);
        library.wallpapers.push(added);
        assert(library@ =~= before.push(with_normalized(entry@)));
        self.library = library;
        self.mark_library_dirty();
        Ok(())
    }

    /// Takes the first wallpaper with this id out of the library, which is to be written
    /// then. If there is none, nothing changes.
    pub fn remove_wallpaper(&mut self, id: &str) -> (r: Result<
        Option<WallpaperEntry>,
        MirrorStarError,
    >)
        ensures
            match place_of_id(old(self)@.library, id@) {
                Some(i) => {
                    &&& r matches Ok(Some(e)) && e@ == old(self)@.library[i]
                    &&& final(self)@ == (ManagerView {
                        library: old(self)@.library.remove(i),
                        library_dirty: true,
                        ..old(self)@
                    })
                },
                None => r matches Ok(None) && final(self)@ == old(self)@,
            },
    {
        proof {
            use_type_invariant(&*self);
        }
        match find_id(&self.library.wallpapers, id) {
            Some(i) => {
                let ghost before = self.library@;
                let mut library = WallpaperLibrary { wallpapers: Vec::new() };
                std::mem::swap(&mut library, &mut self.library);
                let removed = library.wallpapers.remove(i);
                assert(library@ =~= before.remove(i as int));
                self.library = library;
                self.mark_library_dirty();
                Ok(Some(removed))
            },
            None => Ok(None),
        }
    }

    /// The library has changed and is to be written.
    pub fn mark_library_dirty(&mut self)
        ensures
            final(self)@ == (ManagerView { library_dirty: true, ..old(self)@ }),
    {
        proof {
            use_type_invariant(&*self);
        }
        self.library_dirty = true;
    }

    /// Sets the thumbnail of the first wallpaper whose file has this path.
    fn set_thumbnail(&mut self, file_path: &str, thumbnail: String) -> (r: bool)
        ensures
            match with_thumbnail(old(self)@.library, file_path@, thumbnail@) {
                Some(after) => r && final(self)@ == (ManagerView { library: after, ..old(self)@ }),
                None => !r && final(self)@ == old(self)@,
            },
    {
        proof {
            use_type_invariant(&*self);
            law_place_of_path(self.library@, normalized(file_path@));
        }
        let path = normalize_path(file_path);
        match find_path(&self.library.wallpapers, path.as_str()) {
            Some(i) => {
                let ghost before = self.library@;
                let mut library = WallpaperLibrary { wallpapers: Vec::new() };
                std::mem::swap(&mut library, &mut self.library);
                library.wallpapers[i].thumbnail = thumbnail;
                assert(library@ =~= before.update(
                    i as int,
                    EntryView { thumbnail: thumbnail@, ..before[i as int] },
                ));
                self.library = library;
                true
            },
            None => false,
        }
    }

    /// Writes the library by `write`, which tells the time.
    pub fn save_library<F: FnOnce(&WallpaperLibrary) -> Result<u128, MirrorStarError>>(
        &mut self,
        write: F,
    ) -> (r: Result<(), MirrorStarError>)
        requires
            forall|l: &WallpaperLibrary|
                l@ == old(self)@.library ==> #[trigger] write.requires((l,)),
        ensures
            exists|l: WallpaperLibrary, saved: Result<u128, MirrorStarError>|
                l@ == old(self)@.library && #[trigger] write.ensures((&l,), saved)
                    && is_library_saved(old(self)@, saved, final(self)@, r),
    {
        proof {
            use_type_invariant(&*self);
        }
        let ghost l = self.library;
        let saved = write(&self.library);
        let ghost s = saved;
        assert(write.ensures((&l,), s));
        match saved {
            Ok(t) => {
                self.last_internal_save = Some(t);
                Ok(())
            },
            Err(e) => Err(e),
        }
    }

    /// Sets the thumbnail of the first wallpaper whose file has this path, and writes the
    /// library by `write`. If there is no such wallpaper, nothing happens.
    pub fn update_thumbnail<F: FnOnce(&WallpaperLibrary) -> Result<u128, MirrorStarError>>(
        &mut self,
        file_path: &str,
        thumbnail: String,
        write: F,
    ) -> (r: Result<(), MirrorStarError>)
        requires
            forall|l: &WallpaperLibrary|
                with_thumbnail(old(self)@.library, file_path@, thumbnail@) == Some(l@)
                    ==> #[trigger] write.requires((l,)),
        ensures
            match with_thumbnail(old(self)@.library, file_path@, thumbnail@) {
                Some(after) => exists|l: WallpaperLibrary, saved: Result<u128, MirrorStarError>|
                    l@ == after && #[trigger] write.ensures((&l,), saved) && is_library_saved(
                        ManagerView { library: after, ..old(self)@ },
                        saved,
                        final(self)@,
                        r,
                    ),
                None => r is Ok && final(self)@ == old(self)@,
            },
    {
        if self.set_thumbnail(file_path, thumbnail) {
            self.save_library(write)
        } else {
            Ok(())
        }
    }

    /// Sets several thumbnails, each given by the path of the wallpaper's file and that of
    /// the thumbnail, and writes the library once, by `write`, if that changed anything.
    /// Tells how many wallpapers were found.
    pub fn batch_update_thumbnails<
        F: FnOnce(&WallpaperLibrary) -> Result<u128, MirrorStarError>,
    >(&mut self, updates: &Vec<(String, String)>, write: F) -> (r: Result<usize, MirrorStarError>)
        requires
            ({
                let (after, n) = with_thumbnails(old(self)@.library, update_texts(updates@));
                n > 0 ==> forall|l: &WallpaperLibrary|
                    l@ == after ==> #[trigger] write.requires((l,))
            }),
        ensures
            ({
                let (after, n) = with_thumbnails(old(self)@.library, update_texts(updates@));
                if n == 0 {
                    r == Ok::<usize, MirrorStarError>(0) && final(self)@ == old(self)@
                } else {
                    exists|l: WallpaperLibrary, saved: Result<u128, MirrorStarError>|
                        l@ == after && #[trigger] write.ensures((&l,), saved) && match saved {
                            Ok(t) => (r matches Ok(k) && k == n) && final(self)@ == (ManagerView {
                                library: after,
                                last_internal_save: Some(t),
                                ..old(self)@
                            }),
                            Err(e) => r == Err::<usize, MirrorStarError>(e) && final(self)@ == (
                            ManagerView { library: after, ..old(self)@ }),
                        }
                }
            }),
    {
        let ghost texts = update_texts(updates@);
        let ghost start = self@;
        let mut count: usize = 0;
        let mut i: usize = 0;
        assert(texts.take(0) =~= Seq::<(Seq<char>, Seq<char>)>::empty());
        while i < updates.len()
            invariant
                i <= updates.len(),
                count <= i,
                texts == update_texts(updates@),
                with_thumbnails(start.library, texts.take(i as int)).1 == count,
                count == 0 ==> self@ == start,
                self@ == (ManagerView {
                    library: with_thumbnails(start.library, texts.take(i as int)).0,
                    ..start
                }),
            decreases updates.len() - i,
        {
            assert(texts.take(i + 1).drop_last() =~= texts.take(i as int));
            assert(texts.take(i + 1).last() == texts[i as int]);
            let thumbnail = updates[i].1.clone();
            if self.set_thumbnail(updates[i].0.as_str(), thumbnail) {
                count += 1;
            }
            i += 1;
        }
        assert(texts.take(i as int) =~= texts);
        if count == 0 {
            return Ok(0);
        }
        let saved = self.save_library(write);
        match saved {
            Ok(()) => Ok(count),
            Err(e) => Err(e),
        }
    }

    /// Writes the library by `write`, which tells the time, if it has changed.
    pub fn flush_library<F: FnOnce(&WallpaperLibrary) -> Result<u128, MirrorStarError>>(
        &mut self,
        write: F,
    ) -> (r: Result<(), MirrorStarError>)
        requires
            old(self)@.library_dirty ==> forall|l: &WallpaperLibrary|
                l@ == old(self)@.library ==> #[trigger] write.requires((l,)),
        ensures
            if old(self)@.library_dirty {
                exists|l: WallpaperLibrary, saved: Result<u128, MirrorStarError>|
                    l@ == old(self)@.library && #[trigger] write.ensures((&l,), saved)
                        && match saved {
                        Ok(t) => r is Ok && final(self)@ == (ManagerView {
                            library_dirty: false,
                            last_internal_save: Some(t),
                            ..old(self)@
                        }),
                        Err(e) => r == Err::<(), MirrorStarError>(e) && final(self)@ == old(self)@,
                    }
            } else {
                r is Ok && final(self)@ == old(self)@
            },
    {
        proof {
            use_type_invariant(&*self);
        }
        let mut dirty: bool = self.library_dirty;
        let ghost l = self.library;
        let library = &self.library;
        let save = move || -> (saved: Result<u128, MirrorStarError>)
            requires
                write.requires((library,)),
            ensures
                write.ensures((library,), saved),
            { write(library) };
        let r = save_with_dirty_rollback(&mut dirty, save);
        self.library_dirty = dirty;
        match r {
            Ok(Some(t)) => {
                self.last_internal_save = Some(t);
                Ok(())
            },
            Ok(None) => Ok(()),
            Err(e) => Err(e),
        }
    }
}

/// What changes of thumbnails say: the path of each wallpaper's file and that of its
/// thumbnail.
pub open spec fn update_texts(updates: Seq<(String, String)>) -> Seq<(Seq<char>, Seq<char>)> {
    updates.map_values(|u: (String, String)| (u.0@, u.1@))
}

/// A wallpaper that was added is found by its id if that is a new one, and taking it out
/// again leaves the library as it was.
pub proof fn law_remove_undoes_add(library: Seq<EntryView>, entry: EntryView)
    requires
        place_of_id(library, entry.id) is None,
    ensures
        ({
            let added = library.push(with_normalized(entry));
            &&& place_of_id(added, entry.id) == Some(library.len() as int)
            &&& added[library.len() as int] == with_normalized(entry)
            &&& added.remove(library.len() as int) == library
        }),
{
    let added = library.push(with_normalized(entry));
    assert(added.drop_last() =~= library);
    assert(added.remove(library.len() as int) =~= library);
}

/// Adding a wallpaper does not change which wallpaper an id already stands for.
pub proof fn law_add_keeps_ids(library: Seq<EntryView>, entry: EntryView, id: Seq<char>)
    requires
        place_of_id(library, id) is Some,
    ensures
        place_of_id(library.push(with_normalized(entry)), id) == place_of_id(library, id),
{
    assert(library.push(with_normalized(entry)).drop_last() =~= library);
}

/// Changing thumbnails changes nothing but thumbnails: there are as many wallpapers as
/// before, and each keeps everything else.
pub proof fn law_thumbnails_change_nothing_else(
    library: Seq<EntryView>,
    updates: Seq<(Seq<char>, Seq<char>)>,
)
    ensures
        ({
            let after = with_thumbnails(library, updates).0;
            &&& after.len() == library.len()
            &&& forall|i: int|
                0 <= i < library.len() ==> (#[trigger] after[i]) == (EntryView {
                    thumbnail: after[i].thumbnail,
                    ..library[i]
                })
        }),
    decreases updates.len(),
{
    if updates.len() > 0 {
        law_thumbnails_change_nothing_else(library, updates.drop_last());
        let before = with_thumbnails(library, updates.drop_last()).0;
        law_place_of_path(before, normalized(updates.last().0));
    }
}

/// However the path of a wallpaper's file is written, its thumbnail can be changed: paths
/// are the same if their forms for comparison are.
pub proof fn law_any_spelling_finds(
    library: Seq<EntryView>,
    i: int,
    file_path: Seq<char>,
    thumbnail: Seq<char>,
)
    requires
        all_normalized(library),
        0 <= i < library.len(),
        normalized(library[i].file_path) == normalized(file_path),
    ensures
        with_thumbnail(library, file_path, thumbnail) is Some,
{
    law_place_of_path(library, normalized(file_path));
}

/// No change of the settings is lost: the mark goes only when they were written as they
/// are, and a failure to write them is reported.
pub proof fn law_no_change_is_lost<C, E>(
    before: ManagerView<C, E>,
    saved: Result<u128, MirrorStarError>,
    after: ManagerView<C, E>,
    r: Result<(), MirrorStarError>,
)
    requires
        before.dirty,
        is_config_saved(before, saved, after, r),
    ensures
        after.config == before.config,
        after.dirty <==> saved is Err,
        r is Err <==> saved is Err,
{
}

/// The settings of a manager are in range, so they come back as they are from a file that
/// gives back what was written.
pub proof fn law_written_config_comes_back(
    path: Seq<char>,
    config: AppConfig,
    r: (AppConfig, Option<ConfigLoadError>),
)
    requires
        config.in_range(),
        is_accepted_config(path, Ok(config), r),
    ensures
        r.0 == config,
        r.1 is None,
{
    settings::law_validate_keeps_valid(config);
}

/// The wallpapers of a manager come back as they are from a file that gives back what was
/// written, though the paths for comparison are not written.
pub proof fn law_written_library_comes_back(
    path: Seq<char>,
    library: Seq<EntryView>,
    parsed: WallpaperLibrary,
    r: (WallpaperLibrary, Option<ConfigLoadError>),
)
    requires
        all_normalized(library),
        parsed@.len() == library.len(),
        forall|i: int|
            0 <= i < library.len() ==> (EntryView {
                normalized_path: library[i].normalized_path,
                ..#[trigger] parsed@[i]
            }) == library[i],
        is_accepted_library(path, Ok(parsed), r),
    ensures
        r.0@ == library,
        r.1 is None,
{
    assert forall|i: int| 0 <= i < library.len() implies r.0@[i] == library[i] by {
        let e = parsed@[i];
        assert(e.file_path == library[i].file_path);
        assert(r.0@[i] == with_normalized(e));
    }
    assert(r.0@ =~= library);
}

/// A change of one thumbnail is what a batch of one change does, and a batch never finds
/// more wallpapers than it has changes.
pub proof fn law_batch(
    library: Seq<EntryView>,
    updates: Seq<(Seq<char>, Seq<char>)>,
    file_path: Seq<char>,
    thumbnail: Seq<char>,
)
    ensures
        with_thumbnails(library, updates).1 <= updates.len(),
        with_thumbnails(library, seq![(file_path, thumbnail)]) == match with_thumbnail(
            library,
            file_path,
            thumbnail,
        ) {
            Some(after) => (after, 1nat),
            None => (library, 0nat),
        },
    decreases updates.len(),
{
    let one = seq![(file_path, thumbnail)];
    assert(one.drop_last() =~= Seq::<(Seq<char>, Seq<char>)>::empty());
    assert(one.last() == (file_path, thumbnail));
    assert(with_thumbnails(library, one.drop_last()) == (library, 0nat));
    if updates.len() > 0 {
        law_batch(library, updates.drop_last(), file_path, thumbnail);
    }
}

/// A file that was seen in a directory.
#[derive(Debug)]
pub struct SeenFile {
    /// Its path.
    pub path: String,
    /// It is a file and no directory.
    pub is_file: bool,
    /// Its size, if that could be found out.
    pub size: Option<u64>,
}

/// What was seen in a directory. Nothing is seen in one that does not exist.
#[derive(Debug)]
pub struct SeenDir {
    /// What it holds, as far as it could be read.
    pub files: Vec<SeenFile>,
    /// Why it could not be read to its end, in the system's own words.
    pub failure: Option<String>,
}

/// Whether this is a file without contents.
pub open spec fn is_empty_file(file: SeenFile) -> bool {
    file.is_file && file.size == Some(0u64)
}

/// The paths of the files without contents, in the order in which they were seen.
pub open spec fn empty_files(files: Seq<SeenFile>) -> Seq<Seq<char>>
    decreases files.len(),
{
    if files.len() == 0 {
        Seq::empty()
    } else if is_empty_file(files.last()) {
        empty_files(files.drop_last()).push(files.last().path@)
    } else {
        empty_files(files.drop_last())
    }
}

/// What some texts hold.
pub open spec fn texts_of(texts: Seq<String>) -> Seq<Seq<char>> {
    texts.map_values(|s: String| s@)
}

/// The paths of the thumbnails without contents, which are to be removed.
pub fn zero_byte_thumbnails(files: &Vec<SeenFile>) -> (r: Vec<String>)
    ensures
        texts_of(r@) == empty_files(files@),
{
    let mut found: Vec<String> = Vec::new();
    let mut i: usize = 0;
    assert(texts_of(found@) =~= empty_files(files@.take(0)));
    while i < files.len()
        invariant
            i <= files.len(),
            texts_of(found@) == empty_files(files@.take(i as int)),
        decreases files.len() - i,
    {
        assert(files@.take(i + 1).drop_last() =~= files@.take(i as int));
        let ghost before = found@;
        let empty = match files[i].size {
            Some(n) => n == 0,
            None => false,
        };
        if files[i].is_file && empty {
            found.push(files[i].path.clone());
            assert(texts_of(found@) =~= texts_of(before).push(files@[i as int].path@));
        }
        i += 1;
    }
    assert(files@.take(i as int) =~= files@);
    found
}

/// Whether a file name is that of a lock.
pub open spec fn is_lock_name(name: Seq<char>) -> bool {
    paths::name_extension(name) == Some("lock"@)
}

/// Whether some file among these is what a lock with this stem belongs to: one that has the
/// stem for its name, or one that is no lock and has the same stem.
pub open spec fn has_main_file(names: Seq<Seq<char>>, stem: Seq<char>) -> bool {
    ||| names.contains(stem)
    ||| exists|i: int|
        0 <= i < names.len() && !is_lock_name(#[trigger] names[i]) && paths::name_stem(names[i])
            == stem
}

/// Whether a file is a lock that no file belongs to.
pub open spec fn is_orphan_lock(names: Seq<Seq<char>>, name: Seq<char>) -> bool {
    is_lock_name(name) && !has_main_file(names, paths::name_stem(name))
}

/// The first of these files that are locks no file among `all` belongs to, in order.
pub open spec fn orphan_locks(all: Seq<Seq<char>>, names: Seq<Seq<char>>) -> Seq<Seq<char>>
    decreases names.len(),
{
    if names.len() == 0 {
        Seq::empty()
    } else if is_orphan_lock(all, names.last()) {
        orphan_locks(all, names.drop_last()).push(names.last())
    } else {
        orphan_locks(all, names.drop_last())
    }
}

/// Whether this is the name of a lock.
fn names_lock(name: &str) -> (r: bool)
    ensures
        r == is_lock_name(name@),
{
    match paths::extension_of_name(name) {
        Some(e) => text::same_text(e.as_str(), "lock"),
        None => false,
    }
}

/// Whether some file is what a lock with this stem belongs to.
fn main_file_exists(names: &Vec<String>, stem: &str) -> (r: bool)
    ensures
        r == has_main_file(texts_of(names@), stem@),
{
    let ghost all = texts_of(names@);
    let mut i: usize = 0;
    while i < names.len()
        invariant
            i <= names.len(),
            all == texts_of(names@),
            forall|j: int|
                0 <= j < i ==> (#[trigger] all[j]) != stem@ && (is_lock_name(all[j])
                    || paths::name_stem(all[j]) != stem@),
        decreases names.len() - i,
    {
        let name = names[i].as_str();
        assert(all[i as int] == name@);
        if text::same_text(name, stem) {
            assert(all.contains(stem@));
            return true;
        }
        if !names_lock(name) {
            let own = paths::stem_of_name(name);
            if text::same_text(own.as_str(), stem) {
                return true;
            }
        }
        i += 1;
    }
    assert(!all.contains(stem@));
    false
}

/// The names of the locks that no file belongs to, among the names of all files of a
/// directory. They are to be removed.
pub fn orphan_lock_files(names: &Vec<String>) -> (r: Vec<String>)
    ensures
        texts_of(r@) == orphan_locks(texts_of(names@), texts_of(names@)),
{
    let ghost all = texts_of(names@);
    let mut found: Vec<String> = Vec::new();
    let mut i: usize = 0;
    assert(texts_of(found@) =~= orphan_locks(all, all.take(0)));
    while i < names.len()
        invariant
            i <= names.len(),
            all == texts_of(names@),
            texts_of(found@) == orphan_locks(all, all.take(i as int)),
        decreases names.len() - i,
    {
        assert(all.take(i + 1).drop_last() =~= all.take(i as int));
        assert(all.take(i + 1).last() == names@[i as int]@);
        let ghost before = found@;
        let name = names[i].as_str();
        if names_lock(name) {
            let stem = paths::stem_of_name(name);
            if !main_file_exists(names, stem.as_str()) {
                found.push(names[i].clone());
                assert(texts_of(found@) =~= texts_of(before).push(names@[i as int]@));
            }
        }
        i += 1;
    }
    assert(all.take(i as int) =~= all);
    found
}

/// How often something succeeded.
pub open spec fn successes(done: Seq<bool>) -> nat
    decreases done.len(),
{
    if done.len() == 0 {
        0
    } else {
        successes(done.drop_last()) + if done.last() {
            1nat
        } else {
            0nat
        }
    }
}

/// Whether `done` says for each of these files how an attempt to remove it went.
pub open spec fn are_removals<F: Fn(String) -> bool>(
    remove: F,
    paths: Seq<Seq<char>>,
    done: Seq<bool>,
) -> bool {
    &&& done.len() == paths.len()
    &&& forall|i: int| 0 <= i < paths.len() ==> is_removal(remove, paths[i], #[trigger] done[i])
}

/// Whether an attempt to remove this file can go like this.
pub open spec fn is_removal<F: Fn(String) -> bool>(remove: F, path: Seq<char>, done: bool) -> bool {
    exists|s: String| s@ == path && #[trigger] remove.ensures((s,), done)
}

/// Removes some files by `remove`, and tells how many could be removed.
fn remove_all<F: Fn(String) -> bool>(paths: Vec<String>, remove: &F) -> (r: usize)
    requires
        forall|s: String|
            texts_of(paths@).contains(s@) ==> #[trigger] remove.requires((s,)),
    ensures
        r <= paths.len(),
        exists|done: Seq<bool>| #[trigger]
            are_removals(*remove, texts_of(paths@), done) && r == successes(done),
{
    let ghost all = texts_of(paths@);
    let ghost mut done: Seq<bool> = Seq::empty();
    let mut count: usize = 0;
    let mut i: usize = 0;
    while i < paths.len()
        invariant
            i <= paths.len(),
            count <= i,
            all == texts_of(paths@),
            done.len() == i,
            count == successes(done),
            forall|s: String| all.contains(s@) ==> #[trigger] remove.requires((s,)),
            forall|j: int| 0 <= j < i ==> is_removal(*remove, all[j], #[trigger] done[j]),
        decreases paths.len() - i,
    {
        let path = paths[i].clone();
        let ghost s = path;
        assert(all[i as int] == s@);
        let removed = remove(path);
        assert(remove.ensures((s,), removed));
        assert(is_removal(*remove, all[i as int], removed));
        let ghost before = done;
        proof {
            done = done.push(removed);
            assert(done.drop_last() =~= before);
            assert(forall|j: int| 0 <= j < i ==> #[trigger] done[j] == before[j]);
        }
        if removed {
            count += 1;
        }
        i += 1;
    }
    assert(are_removals(*remove, all, done));
    count
}

/// The locks to remove from a directory, for the names of the files seen in it.
pub open spec fn locks_to_remove(dir: Seq<char>, seen: Option<Vec<String>>) -> Seq<Seq<char>> {
    match seen {
        Some(names) => joined_all(dir, orphan_locks(texts_of(names@), texts_of(names@))),
        None => Seq::empty(),
    }
}

/// The path of each of these files of a directory.
pub open spec fn joined_all(dir: Seq<char>, names: Seq<Seq<char>>) -> Seq<Seq<char>> {
    names.map_values(|n: Seq<char>| paths::joined(dir, n))
}

impl<C, E> ConfigManager<C, E> {
    /// The directory of the thumbnails.
    pub fn thumbnails_dir(&self) -> (r: String)
        ensures
            r@ == paths::joined(self@.dir, "thumbnails"@),
    {
        paths::join(self.dir.as_str(), "thumbnails")
    }

    /// Removes, by `remove`, thumbnails without contents. `thumbnails` is what was seen in
    /// the directory of the thumbnails; if it could not be read to its end, that is an error
    /// once what was seen is dealt with. Tells how many could be removed.
    pub fn cleanup_zero_byte_thumbnails<F: Fn(String) -> bool>(
        &self,
        thumbnails: SeenDir,
        remove: &F,
    ) -> (r: Result<usize, MirrorStarError>)
        requires
            forall|s: String|
                empty_files(thumbnails.files@).contains(s@) ==> #[trigger] remove.requires((s,)),
        ensures
            exists|done: Seq<bool>| #[trigger]
                are_removals(*remove, empty_files(thumbnails.files@), done)
                    && match thumbnails.failure {
                    None => r matches Ok(n) && n == successes(done) && n <= empty_files(
                        thumbnails.files@,
                    ).len(),
                    Some(e) => r matches Err(x) && x@ == (ErrorKind::Io, e@),
                },
    {
        let empty = zero_byte_thumbnails(&thumbnails.files);
        let n = remove_all(empty, remove);
        match thumbnails.failure {
            None => Ok(n),
            Some(e) => Err(MirrorStarError::Io(e)),
        }
    }

    /// Removes, by `remove`, locks that no file belongs to. `names` are the names of the
    /// files in the directory of the settings, unless it could not be read. Tells how many
    /// could be removed.
    pub fn cleanup_orphan_lock_files<F: Fn(String) -> bool>(
        &self,
        names: Option<Vec<String>>,
        remove: &F,
    ) -> (r: Result<usize, MirrorStarError>)
        requires
            forall|s: String|
                locks_to_remove(self@.dir, names).contains(s@) ==> #[trigger] remove.requires((s,)),
        ensures
            exists|done: Seq<bool>| #[trigger]
                are_removals(*remove, locks_to_remove(self@.dir, names), done) && (r matches Ok(n)
                    && n == successes(done) && n <= locks_to_remove(self@.dir, names).len()),
    {
        match names {
            None => {
                let nothing: Vec<String> = Vec::new();
                assert(texts_of(nothing@) =~= locks_to_remove(self@.dir, None));
                let n = remove_all(nothing, remove);
                Ok(n)
            },
            Some(all) => {
                let locks = orphan_lock_files(&all);
                let ghost wanted = joined_all(self.dir@, texts_of(locks@));
                let mut found: Vec<String> = Vec::new();
                let mut i: usize = 0;
                while i < locks.len()
                    invariant
                        i <= locks.len(),
                        wanted == joined_all(self.dir@, texts_of(locks@)),
                        texts_of(found@) == wanted.take(i as int),
                    decreases locks.len() - i,
                {
                    let ghost before = found@;
                    found.push(paths::join(self.dir.as_str(), locks[i].as_str()));
                    assert(texts_of(found@) =~= texts_of(before).push(wanted[i as int]));
                    assert(wanted.take(i + 1) =~= wanted.take(i as int).push(wanted[i as int]));
                    i += 1;
                }
                assert(wanted.take(i as int) =~= wanted);
                assert(texts_of(found@) == locks_to_remove(self@.dir, Some(all)));
                Ok(remove_all(found, remove))
            },
        }
    }

    /// Removes, by `remove`, thumbnails without contents and, unless the directory of the
    /// thumbnails could not be read, locks that no file belongs to. Tells how many files
    /// could be removed.
    pub fn cleanup_corrupted_thumbnails<F: Fn(String) -> bool>(
        &self,
        thumbnails: SeenDir,
        names: Option<Vec<String>>,
        remove: &F,
    ) -> (r: Result<usize, MirrorStarError>)
        requires
            forall|s: String|
                empty_files(thumbnails.files@).contains(s@) || (thumbnails.failure is None
                    && locks_to_remove(self@.dir, names).contains(s@)) ==> #[trigger]
                    remove.requires((s,)),
            thumbnails.failure is None ==> empty_files(thumbnails.files@).len() + locks_to_remove(
                self@.dir,
                names,
            ).len() <= usize::MAX,
        ensures
            exists|a: Seq<bool>| #[trigger]
                are_removals(*remove, empty_files(thumbnails.files@), a)
                    && match thumbnails.failure {
                    Some(e) => r matches Err(x) && x@ == (ErrorKind::Io, e@),
                    None => exists|b: Seq<bool>| #[trigger]
                        are_removals(*remove, locks_to_remove(self@.dir, names), b) && (
                        r matches Ok(n) && n == successes(a) + successes(b)),
                },
    {
        let removed = match self.cleanup_zero_byte_thumbnails(thumbnails, remove) {
            Ok(n) => n,
            Err(e) => return Err(e),
        };
        let locks = match self.cleanup_orphan_lock_files(names, remove) {
            Ok(n) => n,
            Err(e) => return Err(e),
        };
        Ok(removed + locks)
    }
}

/// The locks to be removed are those that no file belongs to, and no others.
pub proof fn law_orphan_locks(all: Seq<Seq<char>>, names: Seq<Seq<char>>, name: Seq<char>)
    ensures
        orphan_locks(all, names).contains(name) <==> names.contains(name) && is_orphan_lock(
            all,
            name,
        ),
    decreases names.len(),
{
    if names.len() > 0 {
        let rest = names.drop_last();
        law_orphan_locks(all, rest, name);
        let found = orphan_locks(all, rest);
        if names.contains(name) {
            let i = choose|i: int| 0 <= i < names.len() && names[i] == name;
            if i < rest.len() {
                assert(rest[i] == name);
                assert(rest.contains(name));
            }
        }
        if rest.contains(name) {
            let i = choose|i: int| 0 <= i < rest.len() && rest[i] == name;
            assert(names[i] == name);
        }
        assert(names[names.len() - 1] == names.last());
        if is_orphan_lock(all, names.last()) {
            let more = found.push(names.last());
            assert(more[found.len() as int] == names.last());
            if found.contains(name) {
                let i = choose|i: int| 0 <= i < found.len() && found[i] == name;
                assert(more[i] == name);
            }
            if more.contains(name) {
                let i = choose|i: int| 0 <= i < more.len() && more[i] == name;
                if i < found.len() {
                    assert(found[i] == name);
                }
            }
        }
    }
}

/// The lock of a file that is there is never removed, unless that file is a lock itself.
pub proof fn law_lock_in_use_is_kept(names: Seq<Seq<char>>, main: Seq<char>)
    requires
        names.contains(main),
        !is_lock_name(main),
    ensures
        !is_orphan_lock(names, paths::name_stem(main) + ".lock"@),
{
    reveal_strlit(".lock");
    reveal_strlit("lock");
    let stem = paths::name_stem(main);
    let lock = stem + ".lock"@;
    let i = choose|i: int| 0 <= i < names.len() && names[i] == main;
    assert(!is_lock_name(names[i]) && paths::name_stem(names[i]) == stem);
    assert(lock.drop_last().drop_last().drop_last().drop_last() =~= stem.push('.'));
    let a = lock.drop_last();
    let b = a.drop_last();
    let c = b.drop_last();
    let d = c.drop_last();
    assert(paths::last_dot(d) == stem.len()) by {
        assert(d.last() == '.');
    }
    assert(paths::last_dot(c) == stem.len());
    assert(paths::last_dot(b) == stem.len());
    assert(paths::last_dot(a) == stem.len());
    assert(paths::last_dot(lock) == stem.len());
    assert(lock.take(stem.len() as int) =~= stem);
    if stem.len() > 0 {
        assert(paths::name_stem(lock) == stem);
    }
}

/// How far writing a file has come.
#[derive(Clone, Copy, Debug, PartialEq, Eq, Structural)]
pub enum WriteStage {
    /// The new contents are being written into a file of their own.
    Writing,
    /// That file is being given the name of the file to write.
    Renaming,
}

/// What is to be done next.
#[derive(Debug)]
pub enum WriteNext {
    /// Give the file with the new contents its name.
    Rename,
    /// Nothing: the file is written.
    Finished,
    /// Remove the file with the new contents; then this is the error.
    Discard(MirrorStarError),
}

/// A file that is being written so that it holds either its old or its new contents: these
/// go into a file of their own, which then takes its place. Meanwhile a lock is held.
#[derive(Debug)]
pub struct AtomicWrite {
    /// The path of the file to write.
    pub path: String,
    /// The path of the lock.
    pub lock_path: String,
    /// The path of the file for the new contents.
    pub temp_path: String,
    /// How far it has come.
    pub stage: WriteStage,
}

/// Starts to write the file at `path`.
pub fn atomic_write(path: &str) -> (r: AtomicWrite)
    ensures
        r.path@ == path@,
        r.lock_path@ == paths::with_extension(path@, "lock"@),
        r.temp_path@ == paths::with_extension(path@, "tmp"@),
        r.stage == WriteStage::Writing,
{
    AtomicWrite {
        path: String::from_str(path),
        lock_path: paths::path_with_extension(path, "lock"),
        temp_path: paths::path_with_extension(path, "tmp"),
        stage: WriteStage::Writing,
    }
}

impl AtomicWrite {
    /// What follows on how the current stage went. A failure, in the system's own words,
    /// ends it, and no file with new contents is left behind.
    pub fn on_done(&mut self, result: Result<(), String>) -> (r: WriteNext)
        ensures
            final(self).path == old(self).path,
            final(self).lock_path == old(self).lock_path,
            final(self).temp_path == old(self).temp_path,
            match result {
                Err(e) => {
                    &&& r matches WriteNext::Discard(x) && x@ == (ErrorKind::Io, e@)
                    &&& final(self).stage == old(self).stage
                },
                Ok(()) => if old(self).stage == WriteStage::Writing {
                    r is Rename && final(self).stage == WriteStage::Renaming
                } else {
                    r is Finished && final(self).stage == old(self).stage
                },
            },
    {
        match result {
            Err(e) => WriteNext::Discard(MirrorStarError::Io(e)),
            Ok(()) => match self.stage {
                WriteStage::Writing => {
                    self.stage = WriteStage::Renaming;
                    WriteNext::Rename
                },
                WriteStage::Renaming => WriteNext::Finished,
            },
        }
    }
}

/// What is to be told after the files were loaded anew.
#[derive(Debug)]
pub struct ReloadOutcome {
    /// The files that could not be understood, to be told in this order.
    pub errors: Vec<ConfigLoadError>,
    /// The change is to be told.
    pub changed: bool,
    /// Why nothing was loaded.
    pub failure: Option<MirrorStarError>,
}

/// What loading both files anew does: if both could be loaded, they replace what was there;
/// if one could not, nothing changes.
pub open spec fn is_reload<C, E>(
    before: ManagerView<C, E>,
    config: Result<(AppConfig, Option<ConfigLoadError>), MirrorStarError>,
    library: Result<(WallpaperLibrary, Option<ConfigLoadError>), MirrorStarError>,
    after: ManagerView<C, E>,
    outcome: ReloadOutcome,
) -> bool {
    match (config, library) {
        (Ok(c), Ok(l)) => {
            let errors = load_errors(c.1, l.1);
            let told = before.on_config_error is Some;
            &&& after == (ManagerView {
                config: c.0,
                library: l.0@,
                pending: if told {
                    before.pending
                } else {
                    before.pending + errors
                },
                ..before
            })
            &&& outcome.errors@ == if told {
                errors
            } else {
                Seq::empty()
            }
            &&& outcome.changed == before.on_config_changed is Some
            &&& outcome.failure is None
        },
        (Err(e), _) => {
            &&& after == before
            &&& outcome.errors@.len() == 0
            &&& !outcome.changed
            &&& outcome.failure == Some(e)
        },
        (_, Err(e)) => {
            &&& after == before
            &&& outcome.errors@.len() == 0
            &&& !outcome.changed
            &&& outcome.failure == Some(e)
        },
    }
}

/// Whatever happens, settings and wallpapers are replaced together or not at all.
pub proof fn law_reload_all_or_nothing<C, E>(
    before: ManagerView<C, E>,
    config: Result<(AppConfig, Option<ConfigLoadError>), MirrorStarError>,
    library: Result<(WallpaperLibrary, Option<ConfigLoadError>), MirrorStarError>,
    after: ManagerView<C, E>,
    outcome: ReloadOutcome,
)
    requires
        is_reload(before, config, library, after, outcome),
    ensures
        if config is Ok && library is Ok {
            &&& after.config == config->Ok_0.0
            &&& after.library == library->Ok_0.0@
        } else {
            after == before
        },
        // No error is lost: each is told or kept to be told later.
        (config is Ok && library is Ok) ==> after.pending + outcome.errors@ == before.pending
            + load_errors(config->Ok_0.1, library->Ok_0.1),
{
    if config is Ok && library is Ok {
        let errors = load_errors(config->Ok_0.1, library->Ok_0.1);
        assert(after.pending + outcome.errors@ =~= before.pending + errors);
    }
}

impl<C, E> ConfigManager<C, E> {
    /// Takes over what was loaded of both files.
    pub fn apply_reload(
        &mut self,
        config: Result<(AppConfig, Option<ConfigLoadError>), MirrorStarError>,
        library: Result<(WallpaperLibrary, Option<ConfigLoadError>), MirrorStarError>,
    ) -> (r: ReloadOutcome)
        requires
            config matches Ok(c) ==> c.0.in_range(),
            library matches Ok(l) ==> all_normalized(l.0@),
        ensures
            is_reload(old(self)@, config, library, final(self)@, r),
    {
        proof {
            use_type_invariant(&*self);
        }
        let ghost before = self@;
        let (new_config, config_error) = match config {
            Ok(c) => c,
            Err(e) => {
                return ReloadOutcome { errors: Vec::new(), changed: false, failure: Some(e) };
            },
        };
        let (new_library, library_error) = match library {
            Ok(l) => l,
            Err(e) => {
                return ReloadOutcome { errors: Vec::new(), changed: false, failure: Some(e) };
            },
        };
        let ghost errors = load_errors(config_error, library_error);
        self.config = new_config;
        self.library = new_library;
        let mut told: Vec<ConfigLoadError> = Vec::new();
        if let Some(e) = config_error {
            if let Some(x) = self.notify_config_error(e) {
                told.push(x);
            }
        }
        if let Some(e) = library_error {
            if let Some(x) = self.notify_config_error(e) {
                told.push(x);
            }
        }
        proof {
            if before.on_config_error is Some {
                assert(told@ =~= errors);
            } else {
                assert(told@ =~= Seq::<ConfigLoadError>::empty());
                assert(self@.pending =~= before.pending + errors);
            }
        }
        ReloadOutcome { errors: told, changed: self.on_config_changed.is_some(), failure: None }
    }

    /// Loads both files anew.
    pub fn reload_config_and_library<
        P: FnOnce(String) -> Result<AppConfig, String>,
        Q: FnOnce(String) -> Result<WallpaperLibrary, String>,
    >(
        &mut self,
        config_read: FileRead,
        parse_config: P,
        library_read: FileRead,
        parse_library: Q,
    ) -> (r: ReloadOutcome)
        requires
            forall|s: String|
                is_text_of(config_read, s) ==> #[trigger] parse_config.requires((s,)),
            forall|s: String|
                is_text_of(library_read, s) ==> #[trigger] parse_library.requires((s,)),
        ensures
            exists|
                config: Result<(AppConfig, Option<ConfigLoadError>), MirrorStarError>,
                library: Result<(WallpaperLibrary, Option<ConfigLoadError>), MirrorStarError>,
            |
                #[trigger] is_loaded_config(
                    paths::joined(old(self)@.dir, "config.toml"@),
                    config_read,
                    parse_config,
                    config,
                ) && #[trigger] is_loaded_library(
                    paths::joined(old(self)@.dir, "wallpapers.toml"@),
                    library_read,
                    parse_library,
                    library,
                ) && is_reload(old(self)@, config, library, final(self)@, r),
    {
        proof {
            use_type_invariant(&*self);
        }
        let config = load_config(self.config_path.as_str(), config_read, parse_config);
        let library = load_library(self.library_path.as_str(), library_read, parse_library);
        let ghost c = config;
        let ghost l = library;
        assert(is_loaded_config(self.config_path@, config_read, parse_config, c));
        assert(is_loaded_library(self.library_path@, library_read, parse_library, l));
        self.apply_reload(config, library)
    }

    /// Starts to watch the files and to write changes from time to time. `watcher` says how
    /// setting up the watcher went.
    pub fn start_watching(&mut self, watcher: Result<(), String>) -> (r: Result<
        (),
        MirrorStarError,
    >)
        ensures
            match watcher {
                Ok(()) => r is Ok && final(self)@ == (ManagerView {
                    watching: true,
                    periodic_save_running: true,
                    stop_signal: true,
                    ..old(self)@
                }),
                Err(e) => {
                    &&& r matches Err(x) && x@ == (ErrorKind::FileWatcher, e@)
                    &&& final(self)@ == old(self)@
                },
            },
    {
        proof {
            use_type_invariant(&*self);
        }
        if let Err(e) = watcher {
            return Err(MirrorStarError::FileWatcher(e));
        }
        self.watching = true;
        self.start_periodic_save();
        Ok(())
    }

    /// Changes are to be written from time to time.
    pub fn start_periodic_save(&mut self)
        ensures
            final(self)@ == (ManagerView {
                periodic_save_running: true,
                stop_signal: true,
                ..old(self)@
            }),
    {
        proof {
            use_type_invariant(&*self);
        }
        self.periodic_save_running = true;
        self.stop_signal = true;
    }

    /// The periodic writing could not be started after all.
    pub fn cleanup_after_periodic_save_spawn_failure(&mut self)
        ensures
            final(self)@ == (ManagerView {
                periodic_save_running: false,
                stop_signal: false,
                ..old(self)@
            }),
    {
        proof {
            use_type_invariant(&*self);
        }
        self.periodic_save_running = false;
        self.stop_signal = false;
    }

    /// Ends the periodic writing. Tells whether there is something to be told to end.
    pub fn shutdown_periodic_save(&mut self) -> (r: bool)
        ensures
            r == old(self)@.stop_signal,
            final(self)@ == (ManagerView {
                periodic_save_running: false,
                stop_signal: false,
                ..old(self)@
            }),
    {
        proof {
            use_type_invariant(&*self);
        }
        let signal = self.stop_signal;
        self.periodic_save_running = false;
        self.stop_signal = false;
        signal
    }

    /// Ends the watching of the files.
    pub fn stop_watching(&mut self)
        ensures
            final(self)@ == (ManagerView { watching: false, ..old(self)@ }),
    {
        proof {
            use_type_invariant(&*self);
        }
        self.watching = false;
    }

    /// Whether the files are watched.
    pub fn is_watching(&self) -> (r: bool)
        ensures
            r == self@.watching,
    {
        self.watching
    }

    /// Whether changes are written from time to time.
    pub fn is_periodic_save_running(&self) -> (r: bool)
        ensures
            r == self@.periodic_save_running,
    {
        self.periodic_save_running
    }

    /// Whether there is something to be told to end the periodic writing.
    pub fn has_stop_signal(&self) -> (r: bool)
        ensures
            r == self@.stop_signal,
    {
        self.stop_signal
    }

    /// Whether the settings have changed since they were written.
    pub fn is_dirty(&self) -> (r: bool)
        ensures
            r == self@.dirty,
    {
        self.dirty
    }

    /// Whether the wallpapers have changed since they were written.
    pub fn is_library_dirty(&self) -> (r: bool)
        ensures
            r == self@.library_dirty,
    {
        self.library_dirty
    }

    /// When either file was last written.
    pub fn last_internal_save(&self) -> (r: Option<u128>)
        ensures
            r == self@.last_internal_save,
    {
        self.last_internal_save
    }

    /// Writes the settings by `write`, which tells the time, if they have changed. Unlike
    /// other ways of writing them this does not make later changes wait.
    pub fn save_config_periodically<F: FnOnce(AppConfig) -> Result<u128, MirrorStarError>>(
        &mut self,
        write: F,
    ) -> (r: Result<(), MirrorStarError>)
        requires
            old(self)@.dirty ==> write.requires((old(self)@.config,)),
        ensures
            if old(self)@.dirty {
                exists|saved: Result<u128, MirrorStarError>| #[trigger]
                    write.ensures((old(self)@.config,), saved) && match saved {
                        Ok(t) => r is Ok && final(self)@ == (ManagerView {
                            dirty: false,
                            last_internal_save: Some(t),
                            ..old(self)@
                        }),
                        Err(e) => r == Err::<(), MirrorStarError>(e) && final(self)@ == old(self)@,
                    }
            } else {
                r is Ok && final(self)@ == old(self)@
            },
    {
        proof {
            use_type_invariant(&*self);
        }
        let config = self.config;
        let mut dirty: bool = self.dirty;
        let save = move || -> (saved: Result<u128, MirrorStarError>)
            requires
                write.requires((config,)),
            ensures
                write.ensures((config,), saved),
            { write(config) };
        let r = save_with_dirty_rollback(&mut dirty, save);
        self.dirty = dirty;
        match r {
            Ok(Some(t)) => {
                self.last_internal_save = Some(t);
                Ok(())
            },
            Ok(None) => Ok(()),
            Err(e) => Err(e),
        }
    }
}

/// Whatever a path is made of, normalizing lowers its case and then makes every slash a
/// backslash, so that none is left; every other character stays.
pub proof fn law_normalized_path(path: Seq<char>)
    ensures
        normalized(path).len() == text::lowercase(path).len(),
        forall|i: int|
            0 <= i < normalized(path).len() ==> #[trigger] normalized(path)[i]
                == if text::lowercase(path)[i] == '/' {
                '\\'
            } else {
                text::lowercase(path)[i]
            },
        !normalized(path).contains('/'),
{
}

/// In the normalized form of a path of ASCII characters, letters from A to Z are small, each
/// slash is a backslash, and every other character stays.
pub proof fn law_ascii_normalized_path(path: Seq<char>)
    ensures
        ascii_normalized(path).len() == path.len(),
        forall|i: int|
            0 <= i < path.len() ==> {
                let c = #[trigger] ascii_normalized(path)[i];
                &&& path[i] == '/' ==> c == '\\'
                &&& 65 <= path[i] as int <= 90 ==> c as int == path[i] as int + 32
                &&& path[i] != '/' && !(65 <= path[i] as int <= 90) ==> c == path[i]
            },
{
}

/// An entry is kept as it is but for its normalized path, which is made from its path.
pub proof fn law_entry_kept(entry: EntryView)
    ensures
        ({
            let r = with_normalized(entry);
            &&& r.id == entry.id && r.file_path == entry.file_path
            &&& r.wallpaper_type == entry.wallpaper_type && r.display_id == entry.display_id
            &&& r.added_at == entry.added_at && r.thumbnail == entry.thumbnail
            &&& r.file_size == entry.file_size && r.metadata == entry.metadata
            &&& r.normalized_path == normalized(entry.file_path)
        }),
{
}

/// A thumbnail goes to the first entry with that path, in whatever spelling, and to no
/// other; if there is none, nothing is changed.
pub proof fn law_thumbnail_set(
    library: Seq<EntryView>,
    file_path: Seq<char>,
    thumbnail: Seq<char>,
    i: int,
)
    requires
        0 <= i <= library.len(),
        i < library.len() ==> library[i].normalized_path == normalized(file_path),
        forall|j: int|
            0 <= j < i ==> (#[trigger] library[j]).normalized_path != normalized(file_path),
    ensures
        i == library.len() ==> with_thumbnail(library, file_path, thumbnail) is None,
        i < library.len() ==> {
            &&& with_thumbnail(library, file_path, thumbnail) matches Some(after)
            &&& after.len() == library.len()
            &&& after[i].thumbnail == thumbnail
            &&& after[i] == (EntryView { thumbnail: after[i].thumbnail, ..library[i] })
            &&& forall|j: int| 0 <= j < library.len() && j != i ==> #[trigger] after[j] == library[j]
        },
{
    law_place_of_path(library, normalized(file_path));
    if let Some(k) = place_of_path(library, normalized(file_path)) {
        if i < library.len() && i < k {
            assert(library[i].normalized_path != normalized(file_path));
        }
        if k < i {
            assert(library[k].normalized_path != normalized(file_path));
        }
    } else if i < library.len() {
        assert(library[i].normalized_path != normalized(file_path));
    }
}

/// Updates are made one after the other: making some and then others is making them all, and
/// the numbers of those that were made add up.
pub proof fn law_batches_join(
    library: Seq<EntryView>,
    first: Seq<(Seq<char>, Seq<char>)>,
    second: Seq<(Seq<char>, Seq<char>)>,
)
    ensures
        ({
            let (between, m) = with_thumbnails(library, first);
            let (after, n) = with_thumbnails(between, second);
            with_thumbnails(library, first + second) == (after, m + n)
        }),
    decreases second.len(),
{
    if second.len() == 0 {
        assert(first + second =~= first);
    } else {
        law_batches_join(library, first, second.drop_last());
        assert((first + second).drop_last() =~= first + second.drop_last());
        assert((first + second).last() == second.last());
    }
}

/// Where the data lies: where the environment says if it says anything, else beside the
/// program if that place is known, else in the user's directory under "mirrorstar", else
/// in the working directory.
pub proof fn law_data_root(places: DataPlaces)
    ensures
        places.environment matches Some(e) ==> e@.len() > 0 ==> resolved_root(places) == e@,
        !(places.environment matches Some(e) && e@.len() > 0) ==> {
            &&& places.program_dir matches Some(d) ==> resolved_root(places) == d@
            &&& places.program_dir is None ==> (places.user_data_dir matches Some(u)
                ==> resolved_root(places) == paths::joined(u@, "mirrorstar"@))
            &&& places.program_dir is None && places.user_data_dir is None ==> resolved_root(places)
                == "."@
        },
{
}

/// A file that is no larger than allowed and valid UTF-8 is read as a whole: the text has
/// exactly its bytes. One that is larger is refused whatever it holds, and one that is not
/// valid too. A file that is not there is no failure.
pub proof fn law_bounded_text(read: FileRead, max_size: u64)
    ensures
        match read {
            FileRead::Missing => bounded_text(read, max_size) == Ok::<
                Option<Seq<char>>,
                (ErrorKind, Seq<char>),
            >(None),
            FileRead::Failed(e) => bounded_text(read, max_size) == Err::<
                Option<Seq<char>>,
                (ErrorKind, Seq<char>),
            >((ErrorKind::Io, e@)),
            FileRead::Data(bytes) => {
                &&& bytes@.len() <= max_size && valid_utf8(bytes@) ==> {
                    &&& bounded_text(read, max_size) matches Ok(t)
                    &&& t is Some
                    &&& encode_utf8(t->0) == bytes@
                }
                &&& bytes@.len() > max_size ==> (bounded_text(read, max_size) matches Err(e) && e.0
                    == ErrorKind::ConfigParse)
                &&& bytes@.len() <= max_size && !valid_utf8(bytes@) ==> (bounded_text(
                    read,
                    max_size,
                ) matches Err(e) && e.0 == ErrorKind::Io)
            },
        },
{
    broadcast use vstd::utf8::group_utf8_lib;

    if let FileRead::Data(bytes) = read {
        if valid_utf8(bytes@) {
            decode_utf8_encode_utf8(bytes@);
        }
    }
}

/// Settings are not written again within 300 milliseconds after they were.
pub proof fn law_debounced(last: u128, now: u128)
    ensures
        !debounced(None, now),
        debounced(Some(last), now) <==> now - last < 300_000_000,
{
}

/// What goes wrong with the settings is told before what goes wrong with the library, and
/// nothing else is told.
pub proof fn law_load_errors(config: ConfigLoadError, library: ConfigLoadError)
    ensures
        load_errors(None, None) == Seq::<ConfigLoadError>::empty(),
        load_errors(Some(config), None) == seq![config],
        load_errors(None, Some(library)) == seq![library],
        load_errors(Some(config), Some(library)) == seq![config, library],
{
    assert(load_errors(None, None) =~= Seq::<ConfigLoadError>::empty());
    assert(load_errors(Some(config), None) =~= seq![config]);
    assert(load_errors(None, Some(library)) =~= seq![library]);
    assert(load_errors(Some(config), Some(library)) =~= seq![config, library]);
}

/// A new manager holds what was loaded, has nothing to write, watches nothing, and keeps the
/// errors of loading to be told.
pub proof fn law_new_manager<C, E>(
    dir: Seq<char>,
    config: (AppConfig, Option<ConfigLoadError>),
    library: (WallpaperLibrary, Option<ConfigLoadError>),
)
    ensures
        ({
            let m = fresh_manager::<C, E>(dir, config, library);
            &&& m.dir == dir && m.config == config.0 && m.library == library.0@
            &&& !m.dirty && !m.library_dirty && !m.watching && !m.periodic_save_running
                && !m.stop_signal
            &&& m.last_save_time is None && m.last_internal_save is None
            &&& m.on_config_changed is None && m.on_config_error is None
            &&& config.1 matches Some(e) ==> m.pending.len() > 0 && m.pending[0] == e
            &&& library.1 matches Some(e) ==> m.pending.len() > 0 && m.pending.last() == e
            &&& config.1 is None && library.1 is None ==> m.pending.len() == 0
        }),
{
}

/// Writing the library changes nothing but when the program itself last wrote a file; a
/// failure changes nothing at all and is reported.
pub proof fn law_library_saved<C, E>(
    before: ManagerView<C, E>,
    saved: Result<u128, MirrorStarError>,
    after: ManagerView<C, E>,
    r: Result<(), MirrorStarError>,
)
    requires
        is_library_saved(before, saved, after, r),
    ensures
        after.config == before.config && after.library == before.library,
        after.dirty == before.dirty && after.library_dirty == before.library_dirty,
        after.last_save_time == before.last_save_time && after.pending == before.pending,
        saved matches Ok(t) ==> r is Ok && after.last_internal_save == Some(t),
        saved matches Err(e) ==> after == before && r == Err::<(), MirrorStarError>(e),
{
}

/// Writing the settings is noted, both as the last time they were written and as the last
/// time that the program itself wrote a file. Neither the settings nor the library change.
pub proof fn law_config_saved<C, E>(
    before: ManagerView<C, E>,
    saved: Result<u128, MirrorStarError>,
    after: ManagerView<C, E>,
    r: Result<(), MirrorStarError>,
)
    requires
        is_config_saved(before, saved, after, r),
    ensures
        after.config == before.config && after.library == before.library,
        after.library_dirty == before.library_dirty && after.pending == before.pending,
        saved matches Ok(t) ==> r is Ok && !after.dirty && after.last_save_time == Some(t)
            && after.last_internal_save == Some(t),
        saved matches Err(e) ==> after == before && r == Err::<(), MirrorStarError>(e),
{
}

/// Of each file it is decided by itself whether it is empty, and the empty ones are listed in
/// order: a file whose size is known to be zero. What is no file is never listed.
pub proof fn law_empty_files(a: Seq<SeenFile>, b: Seq<SeenFile>, file: SeenFile)
    ensures
        empty_files(a + b) == empty_files(a) + empty_files(b),
        file.is_file && file.size == Some(0u64) ==> empty_files(seq![file]) == seq![file.path@],
        !(file.is_file && file.size == Some(0u64)) ==> empty_files(seq![file]) == Seq::<
            Seq<char>,
        >::empty(),
    decreases b.len(),
{
    assert(seq![file].drop_last() =~= Seq::<SeenFile>::empty());
    assert(empty_files(Seq::<SeenFile>::empty()) =~= Seq::<Seq<char>>::empty());
    assert(seq![file].last() == file);
    if file.is_file && file.size == Some(0u64) {
        assert(empty_files(seq![file]) =~= seq![file.path@]);
    }
    if b.len() == 0 {
        assert(a + b =~= a);
        assert(empty_files(a) + empty_files(b) =~= empty_files(a));
    } else {
        law_empty_files(a, b.drop_last(), file);
        assert((a + b).drop_last() =~= a + b.drop_last());
        assert(empty_files(a + b) =~= empty_files(a) + empty_files(b));
    }
}

/// How many succeeded adds up over the parts of a list; one that did counts as one.
pub proof fn law_successes(a: Seq<bool>, b: Seq<bool>)
    ensures
        successes(a + b) == successes(a) + successes(b),
        successes(seq![true]) == 1,
        successes(seq![false]) == 0,
    decreases b.len(),
{
    assert(seq![true].drop_last() =~= Seq::<bool>::empty());
    assert(seq![false].drop_last() =~= Seq::<bool>::empty());
    assert(successes(Seq::<bool>::empty()) == 0);
    if b.len() == 0 {
        assert(a + b =~= a);
    } else {
        law_successes(a, b.drop_last());
        assert((a + b).drop_last() =~= a + b.drop_last());
    }
}

/// A name that ends in ".lock" behind at least one character is that of a lock. It is an
/// orphan exactly if there is no file with the name before that ending, and none that is no
/// lock and has that name before its own extension.
pub proof fn law_orphan_lock(names: Seq<Seq<char>>, stem: Seq<char>)
    requires
        stem.len() > 0,
    ensures
        is_lock_name(stem + ".lock"@),
        is_orphan_lock(names, stem + ".lock"@) <==> {
            &&& forall|i: int| 0 <= i < names.len() ==> #[trigger] names[i] != stem
            &&& forall|i: int|
                0 <= i < names.len() && paths::name_extension(#[trigger] names[i]) != Some("lock"@)
                    ==> paths::name_stem(names[i]) != stem
        },
{
    reveal_strlit(".lock");
    reveal_strlit("lock");
    assert(stem + ".lock"@ =~= stem + seq!['.'] + "lock"@);
    assert(!"lock"@.contains('.'));
    paths::law_name_made_of_parts(stem, "lock"@);
    if forall|i: int| 0 <= i < names.len() ==> #[trigger] names[i] != stem {
        assert(!names.contains(stem));
    }
}

/// The orphans are listed in order: those of a list are those of its first part and then those
/// of the rest.
pub proof fn law_orphan_locks_in_order(all: Seq<Seq<char>>, a: Seq<Seq<char>>, b: Seq<Seq<char>>)
    ensures
        orphan_locks(all, a + b) == orphan_locks(all, a) + orphan_locks(all, b),
    decreases b.len(),
{
    if b.len() == 0 {
        assert(a + b =~= a);
        assert(orphan_locks(all, a) + orphan_locks(all, b) =~= orphan_locks(all, a));
    } else {
        law_orphan_locks_in_order(all, a, b.drop_last());
        assert((a + b).drop_last() =~= a + b.drop_last());
        assert(orphan_locks(all, a + b) =~= orphan_locks(all, a) + orphan_locks(all, b));
    }
}

/// What is taken over of settings that were read: those settings, checked, without an error;
/// of settings that cannot be understood, the defaults, with an error that names the file.
pub proof fn law_settings_taken_over(
    path: Seq<char>,
    parsed: Result<AppConfig, String>,
    r: (AppConfig, Option<ConfigLoadError>),
)
    requires
        is_accepted_config(path, parsed, r),
    ensures
        r.0.in_range(),
        parsed is Ok <==> r.1 is None,
        parsed matches Ok(c) ==> c.in_range() ==> r.0 == c,
        r.1 matches Some(e) ==> e.path@ == path && e.kind == ConfigKind::Config && parsed is Err
            && e.message@ == (parsed->Err_0)@,
{
    if let Ok(c) = parsed {
        settings::law_validated_in_range(c);
        settings::law_validate_keeps_valid(c);
    } else {
        settings::law_default_in_range();
    }
}

/// What is taken over of a library that was read: each entry, in order; of one that cannot be
/// understood nothing, with an error that names the file.
pub proof fn law_library_taken_over(
    path: Seq<char>,
    parsed: Result<WallpaperLibrary, String>,
    r: (WallpaperLibrary, Option<ConfigLoadError>),
)
    requires
        is_accepted_library(path, parsed, r),
    ensures
        parsed is Ok <==> r.1 is None,
        parsed matches Ok(l) ==> {
            &&& r.0@.len() == l@.len()
            &&& forall|i: int|
                0 <= i < l@.len() ==> (#[trigger] r.0@[i]).id == l@[i].id && r.0@[i].file_path
                    == l@[i].file_path && r.0@[i].thumbnail == l@[i].thumbnail
                    && r.0@[i].normalized_path == normalized(l@[i].file_path)
        },
        r.1 matches Some(e) ==> e.path@ == path && e.kind == ConfigKind::Library && r.0@.len() == 0,
{
}

/// A file of settings is read only up to one megabyte, and then as exactly the text that it
/// holds.
pub proof fn law_config_file_text(read: FileRead, s: String)
    requires
        is_text_of(read, s),
    ensures
        read matches FileRead::Data(bytes) && bytes@.len() <= 1024 * 1024 && encode_utf8(s@)
            == bytes@,
{
    law_bounded_text(read, MAX_CONFIG_FILE_SIZE);
}

/// What loading settings leads to: without a file the defaults, and no error; a file that
/// cannot be read is a failure; settings that were loaded are within their limits.
pub proof fn law_config_loaded<P: FnOnce(String) -> Result<AppConfig, String>>(
    path: Seq<char>,
    read: FileRead,
    parse: P,
    r: Result<(AppConfig, Option<ConfigLoadError>), MirrorStarError>,
)
    requires
        is_loaded_config(path, read, parse, r),
    ensures
        read is Missing ==> (r matches Ok(l) && l.0 == settings::default_config() && l.1 is None),
        read is Failed ==> r is Err,
        r matches Err(e) ==> e@.0 == ErrorKind::Io || e@.0 == ErrorKind::ConfigParse,
        r matches Ok(l) ==> l.0.in_range(),
        r matches Ok(l) ==> (l.1 matches Some(e) ==> e.path@ == path && e.kind
            == ConfigKind::Config),
{
    settings::law_default_in_range();
    if let Ok(l) = r {
        if let Ok(Some(t)) = bounded_text(read, MAX_CONFIG_FILE_SIZE) {
            let (s, parsed) = choose|s: String, parsed: Result<AppConfig, String>|
                s@ == t && #[trigger] parse.ensures((s,), parsed) && is_accepted_config(
                    path,
                    parsed,
                    l,
                );
            law_settings_taken_over(path, parsed, l);
        }
    }
}

/// What loading the library leads to: without a file an empty one, and no error; a file that
/// cannot be read is a failure; all paths of a library that was loaded are normalized.
pub proof fn law_library_loaded<P: FnOnce(String) -> Result<WallpaperLibrary, String>>(
    path: Seq<char>,
    read: FileRead,
    parse: P,
    r: Result<(WallpaperLibrary, Option<ConfigLoadError>), MirrorStarError>,
)
    requires
        is_loaded_library(path, read, parse, r),
    ensures
        read is Missing ==> (r matches Ok(l) && l.0@.len() == 0 && l.1 is None),
        read is Failed ==> r is Err,
        r matches Err(e) ==> e@.0 == ErrorKind::Io || e@.0 == ErrorKind::ConfigParse,
        r matches Ok(l) ==> forall|i: int|
            0 <= i < l.0@.len() ==> (#[trigger] l.0@[i]).normalized_path == normalized(
                l.0@[i].file_path,
            ),
        r matches Ok(l) ==> (l.1 matches Some(e) ==> e.path@ == path && e.kind
            == ConfigKind::Library),
{
    if let Ok(l) = r {
        if let Ok(Some(t)) = bounded_text(read, MAX_CONFIG_FILE_SIZE) {
            let (s, parsed) = choose|s: String, parsed: Result<WallpaperLibrary, String>|
                s@ == t && #[trigger] parse.ensures((s,), parsed) && is_accepted_library(
                    path,
                    parsed,
                    l,
                );
            law_library_taken_over(path, parsed, l);
        }
    }
}

/// The locks that are removed from a directory are orphans of that directory, each under its
/// path there, and every orphan is among them. Without a list of the files none is removed.
pub proof fn law_locks_to_remove(dir: Seq<char>, names: Vec<String>, name: Seq<char>, i: int)
    ensures
        locks_to_remove(dir, None).len() == 0,
        texts_of(names@).contains(name) && is_orphan_lock(texts_of(names@), name)
            ==> locks_to_remove(dir, Some(names)).contains(paths::joined(dir, name)),
        0 <= i < locks_to_remove(dir, Some(names)).len() ==> exists|n: Seq<char>|
            texts_of(names@).contains(n) && is_orphan_lock(texts_of(names@), n) && locks_to_remove(
                dir,
                Some(names),
            )[i] == #[trigger] paths::joined(dir, n),
{
    let all = texts_of(names@);
    let orphans = orphan_locks(all, all);
    let removed = locks_to_remove(dir, Some(names));
    law_orphan_locks(all, all, name);
    if all.contains(name) && is_orphan_lock(all, name) {
        let k = choose|k: int| 0 <= k < orphans.len() && orphans[k] == name;
        assert(removed[k] == paths::joined(dir, name));
    }
    if 0 <= i < removed.len() {
        law_orphan_locks(all, all, orphans[i]);
        assert(orphans.contains(orphans[i]));
        assert(removed[i] == paths::joined(dir, orphans[i]));
    }
}

/// What loading both files anew tells: each error at once if someone listens, and else it is
/// kept to be told later; the change exactly if someone listens for that and both files
/// could be loaded; and else why nothing was. Nothing but the settings, the library and the
/// errors that are kept changes.
pub proof fn law_reload_tells<C, E>(
    before: ManagerView<C, E>,
    config: Result<(AppConfig, Option<ConfigLoadError>), MirrorStarError>,
    library: Result<(WallpaperLibrary, Option<ConfigLoadError>), MirrorStarError>,
    after: ManagerView<C, E>,
    outcome: ReloadOutcome,
)
    requires
        is_reload(before, config, library, after, outcome),
    ensures
        config is Ok && library is Ok <==> outcome.failure is None,
        config matches Err(e) ==> outcome.failure == Some(e),
        config is Ok ==> (library matches Err(e) ==> outcome.failure == Some(e)),
        outcome.changed <==> config is Ok && library is Ok && before.on_config_changed is Some,
        before.on_config_error is Some ==> after.pending == before.pending,
        before.on_config_error is None ==> outcome.errors@.len() == 0,
        outcome.failure is Some ==> outcome.errors@.len() == 0,
        after.dir == before.dir && after.dirty == before.dirty && after.library_dirty
            == before.library_dirty,
        after.last_save_time == before.last_save_time && after.last_internal_save
            == before.last_internal_save,
        after.on_config_changed == before.on_config_changed && after.on_config_error
            == before.on_config_error,
        after.watching == before.watching && after.periodic_save_running
            == before.periodic_save_running && after.stop_signal == before.stop_signal,
{
}

} // verus!
