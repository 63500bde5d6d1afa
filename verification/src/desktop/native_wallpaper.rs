//! Still pictures that the system itself shows.
use vstd::prelude::*;
use vstd::string::*;
use crate::encoding;
use crate::error::{ErrorKind, MirrorStarError};
use crate::paths;
use crate::text;
use crate::wallpaper::ScalingMode;

verus! {

/// The extensions of the picture files that the system can show, in small letters.
pub open spec fn is_native_extension(ext: Seq<char>) -> bool {
    ||| ext == "jpg"@
    ||| ext == "jpeg"@
    ||| ext == "png"@
    ||| ext == "bmp"@
    ||| ext == "tif"@
    ||| ext == "tiff"@
    ||| ext == "dib"@
}

/// Whether `ext`, in small letters, is the extension of a picture that the system can
/// show.
pub fn native_extension(ext: &str) -> (r: bool)
    ensures
        r == is_native_extension(ext@),
{
    text::same_text(ext, "jpg") || text::same_text(ext, "jpeg") || text::same_text(ext, "png")
        || text::same_text(ext, "bmp") || text::same_text(ext, "tif") || text::same_text(
        ext,
        "tiff",
    ) || text::same_text(ext, "dib")
}

/// Whether the system can show the picture file, going by its extension.
pub fn is_native_supported(file_path: &str) -> (r: bool)
    ensures
        r == is_native_extension(paths::lower_extension(file_path@)),
        paths::has_ascii_extension(file_path@) ==> r == is_native_extension(
            paths::ascii_lower_extension(file_path@),
        ),
{
    native_extension(paths::lower_extension_of(file_path).as_str())
}

/// The values of WallPaperStyle and TileWallpaper for a scaling mode.
pub open spec fn style_of(mode: ScalingMode) -> (Seq<char>, Seq<char>) {
    match mode {
        ScalingMode::Center => ("0"@, "0"@),
        ScalingMode::Stretch => ("2"@, "0"@),
        ScalingMode::Fit => ("6"@, "0"@),
        ScalingMode::Fill => ("10"@, "0"@),
        ScalingMode::Original => ("0"@, "0"@),
    }
}

/// The values of WallPaperStyle and TileWallpaper for a scaling mode.
pub fn scaling_mode_to_style(scaling_mode: ScalingMode) -> (r: (&'static str, &'static str))
    ensures
        (r.0@, r.1@) == style_of(scaling_mode),
{
    match scaling_mode {
        ScalingMode::Center => ("0", "0"),
        ScalingMode::Stretch => ("2", "0"),
        ScalingMode::Fit => ("6", "0"),
        ScalingMode::Fill => ("10", "0"),
        ScalingMode::Original => ("0", "0"),
    }
}

/// Whether a text holds the character that ends texts for the system.
pub open spec fn has_nul(s: Seq<char>) -> bool {
    s.contains('\0')
}

/// The path for the system, in UTF-16 and ended by zero, or the error for a path that
/// the system would cut short.
pub open spec fn is_wide_path(r: Result<Vec<u16>, MirrorStarError>, path: Seq<char>) -> bool {
    if has_nul(path) {
        r matches Err(e) && e@ == (ErrorKind::InvalidPath, "路径含嵌入式 NUL 字符："@ + path)
    } else {
        r matches Ok(w) && w@ == encoding::utf16_of(path).push(0u16)
    }
}

/// `path` as the system takes it.
pub fn wide_path(path: &str) -> (r: Result<Vec<u16>, MirrorStarError>)
    ensures
        is_wide_path(r, path@),
{
    let cs = text::chars_of(path);
    let mut i: usize = 0;
    while i < cs.len()
        invariant
            cs@ == path@,
            i <= cs.len(),
            forall|k: int| 0 <= k < i ==> path@[k] != '\0',
        decreases cs.len() - i,
    {
        if cs[i] == '\0' {
            assert(path@[i as int] == '\0');
            return Err(
                MirrorStarError::InvalidPath {
                    reason: text::join2("路径含嵌入式 NUL 字符：", path),
                },
            );
        }
        i += 1;
    }
    let mut wide = encoding::encode_utf16(path);
    wide.push(0);
    Ok(wide)
}

/// The picture that is to be shown by the system, and where its setting stands.
///
/// The caller reads the old scaling values, then does what it is told and reports how
/// it went: the new values are written, the picture is set, and if that fails the
/// old values are written back.
pub struct NativeWallpaper {
    image_path: String,
    scaling_mode: ScalingMode,
    old_values: Option<(String, String)>,
}

/// What to do next to show a picture.
#[derive(Debug)]
pub enum NativeStep {
    /// Write these values of WallPaperStyle and TileWallpaper.
    WriteStyle {
        /// WallPaperStyle.
        style: String,
        /// TileWallpaper.
        tile: String,
    },
    /// Hand this path to the system.
    SetImage {
        /// The path as the system takes it.
        path: Vec<u16>,
    },
    /// Write the old values back, then report this error whether or not that worked.
    RollBack {
        /// WallPaperStyle.
        style: String,
        /// TileWallpaper.
        tile: String,
        /// Why the picture could not be set.
        error: MirrorStarError,
    },
    /// Done, with this result.
    Finished(Result<(), MirrorStarError>),
}

/// What stands in the system's settings: both scaling values.
pub type StyleValues = (Seq<char>, Seq<char>);

/// What to do once setting the picture failed with this error: write the old values
/// back if they are known.
pub open spec fn is_roll_back(
    step: NativeStep,
    old_values: Option<(String, String)>,
    error: (ErrorKind, Seq<char>),
) -> bool {
    match old_values {
        Some((s, t)) => step matches NativeStep::RollBack { style, tile, error: e } && style@ == s@
            && tile@ == t@ && e@ == error,
        None => step matches NativeStep::Finished(Err(e)) && e@ == error,
    }
}

/// Starts to show a picture. The picture goes to every display, so an error if one
/// display is named; if none is, `read_old` reads the old scaling values, as far as
/// possible.
pub fn set_native_wallpaper<F: FnOnce() -> Option<(String, String)>>(
    image_path: &str,
    scaling_mode: ScalingMode,
    monitor_id: Option<&str>,
    read_old: F,
) -> (r: Result<NativeWallpaper, MirrorStarError>)
    requires
        monitor_id is None ==> read_old.requires(()),
    ensures
        match monitor_id {
            Some(id) => r matches Err(e) && e@ == (
                ErrorKind::DesktopIntegration,
                "原生壁纸模式不支持指定显示器: "@ + id@,
            ),
            None => r matches Ok(w) && w.image_path() == image_path@ && w.scaling_mode()
                == scaling_mode && read_old.ensures((), w.old_values()),
        },
{
    match monitor_id {
        Some(id) => Err(
            MirrorStarError::DesktopIntegration(
                text::join2("原生壁纸模式不支持指定显示器: ", id),
            ),
        ),
        None => {
            let old_values = read_old();
            Ok(NativeWallpaper { image_path: String::from_str(image_path), scaling_mode, old_values })
        },
    }
}

impl NativeWallpaper {
    /// The path of the picture.
    pub closed spec fn image_path(self) -> Seq<char> {
        self.image_path@
    }

    /// How the picture is to be fitted.
    pub closed spec fn scaling_mode(self) -> ScalingMode {
        self.scaling_mode
    }

    /// The scaling values from before, if they could be read.
    pub closed spec fn old_values(self) -> Option<(String, String)> {
        self.old_values
    }

    /// First the new scaling values are written.
    pub fn start(&self) -> (r: NativeStep)
        ensures
            r matches NativeStep::WriteStyle { style, tile } && (style@, tile@) == style_of(
                self.scaling_mode(),
            ),
    {
        let (style, tile) = scaling_mode_to_style(self.scaling_mode);
        NativeStep::WriteStyle { style: String::from_str(style), tile: String::from_str(tile) }
    }

    /// Goes on once the new values were written: the picture is set. Without the new
    /// values nothing more happens.
    pub fn on_style_written(self, result: Result<(), MirrorStarError>) -> (r: (Self, NativeStep))
        ensures
            r.0 == self,
            match result {
                Err(e) => r.1 matches NativeStep::Finished(Err(f)) && f@ == e@,
                Ok(_) => if has_nul(self.image_path()) {
                    is_roll_back(
                        r.1,
                        self.old_values(),
                        (
                            ErrorKind::InvalidPath,
                            "路径含嵌入式 NUL 字符："@ + self.image_path(),
                        ),
                    )
                } else {
                    r.1 matches NativeStep::SetImage { path } && path@ == encoding::utf16_of(
                        self.image_path(),
                    ).push(0u16)
                },
            },
    {
        match result {
            Err(e) => (self, NativeStep::Finished(Err(e))),
            Ok(_) => match wide_path(self.image_path.as_str()) {
                Ok(path) => (self, NativeStep::SetImage { path }),
                Err(e) => {
                    let step = self.roll_back(e);
                    (self, step)
                },
            },
        }
    }

    /// Ends once the system took the picture. If it did not, the old values are written
    /// back and the system's words are reported.
    pub fn on_image_set(&self, result: Result<(), String>) -> (r: NativeStep)
        ensures
            match result {
                Ok(_) => r matches NativeStep::Finished(Ok(_)),
                Err(t) => is_roll_back(
                    r,
                    self.old_values(),
                    (ErrorKind::DesktopIntegration, "设置壁纸失败: "@ + t@),
                ),
            },
    {
        match result {
            Ok(_) => NativeStep::Finished(Ok(())),
            Err(t) => self.roll_back(
                MirrorStarError::DesktopIntegration(text::join2("设置壁纸失败: ", t.as_str())),
            ),
        }
    }

    /// Writes the old values back if they are known.
    fn roll_back(&self, error: MirrorStarError) -> (r: NativeStep)
        ensures
            is_roll_back(r, self.old_values(), error@),
    {
        match &self.old_values {
            Some((style, tile)) => NativeStep::RollBack {
                style: style.clone(),
                tile: tile.clone(),
                error,
            },
            None => NativeStep::Finished(Err(error)),
        }
    }
}

/// The error for a registry key that cannot be opened.
pub fn registry_open_failure(error: &str) -> (r: MirrorStarError)
    ensures
        r@ == (ErrorKind::DesktopIntegration, "打开注册表失败: "@ + error@),
{
    MirrorStarError::DesktopIntegration(text::join2("打开注册表失败: ", error))
}

/// The error for a registry value that cannot be written.
pub fn registry_write_failure(name: &str, error: &str) -> (r: MirrorStarError)
    ensures
        r@ == (ErrorKind::DesktopIntegration, "写入 "@ + name@ + " 失败: "@ + error@),
{
    let mut m = String::from_str("写入 ");
    m.append(name);
    m.append(" 失败: ");
    m.append(error);
    MirrorStarError::DesktopIntegration(m)
}

/// The result of clearing the system's wallpaper.
pub fn clear_native_wallpaper(result: Result<(), String>) -> (r: Result<(), MirrorStarError>)
    ensures
        match result {
            Ok(_) => r is Ok,
            Err(t) => r matches Err(e) && e@ == (
                ErrorKind::DesktopIntegration,
                "清除壁纸失败: "@ + t@,
            ),
        },
{
    match result {
        Ok(_) => Ok(()),
        Err(t) => Err(
            MirrorStarError::DesktopIntegration(text::join2("清除壁纸失败: ", t.as_str())),
        ),
    }
}

/// What stands in the system's settings after a step was carried out with success.
pub open spec fn carried_out(values: StyleValues, step: NativeStep) -> StyleValues {
    match step {
        NativeStep::WriteStyle { style, tile } => (style@, tile@),
        NativeStep::RollBack { style, tile, .. } => (style@, tile@),
        _ => values,
    }
}

/// A picture that the system refused leaves the scaling values as they were: whatever the
/// first step wrote, carrying out the last one restores the values that were read
/// before.
pub proof fn law_roll_back_restores(
    before: StyleValues,
    old_values: Option<(String, String)>,
    first: NativeStep,
    last: NativeStep,
    error: (ErrorKind, Seq<char>),
)
    requires
        old_values matches Some((s, t)) && (s@, t@) == before,
        is_roll_back(last, old_values, error),
    ensures
        carried_out(carried_out(before, first), last) == before,
{
}

/// Pictures are never tiled, whatever the scaling mode.
pub proof fn law_never_tiled(mode: ScalingMode)
    ensures
        style_of(mode).1 == "0"@,
{
}

/// The system itself shows exactly these kinds of image files.
pub proof fn law_native_extensions(ext: Seq<char>)
    ensures
        is_native_extension(ext) <==> seq![
            "jpg"@,
            "jpeg"@,
            "png"@,
            "bmp"@,
            "tif"@,
            "tiff"@,
            "dib"@,
        ].contains(ext),
{
    let all = seq!["jpg"@, "jpeg"@, "png"@, "bmp"@, "tif"@, "tiff"@, "dib"@];
    assert(all[0] == "jpg"@ && all[1] == "jpeg"@ && all[2] == "png"@ && all[3] == "bmp"@ && all[4]
        == "tif"@ && all[5] == "tiff"@ && all[6] == "dib"@);
}

proof fn lemma_no_zero_units(s: Seq<char>)
    requires
        forall|i: int| 0 <= i < s.len() ==> s[i] != '\0',
    ensures
        forall|i: int| 0 <= i < encoding::utf16_of(s).len() ==> #[trigger] encoding::utf16_of(s)[i]
            != 0,
    decreases s.len(),
{
    if s.len() > 0 {
        let front = encoding::utf16_of(s.drop_last());
        let c = s[s.len() - 1];
        lemma_no_zero_units(s.drop_last());
        encoding::law_utf16_units(c);
        assert(c != '\0');
        assert forall|i: int| 0 <= i < encoding::utf16_of(s).len() implies
            #[trigger] encoding::utf16_of(s)[i] != 0 by {
            if i < front.len() {
                assert(encoding::utf16_of(s)[i] == front[i]);
            } else {
                assert(encoding::utf16_of(s)[i] == encoding::utf16_units(c)[i - front.len()]);
            }
        }
    }
}

/// A path is handed to the system so that it reads back the whole of it: in UTF-16, with a
/// zero at the end and nowhere else. A path that the system would cut short, because it has
/// a zero inside, is refused, and no other is.
pub proof fn law_wide_path(r: Result<Vec<u16>, MirrorStarError>, path: Seq<char>)
    requires
        is_wide_path(r, path),
    ensures
        r is Ok <==> forall|i: int| 0 <= i < path.len() ==> path[i] != '\0',
        r matches Ok(w) ==> {
            &&& w@.len() > 0 && w@.last() == 0
            &&& forall|i: int| 0 <= i < w@.len() - 1 ==> w@[i] != 0
            &&& encoding::text_of_utf16(w@.drop_last()) == path
        },
        r matches Err(e) ==> e@.0 == ErrorKind::InvalidPath,
{
    if forall|i: int| 0 <= i < path.len() ==> path[i] != '\0' {
        assert(!has_nul(path));
    }
    if let Ok(w) = r {
        assert forall|i: int| 0 <= i < path.len() implies path[i] != '\0' by {
            if path[i] == '\0' {
                assert(path.contains('\0'));
            }
        }
        lemma_no_zero_units(path);
        encoding::law_utf16_round_trip(path);
        assert(w@.drop_last() =~= encoding::utf16_of(path));
        assert forall|i: int| 0 <= i < w@.len() - 1 implies w@[i] != 0 by {
            assert(w@[i] == encoding::utf16_of(path)[i]);
        }
    }
}

/// After a failure the two values of before are written back and the failure is reported
/// after that; if they are not known, the failure is reported at once. It is never lost.
pub proof fn law_failure_is_told(
    step: NativeStep,
    old_values: Option<(String, String)>,
    error: (ErrorKind, Seq<char>),
)
    requires
        is_roll_back(step, old_values, error),
    ensures
        old_values is Some <==> step is RollBack,
        step matches NativeStep::RollBack { style, tile, error: e } ==> style@ == (old_values->0).0@
            && tile@ == (old_values->0).1@ && e@ == error,
        old_values is None ==> (step matches NativeStep::Finished(Err(e)) && e@ == error),
{
}

} // verus!
