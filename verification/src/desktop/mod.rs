//! Putting wallpaper windows behind the icons of the desktop.
use vstd::prelude::*;
use vstd::string::*;
use crate::config::manager::DisplayInfo;
use crate::config::settings::Arrangement;
use crate::encoding;
use crate::error::{ErrorKind, MirrorStarError};
use crate::keyed::StringMap;
use crate::text;

pub mod native_wallpaper;
pub mod window;
pub mod worker_w;

verus! {

/// The units before the first zero; all if there is none.
pub open spec fn until_zero(buf: Seq<u16>) -> Seq<u16>
    decreases buf.len(),
{
    if buf.len() == 0 || buf[0] == 0 {
        Seq::empty()
    } else {
        seq![buf[0]] + until_zero(buf.drop_first())
    }
}

/// What `until_zero` gives is the part before the first zero.
proof fn lemma_until_zero(buf: Seq<u16>, n: int)
    requires
        0 <= n <= buf.len(),
        forall|k: int| 0 <= k < n ==> buf[k] != 0,
        n < buf.len() ==> buf[n] == 0,
    ensures
        until_zero(buf) == buf.take(n),
    decreases buf.len(),
{
    if n > 0 {
        assert forall|k: int| 0 <= k < n - 1 implies buf.drop_first()[k] != 0 by {
            assert(buf.drop_first()[k] == buf[k + 1]);
        }
        lemma_until_zero(buf.drop_first(), n - 1);
        assert(until_zero(buf) =~= buf.take(n));
    } else {
        assert(until_zero(buf) =~= buf.take(n));
    }
}

/// The text in a buffer of UTF-16 units, up to the first zero.
pub fn extract_utf16_string(buf: &[u16]) -> (r: String)
    ensures
        r@ == encoding::text_of_utf16(until_zero(buf@)),
{
    let mut end: usize = 0;
    while end < buf.len() && buf[end] != 0
        invariant
            end <= buf.len(),
            forall|k: int| 0 <= k < end ==> buf@[k] != 0,
        decreases buf.len() - end,
    {
        end += 1;
    }
    proof {
        lemma_until_zero(buf@, end as int);
        assert(buf@.subrange(0, end as int) =~= buf@.take(end as int));
    }
    encoding::decode_utf16_lossy(vstd::slice::slice_subrange(buf, 0, end))
}

/// The number for dots per inch where the system does not tell.
pub const DEFAULT_DPI: u32 = 96;

/// What the system tells about a display.
#[derive(Debug)]
pub struct MonitorReport {
    /// The system's name for it, in UTF-16 up to the first zero.
    pub device: Vec<u16>,
    /// Where it lies on the virtual screen.
    pub rect: worker_w::Rect,
    /// The system's flags; the lowest bit marks the primary display.
    pub flags: u32,
    /// Its dots per inch, if the system tells.
    pub dpi: Option<u32>,
}

/// A signed number read as an unsigned one of 32 bits.
pub open spec fn as_unsigned(n: int) -> int {
    if n < 0 {
        n + 0x1_0000_0000
    } else {
        n
    }
}

/// A signed number read as an unsigned one of 32 bits.
fn to_unsigned(n: i32) -> (r: u32)
    ensures
        r == as_unsigned(n as int),
{
    let r: u32 = n as u32;
    assert(n >= 0 ==> r == n) by (bit_vector)
        requires
            r == n as u32,
    ;
    assert(n < 0 ==> r == n + 0x1_0000_0000) by (bit_vector)
        requires
            r == n as u32,
    ;
    r
}

/// Width and height of the rectangle can be expressed with 32 bits.
pub open spec fn measurable(rect: worker_w::Rect) -> bool {
    i32::MIN <= rect.right - rect.left <= i32::MAX && i32::MIN <= rect.bottom - rect.top
        <= i32::MAX
}

/// `info` describes the display with this device name, place, role and resolution, when
/// `before` displays were described before it.
pub open spec fn describes(
    info: DisplayInfo,
    before: nat,
    device: Seq<char>,
    rect: worker_w::Rect,
    is_primary: bool,
    dpi: u32,
) -> bool {
    &&& info.id@ == device
    &&& info.name@ == "显示器 "@ + text::decimal(before + 1)
    &&& info.width == as_unsigned(rect.right - rect.left)
    &&& info.height == as_unsigned(rect.bottom - rect.top)
    &&& info.x == rect.left
    &&& info.y == rect.top
    &&& info.is_primary == is_primary
    &&& info.dpi == dpi
    &&& info.current_wallpaper is None
}

/// The description of a display, when `displays_len` displays were described before it.
pub fn build_display_info(
    displays_len: usize,
    device_name: String,
    monitor_rect: worker_w::Rect,
    is_primary: bool,
    dpi: u32,
) -> (r: DisplayInfo)
    requires
        measurable(monitor_rect),
    ensures
        describes(r, displays_len as nat, device_name@, monitor_rect, is_primary, dpi),
{
    DisplayInfo {
        id: device_name,
        name: text::join2("显示器 ", text::decimal_text(displays_len as u128 + 1).as_str()),
        width: to_unsigned(monitor_rect.right - monitor_rect.left),
        height: to_unsigned(monitor_rect.bottom - monitor_rect.top),
        x: monitor_rect.left,
        y: monitor_rect.top,
        is_primary,
        dpi,
        current_wallpaper: None,
    }
}

/// The displays that the system told about.
pub open spec fn told(reports: Seq<Option<MonitorReport>>) -> Seq<MonitorReport>
    decreases reports.len(),
{
    if reports.len() == 0 {
        Seq::empty()
    } else {
        match reports.last() {
            Some(m) => told(reports.drop_last()).push(m),
            None => told(reports.drop_last()),
        }
    }
}

/// `info` describes the display that `report` is about.
pub open spec fn describes_report(info: DisplayInfo, before: nat, report: MonitorReport) -> bool {
    describes(
        info,
        before,
        encoding::text_of_utf16(until_zero(report.device@)),
        report.rect,
        report.flags % 2 == 1,
        match report.dpi {
            Some(d) => d,
            None => DEFAULT_DPI,
        },
    )
}

/// Width and height of every display can be expressed with 32 bits.
pub open spec fn all_measurable(reports: Seq<Option<MonitorReport>>) -> bool {
    forall|i: int|
        0 <= i < reports.len() ==> (#[trigger] reports[i] matches Some(m) ==> measurable(m.rect))
}

/// `displays` are the displays that the system told about, in order; none if going through
/// them failed.
pub open spec fn lists_displays(
    displays: Seq<DisplayInfo>,
    completed: bool,
    reports: Seq<Option<MonitorReport>>,
) -> bool {
    if completed {
        &&& displays.len() == told(reports).len()
        &&& forall|i: int|
            0 <= i < displays.len() ==> describes_report(
                #[trigger] displays[i],
                i as nat,
                told(reports)[i],
            )
    } else {
        displays.len() == 0
    }
}

/// The displays, in the order in which the system went through them. Those that it did not
/// tell about are left out; there are none if going through them failed.
pub fn enumerate_displays(completed: bool, reports: &Vec<Option<MonitorReport>>) -> (r: Vec<
    DisplayInfo,
>)
    requires
        all_measurable(reports@),
    ensures
        lists_displays(r@, completed, reports@),
{
    let mut out: Vec<DisplayInfo> = Vec::new();
    if !completed {
        return out;
    }
    let mut i: usize = 0;
    while i < reports.len()
        invariant
            i <= reports.len(),
            all_measurable(reports@),
            out@.len() == told(reports@.take(i as int)).len(),
            forall|k: int|
                0 <= k < out@.len() ==> describes_report(
                    #[trigger] out@[k],
                    k as nat,
                    told(reports@.take(i as int))[k],
                ),
        decreases reports.len() - i,
    {
        assert(reports@.take(i + 1).drop_last() =~= reports@.take(i as int));
        assert(reports@.take(i + 1).last() == reports@[i as int]);
        match &reports[i] {
            Some(m) => {
                let dpi = match m.dpi {
                    Some(d) => d,
                    None => DEFAULT_DPI,
                };
                let name = extract_utf16_string(m.device.as_slice());
                let info = build_display_info(out.len(), name, m.rect, m.flags % 2 == 1, dpi);
                out.push(info);
            },
            None => {},
        }
        i += 1;
    }
    assert(reports@.take(i as int) =~= reports@);
    out
}

/// How long a list of displays is used before it is made anew, in nanoseconds.
pub const DISPLAY_CACHE_TTL_NANOS: u128 = 5_000_000_000;

/// Keeps wallpaper windows behind the icons of the desktop.
pub struct DesktopIntegrator {
    progman: Option<usize>,
    workerw: Option<usize>,
    active: StringMap<(usize, Arrangement)>,
    original_wallpaper: Option<String>,
    initialized: bool,
    displays: Option<(Vec<DisplayInfo>, u128)>,
}

/// What to do next to take a wallpaper off a display.
#[derive(Debug)]
pub enum RemoveStep {
    /// Nothing: the display has no wallpaper any more.
    Done,
    /// See whether this window still exists.
    CheckWindow(usize),
    /// Take this window out of the wallpaper window.
    Detach(usize),
}

/// How the wallpaper from before comes back.
#[derive(Debug)]
pub enum RestoreStep {
    /// Hand this path to the system; if that fails, it is an error.
    Restore(Vec<u16>),
    /// Hand this path, if any, to the system; if that fails, nothing more is done.
    Refresh(Option<Vec<u16>>),
}

/// Whether a list of displays made at this time has to be made anew.
pub open spec fn displays_stale(made_at: Option<u128>, now: u128) -> bool {
    match made_at {
        Some(t) => crate::time::spec_elapsed(now, t) >= DISPLAY_CACHE_TTL_NANOS,
        None => true,
    }
}

impl Default for DesktopIntegrator {
    fn default() -> (r: Self)
        ensures
            r.is_new(None),
    {
        DesktopIntegrator::new(None)
    }
}

impl DesktopIntegrator {
    /// The program manager's window.
    pub closed spec fn progman(self) -> Option<usize> {
        self.progman
    }

    /// The wallpaper window.
    pub closed spec fn workerw(self) -> Option<usize> {
        self.workerw
    }

    /// The wallpapers: for each display its window and how wallpapers are spread.
    pub closed spec fn active(self) -> Map<Seq<char>, (usize, Arrangement)> {
        self.active@
    }

    /// The system's wallpaper from before.
    pub closed spec fn original_wallpaper(self) -> Option<String> {
        self.original_wallpaper
    }

    /// The wallpaper window was found at least once.
    pub closed spec fn initialized(self) -> bool {
        self.initialized
    }

    /// The list of displays and when it was made.
    pub closed spec fn cached_displays(self) -> Option<(Vec<DisplayInfo>, u128)> {
        self.displays
    }

    /// All but the wallpapers is the same.
    pub open spec fn same_but_active(self, other: Self) -> bool {
        &&& self.progman() == other.progman()
        &&& self.workerw() == other.workerw()
        &&& self.original_wallpaper() == other.original_wallpaper()
        &&& self.initialized() == other.initialized()
        &&& self.cached_displays() == other.cached_displays()
    }

    /// Nothing was found or put in place yet, and this is the system's wallpaper.
    pub open spec fn is_new(self, original_wallpaper: Option<String>) -> bool {
        &&& self.progman() is None
        &&& self.workerw() is None
        &&& self.active() == Map::<Seq<char>, (usize, Arrangement)>::empty()
        &&& self.original_wallpaper() == original_wallpaper
        &&& !self.initialized()
        &&& self.cached_displays() is None
    }

    /// Starts without a wallpaper window; remembers the system's wallpaper.
    pub fn new(original_wallpaper: Option<String>) -> (r: Self)
        ensures
            r.is_new(original_wallpaper),
    {
        DesktopIntegrator {
            progman: None,
            workerw: None,
            active: StringMap::new(),
            original_wallpaper,
            initialized: false,
            displays: None,
        }
    }

    /// The program manager's window and the wallpaper window, for the caller to see
    /// whether they still exist.
    pub fn handles(&self) -> (r: (Option<usize>, Option<usize>))
        ensures
            r == (self.progman(), self.workerw()),
    {
        (self.progman, self.workerw)
    }

    /// Whether wallpapers can be put into the wallpaper window: both windows were found
    /// and still exist.
    pub fn is_workerw_valid(&self, progman_exists: bool, workerw_exists: bool) -> (r: bool)
        ensures
            r == (self.progman() is Some && progman_exists && self.workerw() is Some
                && workerw_exists),
    {
        self.progman.is_some() && progman_exists && self.workerw.is_some() && workerw_exists
    }

    /// What comes of making sure that there is a wallpaper window.
    pub open spec fn is_made_ready<F: FnOnce() -> Result<(usize, usize), MirrorStarError>>(
        before: Self,
        valid: bool,
        search: F,
        after: Self,
        r: Result<Option<Vec<String>>, MirrorStarError>,
    ) -> bool {
        &&& after.active() == before.active()
        &&& after.original_wallpaper() == before.original_wallpaper()
        &&& after.cached_displays() == before.cached_displays()
        &&& if valid {
            &&& r matches Ok(None)
            &&& after == before
        } else {
            exists|found: Result<(usize, usize), MirrorStarError>| #[trigger]
                search.ensures((), found) && match found {
                    Err(e) => r == Err::<Option<Vec<String>>, MirrorStarError>(e) && after
                        == before,
                    Ok((progman, workerw)) => {
                        &&& after.progman() == Some(progman)
                        &&& after.workerw() == Some(workerw)
                        &&& after.initialized()
                        &&& r matches Ok(Some(ids)) && if before.initialized() {
                            let names = ids@.map_values(|s: String| s@);
                            &&& names.no_duplicates()
                            &&& forall|id: Seq<char>|
                                names.contains(id) <==> #[trigger] before.active().contains_key(id)
                        } else {
                            ids@.len() == 0
                        }
                    },
                }
        }
    }

    /// Makes sure that there is a wallpaper window. If `valid` says that there is, nothing
    /// happens. Else `search` looks for it once, and its windows are used from then on.
    /// If they replace older ones, the wallpapers of the displays returned have to be
    /// put into the new window.
    pub fn ensure_workerw_ready<F: FnOnce() -> Result<(usize, usize), MirrorStarError>>(
        &mut self,
        valid: bool,
        search: F,
    ) -> (r: Result<Option<Vec<String>>, MirrorStarError>)
        requires
            !valid ==> search.requires(()),
        ensures
            Self::is_made_ready(*old(self), valid, search, *final(self), r),
    {
        if valid {
            return Ok(None);
        }
        let was_initialized = self.initialized;
        match search() {
            Err(e) => Err(e),
            Ok((progman, workerw)) => {
                self.progman = Some(progman);
                self.workerw = Some(workerw);
                self.initialized = true;
                if was_initialized {
                    Ok(Some(self.active.ordered_keys()))
                } else {
                    Ok(Some(Vec::new()))
                }
            },
        }
    }

    /// Looks whether the wallpaper window has gone, as when the desktop was restarted, and
    /// makes sure that there is one. The result tells whether one was looked for, and which
    /// displays then need their wallpapers put into it.
    pub fn check_and_reinitialize<F: FnOnce() -> Result<(usize, usize), MirrorStarError>>(
        &mut self,
        valid: bool,
        search: F,
    ) -> (r: Result<Option<Vec<String>>, MirrorStarError>)
        requires
            !valid ==> search.requires(()),
        ensures
            Self::is_made_ready(*old(self), valid, search, *final(self), r),
    {
        self.ensure_workerw_ready(valid, search)
    }

    /// Makes sure that there is a wallpaper window. The result names the displays that need
    /// their wallpapers put into it.
    pub fn ensure_initialized<F: FnOnce() -> Result<(usize, usize), MirrorStarError>>(
        &mut self,
        valid: bool,
        search: F,
    ) -> (r: Result<Vec<String>, MirrorStarError>)
        requires
            !valid ==> search.requires(()),
        ensures
            exists|made: Result<Option<Vec<String>>, MirrorStarError>| #[trigger]
                Self::is_made_ready(*old(self), valid, search, *final(self), made) && match made {
                    Ok(Some(ids)) => r == Ok::<Vec<String>, MirrorStarError>(ids),
                    Ok(None) => r matches Ok(ids) && ids@.len() == 0,
                    Err(e) => r == Err::<Vec<String>, MirrorStarError>(e),
                },
    {
        if valid {
            let ghost nothing: Result<Option<Vec<String>>, MirrorStarError> = Ok(None);
            assert(Self::is_made_ready(*self, valid, search, *self, nothing));
            return Ok(Vec::new());
        }
        let made = self.ensure_workerw_ready(valid, search);
        let ghost outcome = made;
        assert(Self::is_made_ready(*old(self), valid, search, *self, outcome));
        match made {
            Ok(Some(ids)) => Ok(ids),
            Ok(None) => Ok(Vec::new()),
            Err(e) => Err(e),
        }
    }

    /// Takes note of how putting the wallpaper of a display into the new wallpaper window
    /// went: a wallpaper for which it failed is given up.
    pub fn reembedded(&mut self, display_id: &str, succeeded: bool)
        ensures
            final(self).same_but_active(*old(self)),
            final(self).active() == if succeeded {
                old(self).active()
            } else {
                old(self).active().remove(display_id@)
            },
    {
        if !succeeded {
            let _ = self.active.remove(display_id);
        }
    }

    /// The window of the wallpaper on a display, and how wallpapers are spread.
    pub fn active_wallpaper(&self, display_id: &str) -> (r: Option<(usize, Arrangement)>)
        ensures
            match r {
                Some(w) => self.active().contains_key(display_id@) && w
                    == self.active()[display_id@],
                None => !self.active().contains_key(display_id@),
            },
    {
        match self.active.get(display_id) {
            Some(w) => Some(*w),
            None => None,
        }
    }

    /// The wallpaper window and the program manager's, to put a wallpaper into; an error if
    /// they were never found.
    pub fn embed_target(&self) -> (r: Result<(usize, usize), MirrorStarError>)
        ensures
            match (self.workerw(), self.progman()) {
                (Some(w), Some(p)) => r matches Ok(t) && t == (w, p),
                _ => r matches Err(e) && e@ == (ErrorKind::WorkerWNotFound, Seq::<char>::empty()),
            },
    {
        match self.workerw {
            None => Err(MirrorStarError::WorkerWNotFound),
            Some(w) => match self.progman {
                None => Err(MirrorStarError::WorkerWNotFound),
                Some(p) => Ok((w, p)),
            },
        }
    }

    /// Takes note of how putting the window `hwnd` onto a display went: only a window that
    /// is in place becomes the display's wallpaper.
    pub fn embed_wallpaper(
        &mut self,
        hwnd: usize,
        display_id: &str,
        arrangement: Arrangement,
        result: Result<(), MirrorStarError>,
    ) -> (r: Result<(), MirrorStarError>)
        ensures
            r == result,
            final(self).same_but_active(*old(self)),
            final(self).active() == if result is Ok {
                old(self).active().insert(display_id@, (hwnd, arrangement))
            } else {
                old(self).active()
            },
    {
        if result.is_ok() {
            self.active.insert(String::from_str(display_id), (hwnd, arrangement));
        }
        result
    }

    /// The displays, from a list that is at most five seconds old. `enumerate` makes the
    /// list anew, and tells when it did.
    pub fn get_cached_displays<F: FnOnce() -> (Vec<DisplayInfo>, u128)>(
        &mut self,
        now: u128,
        enumerate: F,
    ) -> (r: &Vec<DisplayInfo>)
        requires
            displays_stale(
                match old(self).cached_displays() {
                    Some(c) => Some(c.1),
                    None => None,
                },
                now,
            ) ==> enumerate.requires(()),
        ensures
            final(self).cached_displays() matches Some(c) && *r == c.0,
            final(self).progman() == old(self).progman(),
            final(self).workerw() == old(self).workerw(),
            final(self).active() == old(self).active(),
            final(self).original_wallpaper() == old(self).original_wallpaper(),
            final(self).initialized() == old(self).initialized(),
            ({
                let made_at = match old(self).cached_displays() {
                    Some(c) => Some(c.1),
                    None => None,
                };
                if displays_stale(made_at, now) {
                    final(self).cached_displays() matches Some(c) && enumerate.ensures((), c)
                } else {
                    final(self).cached_displays() == old(self).cached_displays()
                }
            }),
    {
        let stale = match &self.displays {
            Some(c) => crate::time::elapsed(now, c.1) >= DISPLAY_CACHE_TTL_NANOS,
            None => true,
        };
        if stale {
            self.displays = Some(enumerate());
        }
        &self.displays.as_ref().unwrap().0
    }

    /// The displays, in the order in which the system went through them.
    pub fn enumerate_displays(
        &self,
        completed: bool,
        reports: &Vec<Option<MonitorReport>>,
    ) -> (r: Vec<DisplayInfo>)
        requires
            all_measurable(reports@),
        ensures
            lists_displays(r@, completed, reports@),
    {
        enumerate_displays(completed, reports)
    }

    /// Starts to take the wallpaper off a display. Without one there is nothing to do. If
    /// the wallpaper window is gone, its windows are gone with it and the wallpaper is
    /// merely forgotten.
    pub fn remove_wallpaper(&mut self, display_id: &str, workerw_valid: bool) -> (r: RemoveStep)
        ensures
            final(self).same_but_active(*old(self)),
            if !old(self).active().contains_key(display_id@) || !workerw_valid {
                &&& r is Done
                &&& final(self).active() == old(self).active().remove(display_id@)
            } else {
                &&& r matches RemoveStep::CheckWindow(h) && h == old(self).active()[display_id@].0
                &&& *final(self) == *old(self)
            },
    {
        match self.active_wallpaper(display_id) {
            None => {
                assert(self.active().remove(display_id@) =~= self.active());
                RemoveStep::Done
            },
            Some((hwnd, _)) => {
                if !workerw_valid {
                    let _ = self.active.remove(display_id);
                    return RemoveStep::Done;
                }
                RemoveStep::CheckWindow(hwnd)
            },
        }
    }

    /// Goes on once it is known whether the window of the wallpaper still exists: one that
    /// does has to be taken out of the wallpaper window, one that does not is forgotten.
    pub fn on_window_checked(&mut self, display_id: &str, alive: bool) -> (r: RemoveStep)
        requires
            old(self).active().contains_key(display_id@),
        ensures
            final(self).same_but_active(*old(self)),
            if alive {
                &&& r matches RemoveStep::Detach(h) && h == old(self).active()[display_id@].0
                &&& *final(self) == *old(self)
            } else {
                &&& r is Done
                &&& final(self).active() == old(self).active().remove(display_id@)
            },
    {
        if alive {
            if let Some((hwnd, _)) = self.active_wallpaper(display_id) {
                return RemoveStep::Detach(hwnd);
            }
        }
        let _ = self.active.remove(display_id);
        RemoveStep::Done
    }

    /// Ends once the window was taken out of the wallpaper window: the wallpaper is
    /// forgotten and its window, which is returned, has to be hidden. If it could not be
    /// taken out, the wallpaper stays and can be removed another time.
    pub fn on_detached(&mut self, display_id: &str, result: Result<(), String>) -> (r: Result<
        usize,
        MirrorStarError,
    >)
        requires
            old(self).active().contains_key(display_id@),
        ensures
            final(self).same_but_active(*old(self)),
            match result {
                Ok(_) => {
                    &&& r matches Ok(h) && h == old(self).active()[display_id@].0
                    &&& final(self).active() == old(self).active().remove(display_id@)
                },
                Err(t) => {
                    &&& r matches Err(e) && e@ == (
                        ErrorKind::DesktopIntegration,
                        "SetParent 分离窗口失败: "@ + t@,
                    )
                    &&& *final(self) == *old(self)
                },
            },
    {
        match result {
            Err(t) => Err(
                MirrorStarError::DesktopIntegration(
                    text::join2("SetParent 分离窗口失败: ", t.as_str()),
                ),
            ),
            Ok(_) => match self.active.remove(display_id) {
                Some((hwnd, _)) => Ok(hwnd),
                None => Ok(0),
            },
        }
    }

    /// How the wallpaper from before comes back. If none was remembered, the desktop is
    /// drawn anew with its `current` one.
    pub fn restore_original_wallpaper(&self, current: Option<String>) -> (r: Result<
        RestoreStep,
        MirrorStarError,
    >)
        ensures
            match self.original_wallpaper() {
                Some(p) => if native_wallpaper::has_nul(p@) {
                    r matches Err(e) && e@ == (
                        ErrorKind::InvalidPath,
                        "路径含嵌入式 NUL 字符："@ + p@,
                    )
                } else {
                    r matches Ok(RestoreStep::Restore(w)) && w@ == encoding::utf16_of(p@).push(0u16)
                },
                None => match current {
                    Some(c) if !native_wallpaper::has_nul(c@) => r matches Ok(
                        RestoreStep::Refresh(Some(w)),
                    ) && w@ == encoding::utf16_of(c@).push(0u16),
                    _ => r matches Ok(RestoreStep::Refresh(None)),
                },
            },
    {
        match &self.original_wallpaper {
            Some(p) => match worker_w::restore_system_wallpaper(p.as_str()) {
                Ok(w) => Ok(RestoreStep::Restore(w)),
                Err(e) => Err(e),
            },
            None => Ok(RestoreStep::Refresh(worker_w::refresh_desktop(current))),
        }
    }
}

/// The wallpapers that are left once all were put into a new wallpaper window, in the
/// order of `ids`, when `succeeded` tells how it went for each.
pub open spec fn left_after(
    active: Map<Seq<char>, (usize, Arrangement)>,
    ids: Seq<Seq<char>>,
    succeeded: Map<Seq<char>, bool>,
) -> Map<Seq<char>, (usize, Arrangement)>
    decreases ids.len(),
{
    if ids.len() == 0 {
        active
    } else {
        let before = left_after(active, ids.drop_last(), succeeded);
        if succeeded[ids.last()] {
            before
        } else {
            before.remove(ids.last())
        }
    }
}

/// After the wallpaper window was replaced, exactly the wallpapers that could be put into
/// the new one are left, unchanged.
pub proof fn law_reembedding(
    active: Map<Seq<char>, (usize, Arrangement)>,
    ids: Seq<Seq<char>>,
    succeeded: Map<Seq<char>, bool>,
    id: Seq<char>,
)
    ensures
        left_after(active, ids, succeeded).contains_key(id) <==> active.contains_key(id) && (
        ids.contains(id) ==> succeeded[id]),
        left_after(active, ids, succeeded).contains_key(id) ==> left_after(
            active,
            ids,
            succeeded,
        )[id] == active[id],
    decreases ids.len(),
{
    if ids.len() > 0 {
        law_reembedding(active, ids.drop_last(), succeeded, id);
        if ids.contains(id) && ids.last() != id {
            let k = choose|k: int| 0 <= k < ids.len() && ids[k] == id;
            assert(ids.drop_last()[k] == id);
        }
        if ids.drop_last().contains(id) {
            let k = choose|k: int| 0 <= k < ids.drop_last().len() && ids.drop_last()[k] == id;
            assert(ids[k] == id);
        }
        if ids.last() == id {
            assert(ids[ids.len() - 1] == id);
        }
    }
}

/// What is read of a buffer is its beginning, has no zero in it, and ends at the end of the
/// buffer or right before a zero.
pub proof fn law_until_zero(buf: Seq<u16>)
    ensures
        until_zero(buf).is_prefix_of(buf),
        forall|i: int| 0 <= i < until_zero(buf).len() ==> #[trigger] until_zero(buf)[i] != 0,
        until_zero(buf).len() == buf.len() || buf[until_zero(buf).len() as int] == 0,
    decreases buf.len(),
{
    if buf.len() > 0 && buf[0] != 0 {
        let rest = buf.drop_first();
        law_until_zero(rest);
        let r = until_zero(buf);
        assert(r =~= buf.take(r.len() as int)) by {
            assert forall|i: int| 0 <= i < r.len() implies r[i] == buf[i] by {
                if i > 0 {
                    assert(until_zero(rest)[i - 1] == rest[i - 1]);
                }
            }
        }
        assert forall|i: int| 0 <= i < r.len() implies #[trigger] r[i] != 0 by {
            if i > 0 {
                assert(r[i] == until_zero(rest)[i - 1]);
            }
        }
    } else {
        assert(until_zero(buf) =~= buf.take(0));
    }
}

/// The displays that told of themselves are kept in order: those of a list of reports are
/// those of its first part and then those of the rest; a report that failed counts as none.
pub proof fn law_told_in_order(
    a: Seq<Option<MonitorReport>>,
    b: Seq<Option<MonitorReport>>,
    m: MonitorReport,
)
    ensures
        told(a + b) == told(a) + told(b),
        told(seq![Some(m)]) == seq![m],
        told(seq![None::<MonitorReport>]) == Seq::<MonitorReport>::empty(),
    decreases b.len(),
{
    assert(seq![Some(m)].drop_last() =~= Seq::<Option<MonitorReport>>::empty());
    assert(seq![None::<MonitorReport>].drop_last() =~= Seq::<Option<MonitorReport>>::empty());
    assert(told(Seq::<Option<MonitorReport>>::empty()) =~= Seq::<MonitorReport>::empty());
    assert(told(seq![Some(m)]) =~= seq![m]);
    if b.len() == 0 {
        assert(a + b =~= a);
        assert(told(a) + told(b) =~= told(a));
    } else {
        law_told_in_order(a, b.drop_last(), m);
        assert((a + b).drop_last() =~= a + b.drop_last());
        assert(told(a + b) =~= told(a) + told(b));
    }
}

/// Each display is listed as the system reports it: under its device name, with its place and
/// size on the virtual screen, as primary if the lowest flag says so, and with 96 dots per
/// inch if the system does not tell. They are numbered from 1 in order.
pub proof fn law_display_listed(
    displays: Seq<DisplayInfo>,
    reports: Seq<Option<MonitorReport>>,
    i: int,
)
    requires
        lists_displays(displays, true, reports),
        0 <= i < told(reports).len(),
        measurable(told(reports)[i].rect),
    ensures
        ({
            let report = told(reports)[i];
            let info = displays[i];
            &&& displays.len() == told(reports).len()
            &&& info.id@ == encoding::text_of_utf16(until_zero(report.device@))
            &&& info.name@ == "显示器 "@ + text::decimal((i + 1) as nat)
            &&& info.x == report.rect.left && info.y == report.rect.top
            &&& report.rect.left <= report.rect.right ==> info.x + info.width == report.rect.right
            &&& report.rect.top <= report.rect.bottom ==> info.y + info.height
                == report.rect.bottom
            &&& info.is_primary <==> report.flags % 2 == 1
            &&& report.dpi matches Some(d) ==> info.dpi == d
            &&& report.dpi is None ==> info.dpi == 96
            &&& info.current_wallpaper is None
        }),
{
    assert(describes_report(displays[i], i as nat, told(reports)[i]));
}

/// No display is listed if asking for them broke off.
pub proof fn law_no_displays_listed(displays: Seq<DisplayInfo>, reports: Seq<Option<MonitorReport>>)
    ensures
        lists_displays(displays, false, reports) <==> displays == Seq::<DisplayInfo>::empty(),
{
    if displays.len() == 0 {
        assert(displays =~= Seq::<DisplayInfo>::empty());
    }
}

/// The list of displays is made anew exactly if there is none or five seconds have passed
/// since it was made.
pub proof fn law_displays_stale(made_at: u128, now: u128)
    ensures
        displays_stale(None, now),
        displays_stale(Some(made_at), now) <==> now - made_at >= 5_000_000_000,
{
}

/// When the desktop is made ready again, all wallpapers that were shown are to be put there
/// again, each once; the first time there are none. Which wallpapers are shown does not
/// change by that.
pub proof fn law_ready_again<F: FnOnce() -> Result<(usize, usize), MirrorStarError>>(
    before: DesktopIntegrator,
    search: F,
    after: DesktopIntegrator,
    ids: Vec<String>,
    id: Seq<char>,
)
    requires
        DesktopIntegrator::is_made_ready(before, false, search, after, Ok(Some(ids))),
    ensures
        after.active() == before.active(),
        after.progman() is Some && after.workerw() is Some && after.initialized(),
        before.initialized() ==> (before.active().contains_key(id) <==> exists|i: int|
            0 <= i < ids@.len() && (#[trigger] ids@[i])@ == id),
        before.initialized() ==> forall|i: int, j: int|
            0 <= i < j < ids@.len() ==> (#[trigger] ids@[i])@ != (#[trigger] ids@[j])@,
        !before.initialized() ==> ids@.len() == 0,
{
    let names = ids@.map_values(|s: String| s@);
    assert(names.len() == ids@.len());
    if before.initialized() {
        if names.contains(id) {
            let i = choose|i: int| 0 <= i < names.len() && names[i] == id;
            assert(ids@[i]@ == id);
        }
        assert forall|i: int| 0 <= i < ids@.len() && (#[trigger] ids@[i])@ == id implies
            names.contains(id) by {
            assert(names[i] == id);
        }
        assert forall|i: int, j: int| 0 <= i < j < ids@.len() implies (#[trigger] ids@[i])@ != (
        #[trigger] ids@[j])@ by {
            assert(names[i] != names[j]);
        }
    }
}

/// A new integrator knows no windows, shows nothing, and keeps the wallpaper of before.
pub proof fn law_new_integrator(d: DesktopIntegrator, original: Option<String>, id: Seq<char>)
    requires
        d.is_new(original),
    ensures
        d.progman() is None && d.workerw() is None && !d.initialized(),
        !d.active().contains_key(id),
        d.original_wallpaper() == original,
        d.cached_displays() is None,
{
}

/// What changes only the wallpapers that are shown leaves all else.
pub proof fn law_rest_kept(a: DesktopIntegrator, b: DesktopIntegrator)
    requires
        a.same_but_active(b),
    ensures
        a.progman() == b.progman() && a.workerw() == b.workerw(),
        a.original_wallpaper() == b.original_wallpaper(),
        a.initialized() == b.initialized() && a.cached_displays() == b.cached_displays(),
{
}

/// A rectangle can be measured exactly if its width and its height, negative or not, can be
/// expressed as signed numbers of 32 bits.
pub proof fn law_measurable(rect: worker_w::Rect)
    ensures
        measurable(rect) <==> {
            &&& -0x8000_0000 <= rect.right - rect.left <= 0x7fff_ffff
            &&& -0x8000_0000 <= rect.bottom - rect.top <= 0x7fff_ffff
        },
{
}

} // verus!
