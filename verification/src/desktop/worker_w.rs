//! The windows of the desktop: finding the one that wallpapers are put into, and putting
//! them there.
//!
//! A window is known by its handle; zero is no window. The caller asks the system about
//! windows and reports what it saw.
use vstd::prelude::*;
use vstd::string::*;
use crate::config::manager::DisplayInfo;
use crate::config::settings::Arrangement;
use crate::encoding;
use crate::error::{ErrorKind, MirrorStarError};
use crate::text;

verus! {

/// How many levels below a top-level window are searched.
pub const MAX_CHILD_DEPTH: u32 = 3;

/// How many units the name of a wallpaper file can have.
pub const UNICODE_STRING_MAX_CHARS: usize = 32767;

/// The class name of the windows that can hold wallpapers, "WorkerW", in UTF-16.
pub open spec fn workerw_class() -> Seq<u16> {
    seq![0x57u16, 0x6f, 0x72, 0x6b, 0x65, 0x72, 0x57]
}

/// Whether two runs of units are the same.
fn eq_wide(a: &[u16], b: &[u16]) -> (r: bool)
    ensures
        r == (a@ == b@),
{
    if a.len() != b.len() {
        return false;
    }
    let mut i: usize = 0;
    while i < a.len()
        invariant
            a.len() == b.len(),
            i <= a.len(),
            forall|k: int| 0 <= k < i ==> a@[k] == b@[k],
        decreases a.len() - i,
    {
        if a[i] != b[i] {
            return false;
        }
        i += 1;
    }
    assert(a@ =~= b@);
    true
}

/// Whether a class name is "WorkerW".
pub fn is_workerw_class(class_name: &[u16]) -> (r: bool)
    ensures
        r == (class_name@ == workerw_class()),
{
    let name: [u16; 7] = [0x57, 0x6f, 0x72, 0x6b, 0x65, 0x72, 0x57];
    assert(name@ =~= workerw_class());
    eq_wide(class_name, &name)
}

/// A window and the name of its class.
#[derive(Debug)]
pub struct SeenWindow {
    /// The handle; zero if there is no such window.
    pub handle: usize,
    /// The name of its class in UTF-16.
    pub class_name: Vec<u16>,
}

impl SeenWindow {
    /// There is such a window, and it can hold wallpapers.
    pub open spec fn is_workerw(self) -> bool {
        self.handle != 0 && self.class_name@ == workerw_class()
    }

    /// Whether there is such a window, and it can hold wallpapers.
    pub fn check_workerw(&self) -> (r: bool)
        ensures
            r == self.is_workerw(),
    {
        self.handle != 0 && is_workerw_class(self.class_name.as_slice())
    }
}

/// A window as a place to search for a child of a certain class.
#[derive(Debug)]
pub struct WindowTree {
    /// The first direct child of that class; zero if there is none.
    pub matching: usize,
    /// All direct children, in order.
    pub children: Vec<WindowTree>,
}

/// The child of the class looked for, down to `depth` levels: a direct child if there is
/// one, else what the first child that has one itself leads to.
pub open spec fn child_of_class(tree: WindowTree, depth: nat) -> Option<usize>
    decreases depth, 0nat,
{
    if depth == 0 {
        None
    } else if tree.matching != 0 {
        Some(tree.matching)
    } else {
        first_child_of_class(tree.children@, (depth - 1) as nat)
    }
}

/// What the first of the windows that has a child of the class looked for leads to.
pub open spec fn first_child_of_class(trees: Seq<WindowTree>, depth: nat) -> Option<usize>
    decreases depth, trees.len() + 1,
{
    if trees.len() == 0 {
        None
    } else if child_of_class(trees[0], depth) is Some {
        child_of_class(trees[0], depth)
    } else {
        first_child_of_class(trees.drop_first(), depth)
    }
}

/// The child of the class looked for, down to `max_depth` levels.
pub fn find_child_by_class(parent: &WindowTree, max_depth: u32) -> (r: Option<usize>)
    ensures
        r == child_of_class(*parent, max_depth as nat),
    decreases max_depth,
{
    if max_depth == 0 {
        return None;
    }
    if parent.matching != 0 {
        return Some(parent.matching);
    }
    let mut i: usize = 0;
    assert(parent.children@.skip(0) =~= parent.children@);
    while i < parent.children.len()
        invariant
            i <= parent.children.len(),
            max_depth > 0,
            parent.matching == 0,
            first_child_of_class(parent.children@, (max_depth - 1) as nat) == first_child_of_class(
                parent.children@.skip(i as int),
                (max_depth - 1) as nat,
            ),
        decreases parent.children.len() - i,
    {
        assert(parent.children@.skip(i as int)[0] == parent.children@[i as int]);
        assert(parent.children@.skip(i as int).drop_first() =~= parent.children@.skip(i + 1));
        let found = find_child_by_class(&parent.children[i], max_depth - 1);
        if found.is_some() {
            return found;
        }
        i += 1;
    }
    assert(parent.children@.skip(i as int).len() == 0);
    None
}

/// A top-level window as a place to search for the icons of the desktop.
#[derive(Debug)]
pub struct TopWindow {
    /// The name of its class in UTF-16.
    pub class_name: Vec<u16>,
    /// Where to search for the window with the icons.
    pub tree: WindowTree,
    /// The window that follows it.
    pub next: SeenWindow,
    /// The window that comes before it.
    pub prev: SeenWindow,
}

/// The window next to the one that holds the icons, if this one does: the following one
/// if it can hold wallpapers, else the one before.
pub open spec fn sibling_of_icons(top: TopWindow) -> Option<usize> {
    if child_of_class(top.tree, MAX_CHILD_DEPTH as nat) is None {
        None
    } else if top.next.is_workerw() {
        Some(top.next.handle)
    } else if top.prev.is_workerw() {
        Some(top.prev.handle)
    } else {
        None
    }
}

/// The same, but only for a window that could itself hold wallpapers.
pub open spec fn sibling_of_icons_fallback(top: TopWindow) -> Option<usize> {
    if top.class_name@ == workerw_class() {
        sibling_of_icons(top)
    } else {
        None
    }
}

/// The window next to the one that holds the icons, if `top` does. The search ends with
/// the first top-level window that leads to one.
pub fn find_workerw_callback(top: &TopWindow) -> (r: Option<usize>)
    ensures
        r == sibling_of_icons(*top),
{
    if find_child_by_class(&top.tree, MAX_CHILD_DEPTH).is_none() {
        return None;
    }
    if top.next.check_workerw() {
        return Some(top.next.handle);
    }
    if top.prev.check_workerw() {
        return Some(top.prev.handle);
    }
    None
}

/// The same, but only for a window that could itself hold wallpapers.
pub fn find_workerw_fallback_callback(top: &TopWindow) -> (r: Option<usize>)
    ensures
        r == sibling_of_icons_fallback(*top),
{
    if !is_workerw_class(top.class_name.as_slice()) {
        return None;
    }
    find_workerw_callback(top)
}

/// How far the search for the wallpaper window has come: what is asked of the system
/// next.
#[derive(Clone, Copy, Debug, PartialEq, Eq, Structural)]
pub enum SearchStage {
    /// Find the program manager's window.
    Progman,
    /// Find the window with the icons directly below it.
    ShellView,
    /// Look at the parent of that window.
    Parent,
    /// Find a wallpaper window that follows the program manager's.
    Sibling,
    /// Go through all top-level windows.
    Direct,
    /// Ask the program manager to make a wallpaper window.
    Spawn,
    /// Go through all top-level windows again.
    AfterSpawn,
    /// Go through the wallpaper windows only.
    Fallback,
}

/// What the system answered.
#[derive(Debug)]
pub enum SearchEvent {
    /// The program manager's window, or the system's words for its absence.
    Progman(Result<usize, String>),
    /// The window with the icons.
    ShellView(usize),
    /// The parent of the window with the icons.
    Parent(SeenWindow),
    /// A window that follows the program manager's.
    Sibling(SeenWindow),
    /// What going through the windows led to, and the system's words if it broke off.
    Enumerated {
        /// The window found.
        found: Option<usize>,
        /// The system's words.
        error: Option<String>,
    },
    /// The program manager was asked.
    Spawned,
}

/// Whether the answer is one to the question of this stage.
pub open spec fn fits(stage: SearchStage, event: SearchEvent) -> bool {
    match stage {
        SearchStage::Progman => event is Progman,
        SearchStage::ShellView => event is ShellView,
        SearchStage::Parent => event is Parent,
        SearchStage::Sibling => event is Sibling,
        SearchStage::Direct | SearchStage::AfterSpawn | SearchStage::Fallback => event
            is Enumerated,
        SearchStage::Spawn => event is Spawned,
    }
}

/// What an answer leads to.
pub enum SearchOutcome {
    /// The search goes on with this stage.
    Go(SearchStage),
    /// This is the wallpaper window.
    Found(usize),
    /// The search failed.
    Failed((ErrorKind, Seq<char>)),
}

/// What a walk through the windows leads to: the window found; else an error if the walk
/// broke off; else the next stage. A walk that found something is not failed by the
/// system's complaint that it was stopped.
pub open spec fn enumeration_outcome(
    found: Option<usize>,
    error: Option<String>,
    label: Seq<char>,
    otherwise: SearchOutcome,
) -> SearchOutcome {
    match (found, error) {
        (Some(w), _) => SearchOutcome::Found(w),
        (None, Some(t)) => SearchOutcome::Failed(
            (
                ErrorKind::DesktopIntegration,
                "EnumWindows 调用失败（"@ + label + "）: "@ + t@,
            ),
        ),
        (None, None) => otherwise,
    }
}

/// What the answer `event` leads to at `stage`, when `progman` is the program manager's
/// window.
pub open spec fn search_step(stage: SearchStage, progman: usize, event: SearchEvent)
    -> SearchOutcome {
    match (stage, event) {
        (SearchStage::Progman, SearchEvent::Progman(r)) => match r {
            Err(t) => SearchOutcome::Failed(
                (ErrorKind::DesktopIntegration, "未找到 Progman 窗口: "@ + t@),
            ),
            Ok(h) => if h == 0 {
                SearchOutcome::Failed((ErrorKind::DesktopIntegration, "Progman 窗口句柄无效"@))
            } else {
                SearchOutcome::Go(SearchStage::ShellView)
            },
        },
        (SearchStage::ShellView, SearchEvent::ShellView(h)) => if h == 0 {
            SearchOutcome::Go(SearchStage::Direct)
        } else {
            SearchOutcome::Go(SearchStage::Parent)
        },
        (SearchStage::Parent, SearchEvent::Parent(w)) => if w.is_workerw() && w.handle != progman {
            SearchOutcome::Found(w.handle)
        } else {
            SearchOutcome::Go(SearchStage::Sibling)
        },
        (SearchStage::Sibling, SearchEvent::Sibling(w)) => if w.is_workerw() {
            SearchOutcome::Found(w.handle)
        } else {
            SearchOutcome::Go(SearchStage::Direct)
        },
        (SearchStage::Direct, SearchEvent::Enumerated { found, error }) => enumeration_outcome(
            found,
            error,
            "Step 2: 直接查找 WorkerW"@,
            SearchOutcome::Go(SearchStage::Spawn),
        ),
        (SearchStage::Spawn, _) => SearchOutcome::Go(SearchStage::AfterSpawn),
        (SearchStage::AfterSpawn, SearchEvent::Enumerated { found, error }) => enumeration_outcome(
            found,
            error,
            "Step 4: 发送 WM_SPAWN_WORK 后查找 WorkerW"@,
            SearchOutcome::Go(SearchStage::Fallback),
        ),
        (SearchStage::Fallback, SearchEvent::Enumerated { found, error }) => enumeration_outcome(
            found,
            error,
            "Step 5: 备用方法查找 WorkerW"@,
            SearchOutcome::Failed((ErrorKind::WorkerWNotFound, Seq::empty())),
        ),
        _ => SearchOutcome::Go(stage),
    }
}

/// The program manager's window after an answer.
pub open spec fn progman_after(progman: usize, event: SearchEvent) -> usize {
    match event {
        SearchEvent::Progman(Ok(h)) => h,
        _ => progman,
    }
}

/// What to do after an answer.
#[derive(Debug)]
pub enum SearchNext {
    /// Ask the system what this stage says.
    Go(SearchStage),
    /// The search is over: the program manager's window and the wallpaper window.
    Finished(Result<(usize, usize), MirrorStarError>),
}

/// The search for the window that wallpapers are put into.
pub struct WorkerWSearch {
    stage: SearchStage,
    progman: usize,
}

/// Starts one attempt to find the window that wallpapers are put into, without waiting and
/// without trying again.
pub fn find_workerw_no_retry() -> (r: WorkerWSearch)
    ensures
        r.stage() == SearchStage::Progman,
        r.progman() == 0,
{
    WorkerWSearch { stage: SearchStage::Progman, progman: 0 }
}

/// The result of a walk through the windows.
fn enumeration_result(found: Option<usize>, error: Option<String>, label: &str) -> (r: Result<
    Option<usize>,
    MirrorStarError,
>)
    ensures
        match (found, error) {
            (Some(w), _) => r matches Ok(Some(v)) && v == w,
            (None, Some(t)) => r matches Err(e) && e@ == (
                ErrorKind::DesktopIntegration,
                "EnumWindows 调用失败（"@ + label@ + "）: "@ + t@,
            ),
            (None, None) => r matches Ok(None),
        },
{
    match found {
        Some(w) => Ok(Some(w)),
        None => match error {
            Some(t) => {
                let mut m = String::from_str("EnumWindows 调用失败（");
                m.append(label);
                m.append("）: ");
                m.append(t.as_str());
                Err(MirrorStarError::DesktopIntegration(m))
            },
            None => Ok(None),
        },
    }
}

impl WorkerWSearch {
    /// What is asked of the system next.
    pub closed spec fn stage(self) -> SearchStage {
        self.stage
    }

    /// The program manager's window, once it was found.
    pub closed spec fn progman(self) -> usize {
        self.progman
    }

    /// Takes the system's answer.
    pub fn step(&mut self, event: SearchEvent) -> (r: SearchNext)
        requires
            fits(old(self).stage(), event),
        ensures
            final(self).progman() == progman_after(old(self).progman(), event),
            match search_step(old(self).stage(), old(self).progman(), event) {
                SearchOutcome::Go(s) => r matches SearchNext::Go(t) && t == s && final(self).stage()
                    == s,
                SearchOutcome::Found(w) => r matches SearchNext::Finished(Ok(p)) && p == (
                    final(self).progman(),
                    w,
                ),
                SearchOutcome::Failed(f) => r matches SearchNext::Finished(Err(e)) && e@ == f,
            },
    {
        match event {
            SearchEvent::Progman(r) => match r {
                Err(t) => SearchNext::Finished(
                    Err(
                        MirrorStarError::DesktopIntegration(
                            text::join2("未找到 Progman 窗口: ", t.as_str()),
                        ),
                    ),
                ),
                Ok(h) => {
                    self.progman = h;
                    if h == 0 {
                        return SearchNext::Finished(
                            Err(
                                MirrorStarError::DesktopIntegration(
                                    String::from_str("Progman 窗口句柄无效"),
                                ),
                            ),
                        );
                    }
                    self.go(SearchStage::ShellView)
                },
            },
            SearchEvent::ShellView(h) => {
                if h == 0 {
                    self.go(SearchStage::Direct)
                } else {
                    self.go(SearchStage::Parent)
                }
            },
            SearchEvent::Parent(w) => {
                if w.handle != self.progman && w.check_workerw() {
                    SearchNext::Finished(Ok((self.progman, w.handle)))
                } else {
                    self.go(SearchStage::Sibling)
                }
            },
            SearchEvent::Sibling(w) => {
                if w.check_workerw() {
                    SearchNext::Finished(Ok((self.progman, w.handle)))
                } else {
                    self.go(SearchStage::Direct)
                }
            },
            SearchEvent::Spawned => self.go(SearchStage::AfterSpawn),
            SearchEvent::Enumerated { found, error } => {
                let label = match self.stage {
                    SearchStage::Direct => "Step 2: 直接查找 WorkerW",
                    SearchStage::AfterSpawn => "Step 4: 发送 WM_SPAWN_WORK 后查找 WorkerW",
                    _ => "Step 5: 备用方法查找 WorkerW",
                };
                match enumeration_result(found, error, label) {
                    Err(e) => SearchNext::Finished(Err(e)),
                    Ok(Some(w)) => SearchNext::Finished(Ok((self.progman, w))),
                    Ok(None) => match self.stage {
                        SearchStage::Direct => self.go(SearchStage::Spawn),
                        SearchStage::AfterSpawn => self.go(SearchStage::Fallback),
                        _ => SearchNext::Finished(Err(MirrorStarError::WorkerWNotFound)),
                    },
                }
            },
        }
    }

    /// Goes on with a stage.
    fn go(&mut self, stage: SearchStage) -> (r: SearchNext)
        ensures
            final(self).stage == stage,
            final(self).progman == old(self).progman,
            r == SearchNext::Go(stage),
    {
        self.stage = stage;
        SearchNext::Go(stage)
    }
}

/// All that the system can answer during one search.
pub struct SearchAnswers {
    pub progman: Result<usize, String>,
    pub shell_view: usize,
    pub parent: SeenWindow,
    pub sibling: SeenWindow,
    pub direct: (Option<usize>, Option<String>),
    pub after_spawn: (Option<usize>, Option<String>),
    pub fallback: (Option<usize>, Option<String>),
}

/// The answer at a stage.
pub open spec fn answer_at(stage: SearchStage, a: SearchAnswers) -> SearchEvent {
    match stage {
        SearchStage::Progman => SearchEvent::Progman(a.progman),
        SearchStage::ShellView => SearchEvent::ShellView(a.shell_view),
        SearchStage::Parent => SearchEvent::Parent(a.parent),
        SearchStage::Sibling => SearchEvent::Sibling(a.sibling),
        SearchStage::Direct => SearchEvent::Enumerated { found: a.direct.0, error: a.direct.1 },
        SearchStage::Spawn => SearchEvent::Spawned,
        SearchStage::AfterSpawn => SearchEvent::Enumerated {
            found: a.after_spawn.0,
            error: a.after_spawn.1,
        },
        SearchStage::Fallback => SearchEvent::Enumerated {
            found: a.fallback.0,
            error: a.fallback.1,
        },
    }
}

/// How many stages can still follow.
pub open spec fn stages_left(stage: SearchStage) -> nat {
    match stage {
        SearchStage::Progman => 7,
        SearchStage::ShellView => 6,
        SearchStage::Parent => 5,
        SearchStage::Sibling => 4,
        SearchStage::Direct => 3,
        SearchStage::Spawn => 2,
        SearchStage::AfterSpawn => 1,
        SearchStage::Fallback => 0,
    }
}

/// How a whole search ends from `stage` on.
pub open spec fn search_end(stage: SearchStage, progman: usize, a: SearchAnswers) -> SearchOutcome
    decreases stages_left(stage),
{
    match search_step(stage, progman, answer_at(stage, a)) {
        SearchOutcome::Go(next) => if stages_left(next) < stages_left(stage) {
            search_end(next, progman_after(progman, answer_at(stage, a)), a)
        } else {
            SearchOutcome::Go(next)
        },
        end => end,
    }
}

/// A search comes to an end. Once the program manager's window is there, the wallpaper
/// window is the first of these: the parent of the window with the icons, if it can
/// hold wallpapers and is not the program manager's; a window that follows the
/// program manager's and can; what the first walk through all windows finds; what
/// the second finds; what the third finds. Only if there is none, and no walk broke
/// off before, it is reported missing.
pub proof fn law_search_order(a: SearchAnswers, progman: usize)
    requires
        a.progman == Ok::<usize, String>(progman),
        progman != 0,
        a.direct.1 is None,
        a.after_spawn.1 is None,
        a.fallback.1 is None,
    ensures
        search_end(SearchStage::Progman, 0, a) == {
            if a.shell_view != 0 && a.parent.is_workerw() && a.parent.handle != progman {
                SearchOutcome::Found(a.parent.handle)
            } else if a.shell_view != 0 && a.sibling.is_workerw() {
                SearchOutcome::Found(a.sibling.handle)
            } else if a.direct.0 is Some {
                SearchOutcome::Found(a.direct.0->0)
            } else if a.after_spawn.0 is Some {
                SearchOutcome::Found(a.after_spawn.0->0)
            } else if a.fallback.0 is Some {
                SearchOutcome::Found(a.fallback.0->0)
            } else {
                SearchOutcome::Failed((ErrorKind::WorkerWNotFound, Seq::<char>::empty()))
            }
        },
{
    reveal_with_fuel(search_end, 9);
}

/// Whatever the system answers, a search comes to an end.
pub proof fn law_search_ends(a: SearchAnswers)
    ensures
        !(search_end(SearchStage::Progman, 0, a) is Go),
{
    reveal_with_fuel(search_end, 9);
}

/// Whatever the second kind of walk finds in a window, the first kind finds too.
pub proof fn law_fallback_is_narrower(top: TopWindow)
    ensures
        sibling_of_icons_fallback(top) is Some ==> sibling_of_icons_fallback(top)
            == sibling_of_icons(top),
{
}

/// A rectangle on the virtual screen.
#[derive(Clone, Copy, Debug, PartialEq, Eq, Structural)]
pub struct Rect {
    /// The left edge.
    pub left: i32,
    /// The top edge.
    pub top: i32,
    /// The right edge, not included.
    pub right: i32,
    /// The bottom edge, not part of it.
    pub bottom: i32,
}

/// A number of 32 bits read as a signed one.
pub open spec fn as_signed(n: u32) -> int {
    if n < 0x8000_0000 {
        n as int
    } else {
        n - 0x1_0000_0000
    }
}

/// A number of 32 bits read as a signed one.
fn to_signed(n: u32) -> (r: i32)
    ensures
        r == as_signed(n),
{
    let r: i32 = n as i32;
    assert(n < 0x8000_0000 ==> r == n) by (bit_vector)
        requires
            r == n as i32,
    ;
    assert(n >= 0x8000_0000 ==> r == n - 0x1_0000_0000) by (bit_vector)
        requires
            r == n as i32,
    ;
    r
}

/// The place of a display's wallpaper within the wallpaper window: the display's place on
/// the virtual screen, counted from the window's corner.
pub open spec fn child_coords(display: DisplayInfo, rect: Rect) -> (int, int, int, int) {
    (
        display.x - rect.left,
        display.y - rect.top,
        as_signed(display.width),
        as_signed(display.height),
    )
}

/// All of the wallpaper window.
pub open spec fn whole_window(rect: Rect) -> (int, int, int, int) {
    (0, 0, rect.right - rect.left, rect.bottom - rect.top)
}

/// The first display with this name.
pub open spec fn display_named(displays: Seq<DisplayInfo>, id: Seq<char>) -> Option<DisplayInfo>
    decreases displays.len(),
{
    if displays.len() == 0 {
        None
    } else if displays[0].id@ == id {
        Some(displays[0])
    } else {
        display_named(displays.drop_first(), id)
    }
}

/// Where a wallpaper goes within the wallpaper window: over all of it if one wallpaper
/// covers all displays or the display is not there, else over its display.
pub open spec fn placement(
    arrangement: Arrangement,
    display_id: Seq<char>,
    displays: Seq<DisplayInfo>,
    rect: Rect,
) -> (int, int, int, int) {
    if arrangement == Arrangement::Span {
        whole_window(rect)
    } else {
        match display_named(displays, display_id) {
            Some(d) => child_coords(d, rect),
            None => whole_window(rect),
        }
    }
}

/// The numbers can be expressed with 32 bits.
pub open spec fn fits_i32(p: (int, int, int, int)) -> bool {
    &&& i32::MIN <= p.0 <= i32::MAX
    &&& i32::MIN <= p.1 <= i32::MAX
    &&& i32::MIN <= p.2 <= i32::MAX
    &&& i32::MIN <= p.3 <= i32::MAX
}

/// The place of a display's wallpaper within the wallpaper window.
pub fn calculate_per_monitor_child_coords(display: &DisplayInfo, rect: &Rect) -> (r: (
    i32,
    i32,
    i32,
    i32,
))
    requires
        fits_i32(child_coords(*display, *rect)),
    ensures
        (r.0 as int, r.1 as int, r.2 as int, r.3 as int) == child_coords(*display, *rect),
{
    (
        display.x - rect.left,
        display.y - rect.top,
        to_signed(display.width),
        to_signed(display.height),
    )
}

/// Where a wallpaper goes within the wallpaper window.
pub fn place_wallpaper(
    arrangement: Arrangement,
    display_id: &str,
    displays: &Vec<DisplayInfo>,
    rect: &Rect,
) -> (r: (i32, i32, i32, i32))
    requires
        fits_i32(placement(arrangement, display_id@, displays@, *rect)),
    ensures
        (r.0 as int, r.1 as int, r.2 as int, r.3 as int) == placement(
            arrangement,
            display_id@,
            displays@,
            *rect,
        ),
{
    if arrangement == Arrangement::Span {
        return (0, 0, rect.right - rect.left, rect.bottom - rect.top);
    }
    let mut i: usize = 0;
    assert(displays@.skip(0) =~= displays@);
    while i < displays.len()
        invariant
            i <= displays.len(),
            arrangement != Arrangement::Span,
            fits_i32(placement(arrangement, display_id@, displays@, *rect)),
            display_named(displays@, display_id@) == display_named(
                displays@.skip(i as int),
                display_id@,
            ),
        decreases displays.len() - i,
    {
        assert(displays@.skip(i as int)[0] == displays@[i as int]);
        assert(displays@.skip(i as int).drop_first() =~= displays@.skip(i + 1));
        if text::same_text(displays[i].id.as_str(), display_id) {
            return calculate_per_monitor_child_coords(&displays[i], rect);
        }
        i += 1;
    }
    assert(displays@.skip(i as int).len() == 0);
    (0, 0, rect.right - rect.left, rect.bottom - rect.top)
}

/// Whether a number can be expressed with 32 bits.
fn is_i32(n: i64) -> (r: bool)
    ensures
        r == (i32::MIN <= n <= i32::MAX),
{
    -0x8000_0000 <= n && n <= 0x7fff_ffff
}

/// Whether the place of a wallpaper within the wallpaper window can be expressed with 32
/// bits.
pub fn can_place(
    arrangement: Arrangement,
    display_id: &str,
    displays: &Vec<DisplayInfo>,
    rect: &Rect,
) -> (r: bool)
    ensures
        r == fits_i32(placement(arrangement, display_id@, displays@, *rect)),
{
    let whole = is_i32(rect.right as i64 - rect.left as i64) && is_i32(
        rect.bottom as i64 - rect.top as i64,
    );
    if arrangement == Arrangement::Span {
        return whole;
    }
    let mut i: usize = 0;
    assert(displays@.skip(0) =~= displays@);
    while i < displays.len()
        invariant
            i <= displays.len(),
            arrangement != Arrangement::Span,
            display_named(displays@, display_id@) == display_named(
                displays@.skip(i as int),
                display_id@,
            ),
        decreases displays.len() - i,
    {
        assert(displays@.skip(i as int)[0] == displays@[i as int]);
        assert(displays@.skip(i as int).drop_first() =~= displays@.skip(i + 1));
        if text::same_text(displays[i].id.as_str(), display_id) {
            return is_i32(displays[i].x as i64 - rect.left as i64) && is_i32(
                displays[i].y as i64 - rect.top as i64,
            );
        }
        i += 1;
    }
    assert(displays@.skip(i as int).len() == 0);
    whole
}

/// A wallpaper keeps its display's size, and lies where the display lies, wherever the
/// corner of the wallpaper window is.
pub proof fn law_child_coords(display: DisplayInfo, rect: Rect)
    requires
        display.width < 0x8000_0000,
        display.height < 0x8000_0000,
    ensures
        ({
            let (x, y, w, h) = child_coords(display, rect);
            &&& rect.left + x == display.x
            &&& rect.top + y == display.y
            &&& w == display.width
            &&& h == display.height
        }),
{
}

proof fn lemma_first_display(displays: Seq<DisplayInfo>, i: int)
    requires
        0 <= i < displays.len(),
        forall|j: int| 0 <= j < i ==> (#[trigger] displays[j]).id@ != displays[i].id@,
    ensures
        display_named(displays, displays[i].id@) == Some(displays[i]),
    decreases i,
{
    if i > 0 {
        assert(displays[0].id@ != displays[i].id@);
        let rest = displays.drop_first();
        assert forall|j: int| 0 <= j < i - 1 implies (#[trigger] rest[j]).id@ != rest[i - 1].id@ by {
            assert(displays[j + 1].id@ != displays[i].id@);
        }
        lemma_first_display(rest, i - 1);
    }
}

proof fn lemma_no_display(displays: Seq<DisplayInfo>, id: Seq<char>)
    requires
        forall|j: int| 0 <= j < displays.len() ==> displays[j].id@ != id,
    ensures
        display_named(displays, id) is None,
    decreases displays.len(),
{
    if displays.len() > 0 {
        assert(displays[0].id@ != id);
        let rest = displays.drop_first();
        assert forall|j: int| 0 <= j < rest.len() implies rest[j].id@ != id by {
            assert(displays[j + 1].id@ != id);
        }
        lemma_no_display(rest, id);
    }
}

/// Unless one wallpaper covers all displays, a wallpaper covers exactly the first display
/// with its name, wherever that display lies on the virtual screen: left of the wallpaper
/// window's corner, above it, or anywhere else. A size is taken as a signed number of 32
/// bits, which it is up to 2147483647.
pub proof fn law_wallpaper_covers_its_display(
    arrangement: Arrangement,
    displays: Seq<DisplayInfo>,
    i: int,
    rect: Rect,
)
    requires
        arrangement != Arrangement::Span,
        0 <= i < displays.len(),
        forall|j: int| 0 <= j < i ==> (#[trigger] displays[j]).id@ != displays[i].id@,
    ensures
        ({
            let (x, y, w, h) = placement(arrangement, displays[i].id@, displays, rect);
            &&& rect.left + x == displays[i].x
            &&& rect.top + y == displays[i].y
            &&& displays[i].width <= 0x7fff_ffff ==> w == displays[i].width
            &&& displays[i].height <= 0x7fff_ffff ==> h == displays[i].height
            &&& displays[i].width > 0x7fff_ffff ==> w + 0x1_0000_0000 == displays[i].width
            &&& displays[i].height > 0x7fff_ffff ==> h + 0x1_0000_0000 == displays[i].height
        }),
{
    lemma_first_display(displays, i);
}

/// A wallpaper for all displays, and one whose display is not there, covers the wallpaper
/// window from its corner to the opposite one.
pub proof fn law_wallpaper_covers_window(
    arrangement: Arrangement,
    display_id: Seq<char>,
    displays: Seq<DisplayInfo>,
    rect: Rect,
)
    requires
        arrangement == Arrangement::Span || forall|j: int|
            0 <= j < displays.len() ==> (#[trigger] displays[j]).id@ != display_id,
    ensures
        ({
            let (x, y, w, h) = placement(arrangement, display_id, displays, rect);
            &&& x == 0 && y == 0
            &&& rect.left + x + w == rect.right
            &&& rect.top + y + h == rect.bottom
        }),
{
    if arrangement != Arrangement::Span {
        lemma_no_display(displays, display_id);
    }
}

/// A place can be expressed exactly if none of its four numbers is below -2147483648 or
/// above 2147483647.
pub proof fn law_place_limits(x: int, y: int, w: int, h: int)
    ensures
        fits_i32((x, y, w, h)) <==> {
            &&& -0x8000_0000 <= x <= 0x7fff_ffff && -0x8000_0000 <= y <= 0x7fff_ffff
            &&& -0x8000_0000 <= w <= 0x7fff_ffff && -0x8000_0000 <= h <= 0x7fff_ffff
        },
{
}

/// How far putting a wallpaper into the wallpaper window has come: what is done next.
#[derive(Clone, Copy, Debug, PartialEq, Eq, Structural)]
pub enum EmbedStage {
    /// Remove the frame.
    Borderless,
    /// Take the window out of the task bar.
    Taskbar,
    /// Measure the wallpaper window.
    Measure,
    /// Make the window a child of the wallpaper window.
    Reparent,
    /// Move the window to its place, behind all others.
    Position,
    /// Give the focus back to the desktop.
    Focus,
    /// Show the window.
    Show,
}

/// How a step went.
#[derive(Debug)]
pub enum EmbedEvent {
    /// The frame was removed, or not.
    Borderless(Result<(), MirrorStarError>),
    /// The window was taken out of the task bar, as far as possible.
    Taskbar,
    /// The wallpaper window's rectangle, or the system's words.
    Measured(Result<Rect, String>),
    /// The window has its new parent, or the system's words.
    Reparented(Result<(), String>),
    /// The window has its place, or the system's words.
    Positioned(Result<(), String>),
    /// The focus was given back, as far as possible.
    Focused,
    /// The window was shown, as far as possible.
    Shown,
}

/// What to do next to put a wallpaper into the wallpaper window.
#[derive(Debug)]
pub enum EmbedNext {
    /// Do what this stage says.
    Go(EmbedStage),
    /// Done, with this result.
    Finished(Result<(), MirrorStarError>),
}

/// Whether the report is one on the step of this stage.
pub open spec fn embed_fits(stage: EmbedStage, event: EmbedEvent) -> bool {
    match stage {
        EmbedStage::Borderless => event is Borderless,
        EmbedStage::Taskbar => event is Taskbar,
        EmbedStage::Measure => event is Measured,
        EmbedStage::Reparent => event is Reparented,
        EmbedStage::Position => event is Positioned,
        EmbedStage::Focus => event is Focused,
        EmbedStage::Show => event is Shown,
    }
}

/// What a report leads to: the next stage, or the end with success or a failure.
pub open spec fn embed_step(event: EmbedEvent) -> Result<Option<EmbedStage>, (ErrorKind, Seq<char>)> {
    match event {
        EmbedEvent::Borderless(Ok(_)) => Ok(Some(EmbedStage::Taskbar)),
        EmbedEvent::Borderless(Err(e)) => Err(e@),
        EmbedEvent::Taskbar => Ok(Some(EmbedStage::Measure)),
        EmbedEvent::Measured(Ok(_)) => Ok(Some(EmbedStage::Reparent)),
        EmbedEvent::Measured(Err(t)) => Err(
            (ErrorKind::DesktopIntegration, "GetWindowRect 失败: "@ + t@),
        ),
        EmbedEvent::Reparented(Ok(_)) => Ok(Some(EmbedStage::Position)),
        EmbedEvent::Reparented(Err(t)) => Err(
            (ErrorKind::DesktopIntegration, "SetParent 失败: "@ + t@),
        ),
        EmbedEvent::Positioned(Ok(_)) => Ok(Some(EmbedStage::Focus)),
        EmbedEvent::Positioned(Err(t)) => Err(
            (ErrorKind::DesktopIntegration, "SetWindowPos 失败: "@ + t@),
        ),
        EmbedEvent::Focused => Ok(Some(EmbedStage::Show)),
        EmbedEvent::Shown => Ok(None),
    }
}

/// A wallpaper that is being put into the wallpaper window.
pub struct EmbedJob {
    stage: EmbedStage,
    display_id: String,
    arrangement: Arrangement,
    place: (i32, i32, i32, i32),
}

/// Starts to put a wallpaper into the wallpaper window.
pub fn embed_wallpaper(display_id: &str, arrangement: Arrangement) -> (r: EmbedJob)
    ensures
        r.stage() == EmbedStage::Borderless,
        r.display_id() == display_id@,
        r.arrangement() == arrangement,
{
    EmbedJob {
        stage: EmbedStage::Borderless,
        display_id: String::from_str(display_id),
        arrangement,
        place: (0, 0, 0, 0),
    }
}

impl EmbedJob {
    /// What is done next.
    pub closed spec fn stage(self) -> EmbedStage {
        self.stage
    }

    /// The display that the wallpaper is for.
    pub closed spec fn display_id(self) -> Seq<char> {
        self.display_id@
    }

    /// How wallpapers are spread over the displays.
    pub closed spec fn arrangement(self) -> Arrangement {
        self.arrangement
    }

    /// Where the wallpaper goes, once the wallpaper window was measured.
    pub closed spec fn place(self) -> (int, int, int, int) {
        (self.place.0 as int, self.place.1 as int, self.place.2 as int, self.place.3 as int)
    }

    /// Where the wallpaper goes: left edge, top edge, width and height.
    pub fn target(&self) -> (r: (i32, i32, i32, i32))
        ensures
            (r.0 as int, r.1 as int, r.2 as int, r.3 as int) == self.place(),
    {
        self.place
    }

    /// Whether the wallpaper's place can be expressed with 32 bits, if the wallpaper window
    /// is this large and `displays` are connected.
    pub fn can_place(&self, displays: &Vec<DisplayInfo>, rect: &Rect) -> (r: bool)
        ensures
            r == fits_i32(placement(self.arrangement(), self.display_id(), displays@, *rect)),
    {
        can_place(self.arrangement, self.display_id.as_str(), displays, rect)
    }

    /// Takes the report on a step, when `displays` are connected.
    pub fn step(&mut self, displays: &Vec<DisplayInfo>, event: EmbedEvent) -> (r: EmbedNext)
        requires
            embed_fits(old(self).stage(), event),
            event matches EmbedEvent::Measured(Ok(rect)) ==> fits_i32(
                placement(old(self).arrangement(), old(self).display_id(), displays@, rect),
            ),
        ensures
            final(self).display_id() == old(self).display_id(),
            final(self).arrangement() == old(self).arrangement(),
            final(self).place() == match event {
                EmbedEvent::Measured(Ok(rect)) => placement(
                    old(self).arrangement(),
                    old(self).display_id(),
                    displays@,
                    rect,
                ),
                _ => old(self).place(),
            },
            match embed_step(event) {
                Ok(Some(s)) => r matches EmbedNext::Go(t) && t == s && final(self).stage() == s,
                Ok(None) => r matches EmbedNext::Finished(Ok(_)),
                Err(f) => r matches EmbedNext::Finished(Err(e)) && e@ == f,
            },
    {
        match event {
            EmbedEvent::Borderless(Err(e)) => EmbedNext::Finished(Err(e)),
            EmbedEvent::Borderless(Ok(_)) => self.go(EmbedStage::Taskbar),
            EmbedEvent::Taskbar => self.go(EmbedStage::Measure),
            EmbedEvent::Measured(Err(t)) => desktop_failure("GetWindowRect 失败: ", t),
            EmbedEvent::Measured(Ok(rect)) => {
                self.place = place_wallpaper(
                    self.arrangement,
                    self.display_id.as_str(),
                    displays,
                    &rect,
                );
                self.go(EmbedStage::Reparent)
            },
            EmbedEvent::Reparented(Err(t)) => desktop_failure("SetParent 失败: ", t),
            EmbedEvent::Reparented(Ok(_)) => self.go(EmbedStage::Position),
            EmbedEvent::Positioned(Err(t)) => desktop_failure("SetWindowPos 失败: ", t),
            EmbedEvent::Positioned(Ok(_)) => self.go(EmbedStage::Focus),
            EmbedEvent::Focused => self.go(EmbedStage::Show),
            EmbedEvent::Shown => EmbedNext::Finished(Ok(())),
        }
    }

    /// Goes on with a stage.
    fn go(&mut self, stage: EmbedStage) -> (r: EmbedNext)
        ensures
            final(self).stage == stage,
            final(self).display_id == old(self).display_id,
            final(self).arrangement == old(self).arrangement,
            final(self).place == old(self).place,
            r == EmbedNext::Go(stage),
    {
        self.stage = stage;
        EmbedNext::Go(stage)
    }
}

/// The end with a failure of the desktop.
fn desktop_failure(what: &str, error: String) -> (r: EmbedNext)
    ensures
        r matches EmbedNext::Finished(Err(e)) && e@ == (
            ErrorKind::DesktopIntegration,
            what@ + error@,
        ),
{
    EmbedNext::Finished(
        Err(MirrorStarError::DesktopIntegration(text::join2(what, error.as_str()))),
    )
}

/// The path of the system's wallpaper, from the buffer that the system filled, if it did:
/// none if it is empty.
pub fn get_system_wallpaper(filled: bool, buffer: &[u16]) -> (r: Option<String>)
    ensures
        ({
            let path = encoding::text_of_utf16(crate::desktop::until_zero(buffer@));
            if filled && path.len() > 0 {
                r matches Some(p) && p@ == path
            } else {
                r is None
            }
        }),
{
    if !filled {
        return None;
    }
    let path = crate::desktop::extract_utf16_string(buffer);
    if path.as_str().is_empty() {
        None
    } else {
        Some(path)
    }
}

/// The path of a wallpaper as the system takes it to show it again; an error for a path
/// that the system would cut short.
pub fn restore_system_wallpaper(path: &str) -> (r: Result<Vec<u16>, MirrorStarError>)
    ensures
        crate::desktop::native_wallpaper::is_wide_path(r, path@),
{
    crate::desktop::native_wallpaper::wide_path(path)
}

/// The error for a wallpaper that the system does not take back.
pub fn restore_failure(error: &str) -> (r: MirrorStarError)
    ensures
        r@ == (ErrorKind::DesktopIntegration, "恢复系统壁纸失败: "@ + error@),
{
    MirrorStarError::DesktopIntegration(text::join2("恢复系统壁纸失败: ", error))
}

/// What to hand to the system to draw the desktop anew: its current wallpaper. Nothing if
/// it has none, or one that it would cut short.
pub fn refresh_desktop(current: Option<String>) -> (r: Option<Vec<u16>>)
    ensures
        match current {
            Some(p) if !crate::desktop::native_wallpaper::has_nul(p@) => r matches Some(w) && w@
                == encoding::utf16_of(p@).push(0u16),
            _ => r is None,
        },
{
    match current {
        Some(p) => match restore_system_wallpaper(p.as_str()) {
            Ok(w) => Some(w),
            Err(_) => None,
        },
        None => None,
    }
}

/// How long to wait before attempt number `i`, counted from zero, to find the wallpaper
/// window again, in milliseconds.
pub open spec fn retry_wait_ms(i: nat) -> nat {
    100 + 50 * i
}

/// How long to wait before attempt number `i`, counted from zero, to find the wallpaper
/// window again, in milliseconds.
pub fn compute_retry_wait_ms(i: u32) -> (r: u64)
    ensures
        r == retry_wait_ms(i as nat),
{
    100 + (i as u64) * 50
}

/// How long the first `n` attempts wait in all, in milliseconds.
pub open spec fn total_retry_wait_ms(n: nat) -> nat
    decreases n,
{
    if n == 0 {
        0
    } else {
        total_retry_wait_ms((n - 1) as nat) + retry_wait_ms((n - 1) as nat)
    }
}

/// Each attempt waits longer than the one before, and `n` attempts wait
/// `100 n + 25 n (n - 1)` milliseconds in all.
pub proof fn law_retry_waits(n: nat)
    ensures
        retry_wait_ms(n) < retry_wait_ms(n + 1),
        total_retry_wait_ms(n) == 100 * n + 25 * (n * (n - 1)),
    decreases n,
{
    if n > 0 {
        law_retry_waits((n - 1) as nat);
        let m = n - 1;
        assert(n * (n - 1) == m * (m - 1) + 2 * m) by (nonlinear_arith)
            requires
                m == n - 1,
        ;
    } else {
        assert(n * (n - 1) == 0) by (nonlinear_arith)
            requires
                n == 0,
        ;
    }
}

/// The window that a path leads to from the top: each number picks one of the children.
pub open spec fn window_at(tree: WindowTree, path: Seq<int>) -> Option<WindowTree>
    decreases path.len(),
{
    if path.len() == 0 {
        Some(tree)
    } else if 0 <= path[0] < tree.children@.len() {
        window_at(tree.children@[path[0]], path.drop_first())
    } else {
        None
    }
}

/// The window at the end of `path` is there and has `handle` as a child of the class.
pub open spec fn has_child(tree: WindowTree, path: Seq<int>, handle: usize) -> bool {
    window_at(tree, path) is Some && (window_at(tree, path)->0).matching == handle
}

proof fn lemma_first_child(trees: Seq<WindowTree>, depth: nat, i: int)
    requires
        0 <= i < trees.len(),
        child_of_class(trees[i], depth) is Some,
        forall|j: int| 0 <= j < i ==> child_of_class(#[trigger] trees[j], depth) is None,
    ensures
        first_child_of_class(trees, depth) == child_of_class(trees[i], depth),
    decreases i,
{
    if i > 0 {
        assert(child_of_class(trees[0], depth) is None);
        let rest = trees.drop_first();
        assert forall|j: int| 0 <= j < i - 1 implies child_of_class(#[trigger] rest[j], depth)
            is None by {
            assert(child_of_class(trees[j + 1], depth) is None);
        }
        lemma_first_child(rest, depth, i - 1);
    }
}

proof fn lemma_first_child_index(trees: Seq<WindowTree>, depth: nat) -> (i: int)
    ensures
        0 <= i <= trees.len(),
        i < trees.len() ==> child_of_class(trees[i], depth) is Some && first_child_of_class(
            trees,
            depth,
        ) == child_of_class(trees[i], depth),
        i == trees.len() ==> first_child_of_class(trees, depth) is None,
        forall|j: int| 0 <= j < i ==> child_of_class(#[trigger] trees[j], depth) is None,
    decreases trees.len(),
{
    if trees.len() == 0 || child_of_class(trees[0], depth) is Some {
        0
    } else {
        let rest = trees.drop_first();
        let k = lemma_first_child_index(rest, depth);
        assert forall|j: int| 0 <= j < k + 1 implies child_of_class(#[trigger] trees[j], depth)
            is None by {
            if j > 0 {
                assert(trees[j] == rest[j - 1]);
            }
        }
        k + 1
    }
}

/// What is found is a child of the class somewhere below the window, no deeper than allowed.
pub proof fn law_found_child_is_there(tree: WindowTree, depth: nat) -> (path: Seq<int>)
    requires
        child_of_class(tree, depth) is Some,
    ensures
        path.len() < depth,
        has_child(tree, path, child_of_class(tree, depth)->0),
        child_of_class(tree, depth)->0 != 0,
    decreases depth,
{
    if tree.matching != 0 {
        Seq::empty()
    } else {
        let i = lemma_first_child_index(tree.children@, (depth - 1) as nat);
        let below = law_found_child_is_there(tree.children@[i], (depth - 1) as nat);
        let path = seq![i] + below;
        assert(path.drop_first() =~= below);
        path
    }
}

/// If any window no deeper than allowed has a child of the class, one is found.
pub proof fn law_child_is_found(tree: WindowTree, depth: nat, path: Seq<int>, handle: usize)
    requires
        path.len() < depth,
        has_child(tree, path, handle),
        handle != 0,
    ensures
        child_of_class(tree, depth) is Some,
    decreases depth,
{
    if tree.matching == 0 {
        assert(path.len() > 0);
        let below = tree.children@[path[0]];
        law_child_is_found(below, (depth - 1) as nat, path.drop_first(), handle);
        let i = lemma_first_child_index(tree.children@, (depth - 1) as nat);
    }
}

/// A direct child of the class is preferred to deeper ones; of the children that lead to one
/// the first does.
pub proof fn law_nearest_child_first(tree: WindowTree, depth: nat, i: int)
    requires
        depth > 0,
    ensures
        tree.matching != 0 ==> child_of_class(tree, depth) == Some(tree.matching),
        tree.matching == 0 && 0 <= i < tree.children@.len() && child_of_class(
            tree.children@[i],
            (depth - 1) as nat,
        ) is Some && (forall|j: int|
            0 <= j < i ==> child_of_class(#[trigger] tree.children@[j], (depth - 1) as nat) is None)
            ==> child_of_class(tree, depth) == child_of_class(
            tree.children@[i],
            (depth - 1) as nat,
        ),
{
    if tree.matching == 0 && 0 <= i < tree.children@.len() && child_of_class(
        tree.children@[i],
        (depth - 1) as nat,
    ) is Some && (forall|j: int|
        0 <= j < i ==> child_of_class(#[trigger] tree.children@[j], (depth - 1) as nat) is None) {
        lemma_first_child(tree.children@, (depth - 1) as nat, i);
    }
}

/// A window can hold wallpapers exactly if it is there and its class is named "WorkerW",
/// letter for letter.
pub proof fn law_workerw_name(w: SeenWindow)
    ensures
        w.is_workerw() <==> {
            &&& w.handle != 0
            &&& w.class_name@.len() == "WorkerW"@.len()
            &&& forall|i: int|
                0 <= i < "WorkerW"@.len() ==> #[trigger] w.class_name@[i] == "WorkerW"@[i] as int
        },
{
    reveal_strlit("WorkerW");
    if w.class_name@.len() == "WorkerW"@.len() && (forall|i: int|
        0 <= i < "WorkerW"@.len() ==> #[trigger] w.class_name@[i] == "WorkerW"@[i] as int) {
        assert(w.class_name@ =~= workerw_class());
    }
}

/// A walk takes a window from beside a top-level window exactly if the latter has the icons,
/// at most three levels down, and one of its neighbours can hold wallpapers. The one that
/// follows is preferred. The narrower walk does the same for windows that are themselves
/// named "WorkerW", and takes nothing from beside others.
pub proof fn law_neighbour_of_icons(top: TopWindow)
    ensures
        child_of_class(top.tree, 3) is None ==> sibling_of_icons(top) is None,
        child_of_class(top.tree, 3) is Some && top.next.is_workerw() ==> sibling_of_icons(top)
            == Some(top.next.handle),
        child_of_class(top.tree, 3) is Some && !top.next.is_workerw() && top.prev.is_workerw()
            ==> sibling_of_icons(top) == Some(top.prev.handle),
        !top.next.is_workerw() && !top.prev.is_workerw() ==> sibling_of_icons(top) is None,
        top.class_name@ == seq![0x57u16, 0x6f, 0x72, 0x6b, 0x65, 0x72, 0x57]
            ==> sibling_of_icons_fallback(top) == sibling_of_icons(top),
        top.class_name@ != seq![0x57u16, 0x6f, 0x72, 0x6b, 0x65, 0x72, 0x57]
            ==> sibling_of_icons_fallback(top) is None,
{
}

/// What a search ends with, also when the system complains: without the program manager's
/// window it fails at once. A walk that found a window is not failed by a complaint; one
/// that found none is, and then nothing further is tried.
pub proof fn law_search_complaints(a: SearchAnswers)
    ensures
        a.progman matches Err(t) ==> search_end(SearchStage::Progman, 0, a)
            == SearchOutcome::Failed(
            (ErrorKind::DesktopIntegration, "未找到 Progman 窗口: "@ + t@),
        ),
        a.progman == Ok::<usize, String>(0) ==> search_end(SearchStage::Progman, 0, a)
            == SearchOutcome::Failed((ErrorKind::DesktopIntegration, "Progman 窗口句柄无效"@)),
        a.progman matches Ok(progman) ==> progman != 0 ==> ({
            let end = search_end(SearchStage::Progman, 0, a);
            let by_parent = a.shell_view != 0 && a.parent.is_workerw() && a.parent.handle
                != progman;
            let by_sibling = a.shell_view != 0 && a.sibling.is_workerw();
            &&& by_parent ==> end == SearchOutcome::Found(a.parent.handle)
            &&& !by_parent && by_sibling ==> end == SearchOutcome::Found(a.sibling.handle)
            &&& !by_parent && !by_sibling ==> {
                &&& a.direct.0 matches Some(w) ==> end == SearchOutcome::Found(w)
                &&& a.direct.0 is None ==> (a.direct.1 matches Some(t) ==> end
                    == SearchOutcome::Failed(
                    (
                        ErrorKind::DesktopIntegration,
                        "EnumWindows 调用失败（"@ + "Step 2: 直接查找 WorkerW"@ + "）: "@
                            + t@,
                    ),
                ))
                &&& a.direct.0 is None && a.direct.1 is None ==> {
                    &&& a.after_spawn.0 matches Some(w) ==> end == SearchOutcome::Found(w)
                    &&& a.after_spawn.0 is None ==> (a.after_spawn.1 matches Some(t) ==> end
                        == SearchOutcome::Failed(
                        (
                            ErrorKind::DesktopIntegration,
                            "EnumWindows 调用失败（"@
                                + "Step 4: 发送 WM_SPAWN_WORK 后查找 WorkerW"@ + "）: "@ + t@,
                        ),
                    ))
                    &&& a.after_spawn.0 is None && a.after_spawn.1 is None ==> {
                        &&& a.fallback.0 matches Some(w) ==> end == SearchOutcome::Found(w)
                        &&& a.fallback.0 is None ==> (a.fallback.1 matches Some(t) ==> end
                            == SearchOutcome::Failed(
                            (
                                ErrorKind::DesktopIntegration,
                                "EnumWindows 调用失败（"@ + "Step 5: 备用方法查找 WorkerW"@
                                    + "）: "@ + t@,
                            ),
                        ))
                        &&& a.fallback.0 is None && a.fallback.1 is None ==> end
                            == SearchOutcome::Failed(
                            (ErrorKind::WorkerWNotFound, Seq::<char>::empty()),
                        )
                    }
                }
            }
        }),
{
    reveal_with_fuel(search_end, 9);
}

/// Putting a wallpaper into the wallpaper window goes through all steps in this order: the
/// frame is removed, the task bar is left, the wallpaper window is measured, becomes the
/// parent, the place is taken, the focus is given back, and the window is shown. Only four
/// steps can fail, and a failure of one of them ends it with the words of that failure.
pub proof fn law_embedding_order(event: EmbedEvent)
    ensures
        embed_step(event) is Err <==> {
            ||| (event matches EmbedEvent::Borderless(r) && r is Err)
            ||| (event matches EmbedEvent::Measured(r) && r is Err)
            ||| (event matches EmbedEvent::Reparented(r) && r is Err)
            ||| (event matches EmbedEvent::Positioned(r) && r is Err)
        },
        event matches EmbedEvent::Borderless(Err(e)) ==> embed_step(event)->Err_0 == e@,
        embed_step(event) matches Err(f) ==> !(event is Borderless) ==> f.0
            == ErrorKind::DesktopIntegration,
        event matches EmbedEvent::Measured(Err(t)) ==> embed_step(event)->Err_0.1
            == "GetWindowRect 失败: "@ + t@,
        event matches EmbedEvent::Reparented(Err(t)) ==> embed_step(event)->Err_0.1
            == "SetParent 失败: "@ + t@,
        event matches EmbedEvent::Positioned(Err(t)) ==> embed_step(event)->Err_0.1
            == "SetWindowPos 失败: "@ + t@,
        embed_step(event) matches Ok(next) ==> ({
            let order = seq![
                EmbedStage::Borderless,
                EmbedStage::Taskbar,
                EmbedStage::Measure,
                EmbedStage::Reparent,
                EmbedStage::Position,
                EmbedStage::Focus,
                EmbedStage::Show,
            ];
            forall|k: int|
                0 <= k < 7 && embed_fits(#[trigger] order[k], event) ==> next == if k < 6 {
                    Some(order[k + 1])
                } else {
                    None
                }
        }),
{
}

/// The program manager's window is what the answer about it said; no other answer changes it.
pub proof fn law_progman_kept(progman: usize, event: SearchEvent)
    ensures
        event matches SearchEvent::Progman(Ok(h)) ==> progman_after(progman, event) == h,
        !(event is Progman) ==> progman_after(progman, event) == progman,
{
}

} // verus!
