//! What each unit is showing, kept from one run to the next.
use vstd::prelude::*;
use vstd::string::*;
use crate::config::manager;
use crate::config::manager::{AtomicWrite, WriteStage};
use crate::keyed::StringMap;
use crate::paths;

verus! {

/// The version of the file format.
pub const PLAYBACK_SCHEMA_VERSION: u32 = 1;

/// What all units are showing.
#[derive(Debug)]
pub struct PlaybackState {
    /// The version of the file format.
    pub version: u32,
    /// The units by their keys.
    pub units: StringMap<Unit>,
}

/// What one unit is showing.
#[derive(Clone, Debug)]
pub struct Unit {
    /// The unit's key.
    pub key: String,
    /// The wallpaper shown; none yet if there is none.
    pub current_wallpaper_id: Option<String>,
    /// The pool that wallpapers are taken from; all wallpapers if there is none.
    pub active_pool: Option<String>,
    /// Where a walk through the pool in order has come.
    pub order_cursor: Option<String>,
    /// What is left of a walk through the pool in random order.
    pub bag_remaining: Vec<String>,
    /// The unit changes its wallpaper.
    pub enabled: bool,
}

/// A unit that has not shown anything yet.
pub open spec fn is_fresh(unit: Unit, key: Seq<char>) -> bool {
    &&& unit.key@ == key
    &&& unit.current_wallpaper_id is None
    &&& unit.active_pool is None
    &&& unit.order_cursor is None
    &&& unit.bag_remaining@.len() == 0
    &&& !unit.enabled
}

/// A request for the unit with a key found the unit `given`, which was then left as `left`:
/// the unit that was there, or a fresh one.
pub open spec fn is_ensured(
    before: Map<Seq<char>, Unit>,
    key: Seq<char>,
    given: Unit,
    left: Unit,
    after: Map<Seq<char>, Unit>,
) -> bool {
    &&& if before.contains_key(key) {
        given == before[key]
    } else {
        is_fresh(given, key)
    }
    &&& after == before.insert(key, left)
}

impl Default for PlaybackState {
    fn default() -> (r: Self)
        ensures
            r.version == PLAYBACK_SCHEMA_VERSION,
            r.units@ == Map::<Seq<char>, Unit>::empty(),
            r.units.keys().len() == 0,
    {
        PlaybackState { version: PLAYBACK_SCHEMA_VERSION, units: StringMap::new() }
    }
}

impl PlaybackState {
    /// The unit with this key, to be changed in place. If there is none yet, a new one is
    /// put in.
    pub fn ensure_unit(&mut self, key: String) -> (r: &mut Unit)
        ensures
            is_ensured(old(self).units@, key@, *r, *final(r), final(self).units@),
            final(self).version == old(self).version,
            final(self).units.keys() == if old(self).units@.contains_key(key@) {
                old(self).units.keys()
            } else {
                old(self).units.keys().push(key@)
            },
    {
        let ghost before = self.units@;
        let ghost name = key@;
        if !self.units.contains_key(key.as_str()) {
            let unit = Unit {
                key: key.clone(),
                current_wallpaper_id: None,
                active_pool: None,
                order_cursor: None,
                bag_remaining: Vec::new(),
                enabled: false,
            };
            self.units.insert(key.clone(), unit);
            assert forall|u: Unit| self.units@.insert(name, u) =~= #[trigger] before.insert(
                name,
                u,
            ) by {}
        }
        self.units.get_mut(key.as_str()).unwrap()
    }
}

/// Where the file stands.
#[derive(Clone, Debug)]
pub struct PlaybackStore {
    path: String,
}

impl PlaybackStore {
    /// The path of the file.
    pub closed spec fn path_view(self) -> Seq<char> {
        self.path@
    }

    /// The file in the directory of the program's data.
    pub fn new(data_root: &str) -> (r: Self)
        ensures
            r.path_view() == paths::joined(data_root@, "playback.toml"@),
    {
        PlaybackStore::new_in_dir(data_root)
    }

    /// The file in the directory `dir`.
    pub fn new_in_dir(dir: &str) -> (r: Self)
        ensures
            r.path_view() == paths::joined(dir@, "playback.toml"@),
    {
        PlaybackStore { path: paths::join(dir, "playback.toml") }
    }

    /// The path of the file.
    pub fn path(&self) -> (r: &str)
        ensures
            r@ == self.path_view(),
    {
        self.path.as_str()
    }

    /// Starts to write the file.
    pub fn save(&self) -> (r: AtomicWrite)
        ensures
            r.path@ == self.path_view(),
            r.lock_path@ == paths::with_extension(self.path_view(), "lock"@),
            r.temp_path@ == paths::with_extension(self.path_view(), "tmp"@),
            r.stage == WriteStage::Writing,
    {
        manager::atomic_write(self.path.as_str())
    }

    /// What is used of the file: what was read from it, if that is of the current version;
    /// an empty state if it is missing, cannot be read, or is of another version.
    pub fn load(&self, read: Option<PlaybackState>) -> (r: PlaybackState)
        ensures
            is_loaded(read, r),
    {
        match read {
            Some(s) => {
                if s.version != PLAYBACK_SCHEMA_VERSION {
                    return PlaybackState::default();
                }
                s
            },
            None => PlaybackState::default(),
        }
    }
}

/// What is used of a file that was read and parsed, or could not be.
pub open spec fn is_loaded(read: Option<PlaybackState>, r: PlaybackState) -> bool {
    match read {
        Some(s) if s.version == PLAYBACK_SCHEMA_VERSION => r == s,
        _ => r.version == PLAYBACK_SCHEMA_VERSION && r.units@ == Map::<Seq<char>, Unit>::empty(),
    }
}

/// Both texts are missing, or both are there and the same.
pub open spec fn same_text(a: Option<String>, b: Option<String>) -> bool {
    match (a, b) {
        (Some(x), Some(y)) => x@ == y@,
        (None, None) => true,
        _ => false,
    }
}

/// Two units hold the same.
pub open spec fn same_unit(a: Unit, b: Unit) -> bool {
    &&& a.key@ == b.key@
    &&& same_text(a.current_wallpaper_id, b.current_wallpaper_id)
    &&& same_text(a.active_pool, b.active_pool)
    &&& same_text(a.order_cursor, b.order_cursor)
    &&& a.bag_remaining@.map_values(|s: String| s@) == b.bag_remaining@.map_values(
        |s: String| s@,
    )
    &&& a.enabled == b.enabled
}

/// Two states hold the same.
pub open spec fn same_state(a: PlaybackState, b: PlaybackState) -> bool {
    &&& a.version == b.version
    &&& a.units@.dom() == b.units@.dom()
    &&& forall|key: Seq<char>| #[trigger]
        a.units@.contains_key(key) ==> same_unit(a.units@[key], b.units@[key])
}

/// A state of the current version comes back as it is from a file that gives back what was
/// written. One of another version does not: an empty state takes its place.
pub proof fn law_written_state_comes_back(
    state: PlaybackState,
    parsed: PlaybackState,
    r: PlaybackState,
)
    requires
        same_state(parsed, state),
        is_loaded(Some(parsed), r),
    ensures
        r.version == PLAYBACK_SCHEMA_VERSION,
        if state.version == PLAYBACK_SCHEMA_VERSION {
            same_state(r, state)
        } else {
            r.units@ == Map::<Seq<char>, Unit>::empty()
        },
{
}

/// Asking for the same unit twice gives the same unit: the second request finds what the
/// first one left, and no further unit is put in. Other units stay as they are.
pub proof fn law_unit_reused(
    units: Map<Seq<char>, Unit>,
    key: Seq<char>,
    first_given: Unit,
    first_left: Unit,
    between: Map<Seq<char>, Unit>,
    second_given: Unit,
    second_left: Unit,
    after: Map<Seq<char>, Unit>,
    other: Seq<char>,
)
    requires
        is_ensured(units, key, first_given, first_left, between),
        is_ensured(between, key, second_given, second_left, after),
        other != key,
    ensures
        second_given == first_left,
        after.dom() == between.dom(),
        after.contains_key(other) <==> units.contains_key(other),
        units.contains_key(other) ==> after[other] == units[other],
{
    assert(after.dom() =~= between.dom());
}

/// A unit that was not there yet is a new one under its key: it shows nothing, has no pool,
/// nothing left to draw, and is switched off. One that was there is handed out as it was.
pub proof fn law_unit_handed_out(
    before: Map<Seq<char>, Unit>,
    key: Seq<char>,
    given: Unit,
    left: Unit,
    after: Map<Seq<char>, Unit>,
)
    requires
        is_ensured(before, key, given, left, after),
    ensures
        before.contains_key(key) ==> given == before[key],
        !before.contains_key(key) ==> {
            &&& given.key@ == key
            &&& given.current_wallpaper_id is None && given.active_pool is None
                && given.order_cursor is None
            &&& given.bag_remaining@.len() == 0 && !given.enabled
        },
        after.contains_key(key) && after[key] == left,
        forall|other: Seq<char>|
            other != key ==> (#[trigger] after.contains_key(other) <==> before.contains_key(other))
                && (after.contains_key(other) ==> after[other] == before[other]),
{
}

/// Only a state of version 1 is taken over; one of any other version, and a file that cannot
/// be read, count as an empty state of version 1.
pub proof fn law_state_loaded(read: Option<PlaybackState>, r: PlaybackState, key: Seq<char>)
    requires
        is_loaded(read, r),
    ensures
        r.version == 1,
        read matches Some(s) ==> s.version == 1 ==> r == s,
        !(read matches Some(s) && s.version == 1) ==> !r.units@.contains_key(key),
{
}

} // verus!
