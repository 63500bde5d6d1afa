//! How displays are grouped into units that each show one wallpaper.
use vstd::prelude::*;
use vstd::string::*;
use crate::config::manager::DisplayInfo;
use crate::config::settings::Arrangement;
use crate::json;
use crate::keyed::StringMap;
use crate::text;

verus! {

/// The key of the unit that covers all displays.
pub const ALL_UNIT_KEY: &'static str = "all";

/// A display as far as the layout is concerned.
#[derive(Clone, Debug, PartialEq, Eq)]
pub struct LayoutMonitor {
    /// The system's name for it.
    pub id: String,
    /// It is the primary display.
    pub is_primary: bool,
}

impl From<&DisplayInfo> for LayoutMonitor {
    fn from(d: &DisplayInfo) -> (r: Self) {
        LayoutMonitor { id: d.id.clone(), is_primary: d.is_primary }
    }
}

impl vstd::std_specs::convert::FromSpecImpl<&DisplayInfo> for LayoutMonitor {
    open spec fn obeys_from_spec() -> bool {
        true
    }

    open spec fn from_spec(d: &DisplayInfo) -> LayoutMonitor {
        LayoutMonitor { id: d.id, is_primary: d.is_primary }
    }
}

/// The units of a set of displays.
#[derive(Debug)]
pub struct LayoutPlane {
    /// How wallpapers are spread over the displays.
    pub arrangement: Arrangement,
    /// The primary display.
    pub primary: Option<String>,
    /// The displays in the system's order.
    pub display_order: Vec<String>,
    /// The displays of each unit.
    pub unit_displays: StringMap<Vec<String>>,
}

/// What a layout says.
#[verifier::ext_equal]
pub struct PlaneView {
    pub arrangement: Arrangement,
    pub primary: Option<Seq<char>>,
    pub display_order: Seq<Seq<char>>,
    pub units: Map<Seq<char>, Seq<Seq<char>>>,
}

impl View for LayoutPlane {
    type V = PlaneView;

    open spec fn view(&self) -> PlaneView {
        PlaneView {
            arrangement: self.arrangement,
            primary: match self.primary {
                Some(p) => Some(p@),
                None => None,
            },
            display_order: json::texts_of(self.display_order@),
            units: self.unit_displays@.map_values(|v: Vec<String>| json::texts_of(v@)),
        }
    }
}

impl Default for LayoutPlane {
    fn default() -> (r: Self)
        ensures
            r@ == (PlaneView {
                arrangement: Arrangement::PerMonitor,
                primary: None,
                display_order: Seq::empty(),
                units: Map::empty(),
            }),
    {
        let r = LayoutPlane {
            arrangement: Arrangement::PerMonitor,
            primary: None,
            display_order: Vec::new(),
            unit_displays: StringMap::new(),
        };
        assert(r@.display_order =~= Seq::<Seq<char>>::empty());
        assert(r@.units =~= Map::<Seq<char>, Seq<Seq<char>>>::empty());
        r
    }
}

/// Why a unit was refused.
#[derive(Clone, Debug, PartialEq, Eq)]
pub enum LayoutError {
    /// There is no display.
    NoDisplays,
    /// There is no such display.
    OrphanUnit(String),
    /// All displays form one unit, and this is not it.
    InvalidUnitForArrangement(String),
}

impl LayoutError {
    /// The message shown to people.
    pub fn message(&self) -> (r: String)
        ensures
            r@ == match *self {
                LayoutError::NoDisplays => "无可用的显示器"@,
                LayoutError::OrphanUnit(k) => "孤儿单元（显示器不存在）: "@ + k@,
                LayoutError::InvalidUnitForArrangement(k) => "此编排下不允许设置单元: "@ + k@
                    + "（仅支持全局单元 all）"@,
            },
    {
        match self {
            LayoutError::NoDisplays => String::from_str("无可用的显示器"),
            LayoutError::OrphanUnit(k) => text::join2("孤儿单元（显示器不存在）: ", k.as_str()),
            LayoutError::InvalidUnitForArrangement(k) => {
                let mut s = String::from_str("此编排下不允许设置单元: ");
                s.append(k.as_str());
                s.append("（仅支持全局单元 all）");
                s
            },
        }
    }
}

/// The names of displays.
pub open spec fn ids_of(displays: Seq<LayoutMonitor>) -> Seq<Seq<char>> {
    displays.map_values(|d: LayoutMonitor| d.id@)
}

/// The first primary display.
pub open spec fn first_primary(displays: Seq<LayoutMonitor>) -> Option<Seq<char>>
    decreases displays.len(),
{
    if displays.len() == 0 {
        None
    } else if displays[0].is_primary {
        Some(displays[0].id@)
    } else {
        first_primary(displays.drop_first())
    }
}

/// The units: one for each display, or one for all if there are any.
pub open spec fn units_of(arrangement: Arrangement, ids: Seq<Seq<char>>) -> Map<
    Seq<char>,
    Seq<Seq<char>>,
> {
    if arrangement == Arrangement::PerMonitor {
        Map::new(|k: Seq<char>| ids.contains(k), |k: Seq<char>| seq![k])
    } else if ids.len() > 0 {
        Map::empty().insert(ALL_UNIT_KEY@, ids)
    } else {
        Map::empty()
    }
}

/// The layout of displays.
pub open spec fn planned(arrangement: Arrangement, displays: Seq<LayoutMonitor>) -> PlaneView {
    PlaneView {
        arrangement,
        primary: first_primary(displays),
        display_order: ids_of(displays),
        units: units_of(arrangement, ids_of(displays)),
    }
}

/// The names of displays.
fn collect_ids(displays: &[LayoutMonitor]) -> (r: Vec<String>)
    ensures
        json::texts_of(r@) == ids_of(displays@),
{
    let mut out: Vec<String> = Vec::new();
    let mut i: usize = 0;
    while i < displays.len()
        invariant
            i <= displays.len(),
            out@.len() == i,
            forall|k: int| 0 <= k < i ==> (#[trigger] out@[k])@ == displays@[k].id@,
        decreases displays.len() - i,
    {
        out.push(displays[i].id.clone());
        i += 1;
    }
    assert(json::texts_of(out@) =~= ids_of(displays@));
    out
}

/// The layout of displays.
pub fn plan(arrangement: Arrangement, displays: &[LayoutMonitor]) -> (r: LayoutPlane)
    ensures
        r@ == planned(arrangement, displays@),
{
    let mut primary: Option<String> = None;
    let mut i: usize = 0;
    assert(displays@.skip(0) =~= displays@);
    while i < displays.len() && primary.is_none()
        invariant
            i <= displays.len(),
            match primary {
                Some(p) => first_primary(displays@) == Some(p@),
                None => first_primary(displays@) == first_primary(displays@.skip(i as int)),
            },
        decreases displays.len() - i,
    {
        assert(displays@.skip(i as int)[0] == displays@[i as int]);
        assert(displays@.skip(i as int).drop_first() =~= displays@.skip(i + 1));
        if displays[i].is_primary {
            primary = Some(displays[i].id.clone());
        }
        i += 1;
    }
    let display_order = collect_ids(displays);
    let mut unit_displays: StringMap<Vec<String>> = StringMap::new();
    let ghost ids = ids_of(displays@);
    if arrangement == Arrangement::PerMonitor {
        let mut j: usize = 0;
        while j < displays.len()
            invariant
                j <= displays.len(),
                ids == ids_of(displays@),
                forall|k: Seq<char>| #[trigger]
                    unit_displays@.contains_key(k) <==> ids.take(j as int).contains(k),
                forall|k: Seq<char>| #[trigger]
                    unit_displays@.contains_key(k) ==> json::texts_of(unit_displays@[k]@) == seq![k],
            decreases displays.len() - j,
        {
            let mut only: Vec<String> = Vec::new();
            only.push(displays[j].id.clone());
            let ghost id = displays@[j as int].id@;
            assert(json::texts_of(only@) =~= seq![id]);
            let ghost so_far = ids.take(j as int);
            assert(ids.take(j + 1) =~= so_far.push(id));
            assert forall|k: Seq<char>| #[trigger] so_far.push(id).contains(k) <==> k == id
                || so_far.contains(k) by {
                assert(so_far.push(id)[so_far.len() as int] == id);
                if so_far.contains(k) {
                    let n = choose|n: int| 0 <= n < so_far.len() && so_far[n] == k;
                    assert(so_far.push(id)[n] == k);
                }
                if so_far.push(id).contains(k) && k != id {
                    let n = choose|n: int|
                        0 <= n < so_far.push(id).len() && so_far.push(id)[n] == k;
                    assert(so_far[n] == k);
                }
            }
            unit_displays.insert(displays[j].id.clone(), only);
            j += 1;
        }
        assert(ids.take(j as int) =~= ids);
    } else if displays.len() > 0 {
        unit_displays.insert(String::from_str(ALL_UNIT_KEY), collect_ids(displays));
    }
    let r = LayoutPlane { arrangement, primary, display_order, unit_displays };
    assert(r@.units =~= units_of(arrangement, ids));
    r
}

/// The keys of the units: the displays in order, or the one unit of all displays if there
/// are any.
pub open spec fn keys_of(plane: PlaneView) -> Seq<Seq<char>> {
    if plane.arrangement == Arrangement::PerMonitor {
        plane.display_order
    } else if plane.units.contains_key(ALL_UNIT_KEY@) {
        seq![ALL_UNIT_KEY@]
    } else {
        Seq::empty()
    }
}

/// The keys of the units.
pub fn unit_keys(plane: &LayoutPlane) -> (r: Vec<String>)
    ensures
        json::texts_of(r@) == keys_of(plane@),
{
    let mut out: Vec<String> = Vec::new();
    if plane.arrangement == Arrangement::PerMonitor {
        let mut i: usize = 0;
        while i < plane.display_order.len()
            invariant
                i <= plane.display_order.len(),
                out@.len() == i,
                forall|k: int| 0 <= k < i ==> (#[trigger] out@[k])@ == plane.display_order@[k]@,
            decreases plane.display_order.len() - i,
        {
            out.push(plane.display_order[i].clone());
            i += 1;
        }
        assert(json::texts_of(out@) =~= json::texts_of(plane.display_order@));
    } else if plane.unit_displays.contains_key(ALL_UNIT_KEY) {
        out.push(String::from_str(ALL_UNIT_KEY));
        assert(json::texts_of(out@) =~= seq![ALL_UNIT_KEY@]);
    } else {
        assert(json::texts_of(out@) =~= Seq::<Seq<char>>::empty());
    }
    out
}

/// Why a unit was refused, with the key in question.
pub enum LayoutFault {
    NoDisplays,
    OrphanUnit(Seq<char>),
    InvalidUnitForArrangement(Seq<char>),
}

/// The unit that a key stands for. With a unit for each display, no key or an empty one
/// stands for the primary display, or the first if none is primary. With one unit for
/// all, only that unit's key, an empty one or none will do.
pub open spec fn resolved(plane: PlaneView, key: Option<Seq<char>>) -> Result<
    Seq<char>,
    LayoutFault,
> {
    let given = match key {
        Some(k) => if k.len() > 0 {
            Some(k)
        } else {
            None
        },
        None => None,
    };
    if plane.arrangement == Arrangement::PerMonitor {
        let wanted = if given is Some {
            given
        } else if plane.primary is Some {
            plane.primary
        } else if plane.display_order.len() > 0 {
            Some(plane.display_order[0])
        } else {
            None
        };
        match wanted {
            None => Err(LayoutFault::NoDisplays),
            Some(k) => if plane.units.contains_key(k) {
                Ok(k)
            } else {
                Err(LayoutFault::OrphanUnit(k))
            },
        }
    } else {
        match given {
            Some(k) => if k == ALL_UNIT_KEY@ {
                Ok(ALL_UNIT_KEY@)
            } else {
                Err(LayoutFault::InvalidUnitForArrangement(k))
            },
            None => Ok(ALL_UNIT_KEY@),
        }
    }
}

/// The unit that `key` stands for.
pub fn validate_unit_key(plane: &LayoutPlane, key: Option<&str>) -> (r: Result<String, LayoutError>)
    ensures
        match resolved(
            plane@,
            match key {
                Some(k) => Some(k@),
                None => None,
            },
        ) {
            Ok(k) => r matches Ok(s) && s@ == k,
            Err(LayoutFault::NoDisplays) => r matches Err(LayoutError::NoDisplays),
            Err(LayoutFault::OrphanUnit(k)) => r matches Err(LayoutError::OrphanUnit(s)) && s@ == k,
            Err(LayoutFault::InvalidUnitForArrangement(k)) => r matches Err(
                LayoutError::InvalidUnitForArrangement(s),
            ) && s@ == k,
        },
{
    let given: Option<&str> = match key {
        Some(k) => if k.is_empty() {
            None
        } else {
            Some(k)
        },
        None => None,
    };
    if plane.arrangement == Arrangement::PerMonitor {
        let wanted: String = match given {
            Some(k) => String::from_str(k),
            None => match &plane.primary {
                Some(p) => p.clone(),
                None => {
                    if plane.display_order.len() == 0 {
                        return Err(LayoutError::NoDisplays);
                    }
                    plane.display_order[0].clone()
                },
            },
        };
        if !plane.unit_displays.contains_key(wanted.as_str()) {
            return Err(LayoutError::OrphanUnit(wanted));
        }
        Ok(wanted)
    } else {
        match given {
            Some(k) => {
                if !text::same_text(k, ALL_UNIT_KEY) {
                    return Err(LayoutError::InvalidUnitForArrangement(String::from_str(k)));
                }
                Ok(String::from_str(ALL_UNIT_KEY))
            },
            None => Ok(String::from_str(ALL_UNIT_KEY)),
        }
    }
}

/// The first primary display is one of the displays.
proof fn lemma_first_primary(displays: Seq<LayoutMonitor>)
    ensures
        first_primary(displays) matches Some(p) ==> ids_of(displays).contains(p),
    decreases displays.len(),
{
    if displays.len() > 0 {
        if displays[0].is_primary {
            assert(ids_of(displays)[0] == displays[0].id@);
        } else {
            lemma_first_primary(displays.drop_first());
            if let Some(p) = first_primary(displays.drop_first()) {
                let rest = ids_of(displays.drop_first());
                let k = choose|k: int| 0 <= k < rest.len() && rest[k] == p;
                assert(ids_of(displays)[k + 1] == p);
            }
        }
    }
}

/// With a unit for each display, the keys of the units are the displays in order, and each
/// unit consists of its display. Otherwise all displays form one unit, unless there
/// are none.
pub proof fn law_plan_covers_displays(arrangement: Arrangement, displays: Seq<LayoutMonitor>)
    ensures
        ({
            let plane = planned(arrangement, displays);
            let ids = ids_of(displays);
            &&& arrangement == Arrangement::PerMonitor ==> keys_of(plane) == ids && forall|i: int|
                0 <= i < ids.len() ==> plane.units.contains_key(#[trigger] ids[i])
                    && plane.units[ids[i]] == seq![ids[i]]
            &&& arrangement != Arrangement::PerMonitor && ids.len() > 0 ==> keys_of(plane)
                == seq![ALL_UNIT_KEY@] && plane.units[ALL_UNIT_KEY@] == ids
            &&& ids.len() == 0 ==> keys_of(plane).len() == 0
        }),
{
    let ids = ids_of(displays);
    assert forall|i: int| 0 <= i < ids.len() implies ids.contains(#[trigger] ids[i]) by {}
}

/// Every unit of a layout is accepted under its own key. (An empty key stands for the
/// primary display.)
pub proof fn law_unit_keys_are_valid(
    arrangement: Arrangement,
    displays: Seq<LayoutMonitor>,
    key: Seq<char>,
)
    requires
        keys_of(planned(arrangement, displays)).contains(key),
        key.len() > 0,
    ensures
        resolved(planned(arrangement, displays), Some(key)) == Ok::<Seq<char>, LayoutFault>(key),
{
}

/// Whatever key is accepted, it leads to a unit of the layout, if there are displays.
pub proof fn law_accepted_key_is_a_unit(
    arrangement: Arrangement,
    displays: Seq<LayoutMonitor>,
    key: Option<Seq<char>>,
)
    requires
        displays.len() > 0,
    ensures
        resolved(planned(arrangement, displays), key) matches Ok(k) ==> keys_of(
            planned(arrangement, displays),
        ).contains(k),
        key is None ==> resolved(planned(arrangement, displays), key) is Ok,
{
    lemma_first_primary(displays);
    let plane = planned(arrangement, displays);
    assert(ids_of(displays).contains(ids_of(displays)[0]));
    if arrangement != Arrangement::PerMonitor {
        assert(keys_of(plane)[0] == ALL_UNIT_KEY@);
    }
}

proof fn lemma_primary_is_first(displays: Seq<LayoutMonitor>, i: int)
    requires
        0 <= i <= displays.len(),
        i < displays.len() ==> displays[i].is_primary,
        forall|j: int| 0 <= j < i ==> !(#[trigger] displays[j]).is_primary,
    ensures
        i < displays.len() ==> first_primary(displays) == Some(displays[i].id@),
        i == displays.len() ==> first_primary(displays) is None,
    decreases i,
{
    if i > 0 {
        assert(!displays[0].is_primary);
        let rest = displays.drop_first();
        assert forall|j: int| 0 <= j < i - 1 implies !(#[trigger] rest[j]).is_primary by {
            assert(!displays[j + 1].is_primary);
        }
        lemma_primary_is_first(rest, i - 1);
    }
}

/// The plan names the displays in their order, and as the primary one the first that says so.
pub proof fn law_plan_names_displays(
    arrangement: Arrangement,
    displays: Seq<LayoutMonitor>,
    i: int,
)
    requires
        0 <= i <= displays.len(),
        i < displays.len() ==> displays[i].is_primary,
        forall|j: int| 0 <= j < i ==> !(#[trigger] displays[j]).is_primary,
    ensures
        ({
            let plane = planned(arrangement, displays);
            &&& plane.arrangement == arrangement
            &&& plane.display_order.len() == displays.len()
            &&& forall|j: int|
                0 <= j < displays.len() ==> #[trigger] plane.display_order[j] == displays[j].id@
            &&& i < displays.len() ==> plane.primary == Some(displays[i].id@)
            &&& i == displays.len() ==> plane.primary is None
        }),
{
    lemma_primary_is_first(displays, i);
}

/// With a wallpaper for each display, the units are exactly the displays, and each shows on
/// that display alone. Otherwise there is one unit, named "all", that shows on all displays,
/// and none without displays.
pub proof fn law_plan_units(arrangement: Arrangement, displays: Seq<LayoutMonitor>, key: Seq<char>)
    ensures
        ({
            let units = planned(arrangement, displays).units;
            &&& arrangement == Arrangement::PerMonitor ==> {
                &&& units.contains_key(key) <==> exists|i: int|
                    0 <= i < displays.len() && (#[trigger] displays[i]).id@ == key
                &&& units.contains_key(key) ==> units[key] == seq![key]
            }
            &&& arrangement != Arrangement::PerMonitor ==> {
                &&& units.contains_key(key) <==> displays.len() > 0 && key == "all"@
                &&& units.contains_key(key) ==> units[key].len() == displays.len() && forall|i: int|
                    0 <= i < displays.len() ==> #[trigger] units[key][i] == displays[i].id@
            }
        }),
{
    let ids = ids_of(displays);
    if arrangement == Arrangement::PerMonitor {
        if exists|i: int| 0 <= i < displays.len() && (#[trigger] displays[i]).id@ == key {
            let i = choose|i: int| 0 <= i < displays.len() && (#[trigger] displays[i]).id@ == key;
            assert(ids[i] == key);
        }
        if ids.contains(key) {
            let i = choose|i: int| 0 <= i < ids.len() && ids[i] == key;
            assert(displays[i].id@ == key);
        }
    }
}

/// With a wallpaper for each display, a key that is given must be that of a unit, and is
/// then the answer. Without a key it is the primary display, or the first one if none is
/// primary; without displays there is none. An empty key counts as none.
pub proof fn law_display_key(plane: PlaneView, key: Seq<char>)
    requires
        plane.arrangement == Arrangement::PerMonitor,
        key.len() > 0,
    ensures
        plane.units.contains_key(key) ==> resolved(plane, Some(key)) == Ok::<
            Seq<char>,
            LayoutFault,
        >(key),
        !plane.units.contains_key(key) ==> resolved(plane, Some(key)) == Err::<
            Seq<char>,
            LayoutFault,
        >(LayoutFault::OrphanUnit(key)),
        resolved(plane, None) == resolved(plane, Some(Seq::<char>::empty())),
        plane.primary matches Some(p) ==> resolved(plane, None) == if plane.units.contains_key(p) {
            Ok::<Seq<char>, LayoutFault>(p)
        } else {
            Err(LayoutFault::OrphanUnit(p))
        },
        plane.primary is None && plane.display_order.len() == 0 ==> resolved(plane, None) == Err::<
            Seq<char>,
            LayoutFault,
        >(LayoutFault::NoDisplays),
        plane.primary is None && plane.display_order.len() > 0 ==> resolved(plane, None)
            == if plane.units.contains_key(plane.display_order[0]) {
            Ok::<Seq<char>, LayoutFault>(plane.display_order[0])
        } else {
            Err(LayoutFault::OrphanUnit(plane.display_order[0]))
        },
{
}

/// With one wallpaper for all displays the only key is "all", which is also meant if no key
/// or an empty one is given. Any other key is refused by name.
pub proof fn law_shared_key(plane: PlaneView, key: Seq<char>)
    requires
        plane.arrangement != Arrangement::PerMonitor,
    ensures
        resolved(plane, None) == Ok::<Seq<char>, LayoutFault>("all"@),
        key.len() == 0 || key == "all"@ ==> resolved(plane, Some(key)) == Ok::<
            Seq<char>,
            LayoutFault,
        >("all"@),
        key.len() > 0 && key != "all"@ ==> resolved(plane, Some(key)) == Err::<
            Seq<char>,
            LayoutFault,
        >(LayoutFault::InvalidUnitForArrangement(key)),
{
}

/// The keys of a plane are its displays, in order, if each shows its own wallpaper, and else
/// "all" as long as there is such a unit.
pub proof fn law_unit_keys(plane: PlaneView, key: Seq<char>)
    ensures
        plane.arrangement == Arrangement::PerMonitor ==> keys_of(plane).len()
            == plane.display_order.len() && forall|i: int|
            0 <= i < plane.display_order.len() ==> #[trigger] keys_of(plane)[i]
                == plane.display_order[i],
        plane.arrangement != Arrangement::PerMonitor ==> keys_of(plane).len() <= 1 && (keys_of(
            plane,
        ).contains(key) <==> key == "all"@ && plane.units.contains_key(key)),
{
    if plane.arrangement != Arrangement::PerMonitor && plane.units.contains_key("all"@) {
        assert(keys_of(plane)[0] == "all"@);
    }
}

} // verus!
