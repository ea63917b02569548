//! Editor and application modes, and the small decisions that switch them.

use vstd::prelude::*;

use crate::id::Id;

verus! {

broadcast use vstd::std_specs::hash::group_hash_axioms;

/// Whether the application is editing the map or playing it.
#[derive(PartialEq, Eq, Structural, Clone, Copy, Debug, Hash)]
pub enum AppState {
    InEditor,
    InGame,
}

impl AppState {
    /// The state a playtest toggle switches to.
    pub fn toggled(&self) -> (r: AppState)
        ensures
            *self == AppState::InEditor ==> r == AppState::InGame,
            *self == AppState::InGame ==> r == AppState::InEditor,
    {
        match self {
            AppState::InEditor => AppState::InGame,
            AppState::InGame => AppState::InEditor,
        }
    }
}

/// A coordinate axis used by the selection.
#[derive(PartialEq, Eq, Structural, Clone, Copy, Debug, Hash)]
pub enum SelAxis {
    X,
    Y,
    Z,
}

/// How the selection moves.
#[derive(PartialEq, Eq, Structural, Clone, Copy, Debug, Hash)]
pub enum SelMode {
    Normal,
    AxisLocked(SelAxis),
}

/// Selection mode when the selection is locked to some axis.
#[derive(PartialEq, Eq, Structural, Clone, Copy, Debug, Hash)]
pub struct SelIsAxisLocked;

/// The axis the selection is locked to.
#[derive(PartialEq, Eq, Structural, Clone, Copy, Debug, Hash)]
pub struct LockedAxis(pub SelAxis);

impl SelMode {
    pub fn is_axis_locked(&self) -> (r: bool)
        ensures
            r == (*self is AxisLocked),
    {
        match self {
            SelMode::Normal => false,
            SelMode::AxisLocked(_) => true,
        }
    }

    /// The mode after asking to lock `axis`: locking the axis that is already
    /// locked unlocks it; otherwise that axis becomes locked.
    pub fn toggle_axis_lock(&self, axis: SelAxis) -> (r: SelMode)
        ensures
            *self == SelMode::AxisLocked(axis) ==> r == SelMode::Normal,
            *self != SelMode::AxisLocked(axis) ==> r == SelMode::AxisLocked(axis),
    {
        if *self != SelMode::AxisLocked(axis) {
            SelMode::AxisLocked(axis)
        } else {
            SelMode::Normal
        }
    }
}

impl SelIsAxisLocked {
    /// Present exactly when the selection is locked to an axis.
    pub fn compute(sources: SelMode) -> (r: Option<SelIsAxisLocked>)
        ensures
            r is Some <==> sources is AxisLocked,
    {
        if sources.is_axis_locked() {
            Some(SelIsAxisLocked)
        } else {
            None
        }
    }
}

impl LockedAxis {
    /// The locked axis, when there is one.
    pub fn compute(sources: SelMode) -> (r: Option<LockedAxis>)
        ensures
            match sources {
                SelMode::Normal => r is None,
                SelMode::AxisLocked(a) => r == Some(LockedAxis(a)),
            },
    {
        match sources {
            SelMode::Normal => None,
            SelMode::AxisLocked(axis) => Some(LockedAxis(axis)),
        }
    }

    pub fn get_axis(&self) -> (r: &SelAxis)
        ensures
            *r == self.0,
    {
        &self.0
    }
}

/// Slowest fly speed of the free-look camera.
pub const FREELOOK_MIN_SPEED: i32 = 1;

/// Fastest fly speed of the free-look camera.
pub const FREELOOK_MAX_SPEED: i32 = 10;

/// The fly speed after changing it by `change`, kept within the speed range.
pub fn modify_freelook_speed(speed: i32, change: i32) -> (r: i32)
    requires
        i32::MIN <= speed + change <= i32::MAX,
    ensures
        r == (if speed + change < FREELOOK_MIN_SPEED {
            FREELOOK_MIN_SPEED as int
        } else if speed + change > FREELOOK_MAX_SPEED {
            FREELOOK_MAX_SPEED as int
        } else {
            speed + change
        }),
        FREELOOK_MIN_SPEED <= r <= FREELOOK_MAX_SPEED,
{
    let s = speed + change;
    if s < FREELOOK_MIN_SPEED {
        FREELOOK_MIN_SPEED
    } else if s > FREELOOK_MAX_SPEED {
        FREELOOK_MAX_SPEED
    } else {
        s
    }
}

/// Visibility of an entity.
#[derive(PartialEq, Eq, Structural, Clone, Copy, Debug, Hash)]
pub enum Visibility {
    Inherited,
    Hidden,
    Visible,
}

/// The visibility a studio light gets when the studio lights are toggled:
/// hidden lights show again, any other light is hidden.
pub fn toggled_light_visibility(v: Visibility) -> (r: Visibility)
    ensures
        v == Visibility::Hidden ==> r == Visibility::Inherited,
        v != Visibility::Hidden ==> r == Visibility::Hidden,
{
    if v == Visibility::Hidden {
        Visibility::Inherited
    } else {
        Visibility::Hidden
    }
}

/// State of a user interface element under the pointer.
#[derive(PartialEq, Eq, Structural, Clone, Copy, Debug, Hash)]
pub enum Interaction {
    Pressed,
    Hovered,
    /// Neither pressed nor hovered.
    Untouched,
}

/// The user interface elements that currently keep clicks from reaching the
/// map, by entity handle.
pub struct ClickBlocker {
    pub entities_blocking: std::collections::HashSet<u64>,
}

impl ClickBlocker {
    pub fn new() -> (r: ClickBlocker)
        ensures
            r.entities_blocking@ == Set::<u64>::empty(),
    {
        ClickBlocker { entities_blocking: std::collections::HashSet::new() }
    }

    /// Clicks reach the map when no element blocks them.
    pub fn can_click(&self) -> (r: bool)
        ensures
            r == self.entities_blocking@.is_empty(),
    {
        self.entities_blocking.is_empty()
    }

    /// Records a change of an element's interaction: a pressed or hovered
    /// element blocks clicks, an element left alone does not.
    pub fn note_interaction(&mut self, entity: u64, interaction: Interaction)
        ensures
            interaction != Interaction::Untouched ==> final(self).entities_blocking@ == old(
                self,
            ).entities_blocking@.insert(entity),
            interaction == Interaction::Untouched ==> final(self).entities_blocking@ == old(
                self,
            ).entities_blocking@.remove(entity),
    {
        match interaction {
            Interaction::Pressed | Interaction::Hovered => {
                self.entities_blocking.insert(entity);
            },
            Interaction::Untouched => {
                self.entities_blocking.remove(&entity);
            },
        }
    }
}

/// How a new element gets its identifier.
#[derive(PartialEq, Eq, Structural, Clone, Copy, Debug)]
pub enum CreateId {
    /// The element comes from a saved state and keeps its identifier.
    Loaded(Id),
    /// The element is new and gets a generated identifier.
    Generated,
}

impl CreateId {
    pub fn loaded_id_or_none(&self) -> (r: Option<Id>)
        ensures
            match *self {
                CreateId::Loaded(id) => r == Some(id),
                CreateId::Generated => r is None,
            },
    {
        match self {
            CreateId::Loaded(id) => Some(*id),
            CreateId::Generated => None,
        }
    }
}

/// A database key that was looked up is missing.
#[derive(PartialEq, Eq, Structural, Clone, Copy, Debug)]
pub struct NotFound;

/// Turns a missing database value into a `NotFound` error.
pub fn ensure_exists<T>(value: Option<T>) -> (r: Result<T, NotFound>)
    ensures
        match value {
            Some(v) => r == Ok::<T, NotFound>(v),
            None => r == Err::<T, NotFound>(NotFound),
        },
{
    match value {
        Some(v) => Ok(v),
        None => Err(NotFound),
    }
}

} // verus!
