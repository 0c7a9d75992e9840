//! The pointer: where it is in the scene and how it gets there.

use vstd::prelude::*;

verus! {

/// A position in scene space, in whole scene units.
#[derive(Clone, Copy, Debug, PartialEq, Eq, Structural)]
pub struct ScenePoint {
    pub x: i32,
    pub y: i32,
}

/// A position in the window, in whole pixels from its top left corner.
#[derive(Clone, Copy, Debug, PartialEq, Eq, Structural)]
pub struct WindowPoint {
    pub x: i32,
    pub y: i32,
}

/// The size of the viewport in whole pixels.
#[derive(Clone, Copy, Debug, PartialEq, Eq, Structural)]
pub struct Viewport {
    pub width: u32,
    pub height: u32,
}

impl Viewport {
    /// The position lies on one of the viewport's pixels.
    pub open spec fn holds(self, at: WindowPoint) -> bool {
        0 <= at.x < self.width && 0 <= at.y < self.height
    }

    /// Whether the position lies on one of the viewport's pixels.
    pub fn contains(&self, at: WindowPoint) -> (inside: bool)
        ensures
            inside == self.holds(at),
    {
        at.x >= 0 && at.y >= 0 && (at.x as u32) < self.width && (at.y as u32) < self.height
    }
}

/// What the windowing and rendering side knows of the pointer in one frame.
#[derive(Clone, Copy, Debug, PartialEq, Eq, Structural)]
pub struct PointerFacts {
    /// How many main cameras there are.
    pub cameras: usize,
    /// How many primary windows there are.
    pub windows: usize,
    /// Where the pointer is in the window, if the device reports it.
    pub cursor: Option<WindowPoint>,
    /// Where the camera places the cursor in the scene, if it can tell.
    pub projected: Option<ScenePoint>,
}

impl PointerFacts {
    /// There is exactly one main camera and exactly one primary window.
    pub open spec fn well_configured(self) -> bool {
        self.cameras == 1 && self.windows == 1
    }

    /// Whether there is exactly one main camera and exactly one primary
    /// window.
    pub fn is_well_configured(&self) -> (ok: bool)
        ensures
            ok == self.well_configured(),
    {
        self.cameras == 1 && self.windows == 1
    }
}

/// The last position of the pointer in the scene.
#[derive(Clone, Copy, Debug, PartialEq, Eq, Structural)]
pub struct MouseCoordinates {
    /// The last position that was recorded.
    pub position: ScenePoint,
    /// Whether a position inside the viewport was ever recorded.
    pub inside_viewport: bool,
}

impl MouseCoordinates {
    /// The state before the pointer was seen: the origin, not inside.
    pub open spec fn unseen() -> MouseCoordinates {
        MouseCoordinates { position: ScenePoint { x: 0, y: 0 }, inside_viewport: false }
    }

    /// The state before the pointer was seen.
    pub fn new() -> (coordinates: MouseCoordinates)
        ensures
            coordinates == MouseCoordinates::unseen(),
    {
        MouseCoordinates { position: ScenePoint { x: 0, y: 0 }, inside_viewport: false }
    }
}

impl Default for MouseCoordinates {
    /// The state before the pointer was seen.
    fn default() -> (coordinates: MouseCoordinates)
        ensures
            coordinates == MouseCoordinates::unseen(),
    {
        MouseCoordinates::new()
    }
}

/// The pointer's place in the scene: the camera's answer for a cursor on the
/// viewport, and nothing for a cursor that is absent or off the viewport.
pub open spec fn mapped(
    raw_position: Option<WindowPoint>,
    viewport: Viewport,
    projected: Option<ScenePoint>,
) -> Option<ScenePoint> {
    match raw_position {
        Some(at) => if viewport.holds(at) {
            projected
        } else {
            None
        },
        None => None,
    }
}

/// The pointer state after a frame in which the pointer mapped to `to`: a
/// new position is recorded, no position leaves the state as it was.
pub open spec fn recorded(
    coordinates: MouseCoordinates,
    to: Option<ScenePoint>,
) -> MouseCoordinates {
    match to {
        Some(position) => MouseCoordinates { position, inside_viewport: true },
        None => coordinates,
    }
}

/// Carries the pointer into the scene. `projected` is what the camera makes
/// of `raw_position`; it counts only while the cursor is on the viewport.
pub fn map_pointer(
    raw_position: Option<WindowPoint>,
    viewport: Viewport,
    projected: Option<ScenePoint>,
) -> (position: Option<ScenePoint>)
    ensures
        position == mapped(raw_position, viewport, projected),
        raw_position is None ==> position is None,
        raw_position is Some && !viewport.holds(raw_position.unwrap()) ==> position is None,
{
    match raw_position {
        Some(at) => if viewport.contains(at) {
            projected
        } else {
            None
        },
        None => None,
    }
}

/// The systems that keep the pointer state.
pub struct MousePlugin;

impl MousePlugin {
    /// Records where the pointer is in the scene. A frame in which the
    /// pointer maps to no position leaves the state untouched.
    pub fn cursor_position_to_world(
        coordinates: &mut MouseCoordinates,
        facts: &PointerFacts,
        viewport: Viewport,
    )
        requires
            facts.well_configured(),
        ensures
            *final(coordinates) == recorded(
                *old(coordinates),
                mapped(facts.cursor, viewport, facts.projected),
            ),
    {
        if let Some(position) = map_pointer(facts.cursor, viewport, facts.projected) {
            coordinates.position = position;
            coordinates.inside_viewport = true;
        }
    }
}

/// A pointer off the viewport maps to no position, and the pointer state
/// stays as the frame before left it.
pub proof fn lemma_pointer_outside_changes_nothing(
    coordinates: MouseCoordinates,
    at: WindowPoint,
    viewport: Viewport,
    projected: Option<ScenePoint>,
)
    requires
        !viewport.holds(at),
    ensures
        mapped(Some(at), viewport, projected) is None,
        recorded(coordinates, mapped(Some(at), viewport, projected)) == coordinates,
{
}

} // verus!
