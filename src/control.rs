//! Draggable control points and the selection and drag state machine that
//! pointer events drive.
use vstd::prelude::*;
use crate::point::{Point, Rgb};

verus! {

/// Radius in pixels of a control point's handle, both drawn and hit-tested.
pub const POINT_RADIUS: i16 = 6;

/// A draggable handle: its position, its radius, and whether a drag holds it.
#[derive(Clone, Copy, Debug, PartialEq, Eq, Structural)]
pub struct ControlPoint {
    pub position: Point,
    pub radius: i16,
    pub selected: bool,
}

/// The colour of an idle control point.
pub open spec fn idle_color() -> Rgb {
    Rgb { r: 255, g: 0, b: 0 }
}

/// The colour of a control point under a drag.
pub open spec fn selected_color() -> Rgb {
    Rgb { r: 0, g: 255, b: 0 }
}

impl ControlPoint {
    /// A handle has a positive radius.
    pub open spec fn wf(&self) -> bool {
        self.radius > 0
    }

    /// Whether `(x, y)` lies within the handle's radius of its position
    /// (Euclidean distance, boundary included).
    pub open spec fn hits(&self, x: int, y: int) -> bool {
        (x - self.position.x) * (x - self.position.x) + (y - self.position.y) * (y
            - self.position.y) <= self.radius * self.radius
    }

    /// An idle handle of the standard radius at `position`.
    pub open spec fn new_spec(position: Point) -> ControlPoint {
        ControlPoint { position, radius: POINT_RADIUS, selected: false }
    }

    /// An idle handle of the standard radius at `position`.
    pub fn new(position: Point) -> (r: ControlPoint)
        ensures
            r == ControlPoint::new_spec(position),
            r.wf(),
    {
        ControlPoint { position, radius: POINT_RADIUS, selected: false }
    }

    /// Hit-test: whether `(x, y)` is at distance at most the radius.
    pub fn hit_test(&self, x: i32, y: i32) -> (r: bool)
        ensures
            r == self.hits(x as int, y as int),
    {
        let dx: i128 = x as i128 - self.position.x as i128;
        let dy: i128 = y as i128 - self.position.y as i128;
        let rad: i128 = self.radius as i128;
        proof {
            assert(dx * dx <= 0x1_0000_0000 * 0x1_0000_0000) by (nonlinear_arith)
                requires
                    -0x1_0000_0000 <= dx <= 0x1_0000_0000,
            ;
            assert(dy * dy <= 0x1_0000_0000 * 0x1_0000_0000) by (nonlinear_arith)
                requires
                    -0x1_0000_0000 <= dy <= 0x1_0000_0000,
            ;
            assert(0 <= dx * dx && 0 <= dy * dy && 0 <= rad * rad) by (nonlinear_arith);
            assert(rad * rad <= 0x8000 * 0x8000) by (nonlinear_arith)
                requires
                    -0x8000 <= rad <= 0x8000,
            ;
        }
        dx * dx + dy * dy <= rad * rad
    }

    /// Starts a drag of this handle.
    pub fn mark_selected(&mut self)
        ensures
            final(self).selected,
            final(self).position == old(self).position,
            final(self).radius == old(self).radius,
    {
        self.selected = true;
    }

    /// Ends a drag of this handle.
    pub fn mark_unselected(&mut self)
        ensures
            !final(self).selected,
            final(self).position == old(self).position,
            final(self).radius == old(self).radius,
    {
        self.selected = false;
    }

    /// Puts the handle at `(x, y)`.
    pub fn move_to(&mut self, x: i32, y: i32)
        ensures
            final(self).position == (Point { x, y }),
            final(self).radius == old(self).radius,
            final(self).selected == old(self).selected,
    {
        self.position = Point { x, y };
    }

    /// The colour the handle is drawn in, which follows from its selection alone.
    pub fn color(&self) -> (c: Rgb)
        ensures
            c == (if self.selected {
                selected_color()
            } else {
                idle_color()
            }),
    {
        if self.selected {
            Rgb::green()
        } else {
            Rgb::red()
        }
    }
}

/// A query at distance exactly the radius hits the handle; one at distance
/// radius + 1 does not.
pub proof fn lemma_hit_boundary(p: ControlPoint, x: int, y: int)
    requires
        p.wf(),
    ensures
        (x - p.position.x) * (x - p.position.x) + (y - p.position.y) * (y - p.position.y) == p.radius
            * p.radius ==> p.hits(x, y),
        (x - p.position.x) * (x - p.position.x) + (y - p.position.y) * (y - p.position.y) == (
        p.radius + 1) * (p.radius + 1) ==> !p.hits(x, y),
{
    let r = p.radius as int;
    assert(r * r < (r + 1) * (r + 1)) by (nonlinear_arith)
        requires
            r > 0,
    ;
}

} // verus!
