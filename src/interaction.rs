//! The ordered set of control points and how pointer events change it.
use vstd::prelude::*;
use crate::control::ControlPoint;
use crate::point::Point;

verus! {

/// A key that the interaction reacts to.
#[derive(Clone, Copy, Debug, PartialEq, Eq, Structural)]
pub enum Key {
    Escape,
    Other,
}

/// An input event, as the windowing layer reports it.
#[derive(Clone, Copy, Debug, PartialEq, Eq, Structural)]
pub enum InputEvent {
    Quit,
    KeyDown { key: Key },
    MouseButtonDown { x: i32, y: i32 },
    MouseButtonUp,
    MouseMotion { x: i32, y: i32 },
    Other,
}

/// What the render loop does after an event.
#[derive(Clone, Copy, Debug, PartialEq, Eq, Structural)]
pub enum LoopAction {
    Continue,
    Exit,
}

/// A press at `(x, y)` selects the handle if it is hit, and leaves it otherwise.
pub open spec fn pressed(p: ControlPoint, x: int, y: int) -> ControlPoint {
    if p.hits(x, y) {
        ControlPoint { selected: true, ..p }
    } else {
        p
    }
}

/// A release deselects every handle.
pub open spec fn released(p: ControlPoint) -> ControlPoint {
    ControlPoint { selected: false, ..p }
}

/// A move to `(x, y)` puts a selected handle there, and leaves an idle one.
pub open spec fn moved(p: ControlPoint, x: i32, y: i32) -> ControlPoint {
    if p.selected {
        ControlPoint { position: Point { x, y }, ..p }
    } else {
        p
    }
}

pub open spec fn press_all(s: Seq<ControlPoint>, x: int, y: int) -> Seq<ControlPoint> {
    s.map_values(|p: ControlPoint| pressed(p, x, y))
}

pub open spec fn release_all(s: Seq<ControlPoint>) -> Seq<ControlPoint> {
    s.map_values(|p: ControlPoint| released(p))
}

pub open spec fn move_all(s: Seq<ControlPoint>, x: i32, y: i32) -> Seq<ControlPoint> {
    s.map_values(|p: ControlPoint| moved(p, x, y))
}

/// The control points after `e`.
pub open spec fn after_event(s: Seq<ControlPoint>, e: InputEvent) -> Seq<ControlPoint> {
    match e {
        InputEvent::MouseButtonDown { x, y } => press_all(s, x as int, y as int),
        InputEvent::MouseButtonUp => release_all(s),
        InputEvent::MouseMotion { x, y } => move_all(s, x, y),
        _ => s,
    }
}

/// Whether the loop goes on after `e`: a quit request or the escape key ends it.
pub open spec fn action_for(e: InputEvent) -> LoopAction {
    match e {
        InputEvent::Quit => LoopAction::Exit,
        InputEvent::KeyDown { key: Key::Escape } => LoopAction::Exit,
        _ => LoopAction::Continue,
    }
}

/// Every handle of `s` has a positive radius.
pub open spec fn all_wf(s: Seq<ControlPoint>) -> bool {
    forall|i: int| 0 <= i < s.len() ==> #[trigger] s[i].wf()
}

/// The control points of the curves, in order: the first is where the curves
/// start, the last of each curve's points is where it ends, and those between
/// are its handles. The number of points never changes.
pub struct ControlPointSet {
    points: Vec<ControlPoint>,
}

impl View for ControlPointSet {
    type V = Seq<ControlPoint>;

    closed spec fn view(&self) -> Seq<ControlPoint> {
        self.points@
    }
}

impl ControlPointSet {
    pub open spec fn wf(&self) -> bool {
        all_wf(self@)
    }

    /// Idle handles of the standard radius at `positions`, in that order.
    pub fn new(positions: &Vec<Point>) -> (r: ControlPointSet)
        ensures
            r.wf(),
            r@.len() == positions@.len(),
            forall|i: int|
                #![trigger r@[i]]
                0 <= i < positions@.len() ==> r@[i] == ControlPoint::new_spec(positions@[i]),
    {
        let mut points: Vec<ControlPoint> = Vec::new();
        let mut i: usize = 0;
        while i < positions.len()
            invariant
                i <= positions@.len(),
                points@.len() == i,
                forall|j: int|
                    #![trigger points@[j]]
                    0 <= j < i ==> points@[j] == ControlPoint::new_spec(positions@[j]),
            decreases positions@.len() - i,
        {
            points.push(ControlPoint::new(positions[i]));
            i = i + 1;
        }
        ControlPointSet { points }
    }

    /// The four points the curves start from.
    pub fn initial() -> (r: ControlPointSet)
        ensures
            r.wf(),
            r@ == seq![
                ControlPoint::new_spec(Point { x: 100, y: 50 }),
                ControlPoint::new_spec(Point { x: 250, y: 800 }),
                ControlPoint::new_spec(Point { x: 1300, y: 200 }),
                ControlPoint::new_spec(Point { x: 1500, y: 800 }),
            ],
    {
        let positions = vec![
            Point::new(100, 50),
            Point::new(250, 800),
            Point::new(1300, 200),
            Point::new(1500, 800),
        ];
        let r = ControlPointSet::new(&positions);
        assert(r@ =~= seq![
            ControlPoint::new_spec(Point { x: 100, y: 50 }),
            ControlPoint::new_spec(Point { x: 250, y: 800 }),
            ControlPoint::new_spec(Point { x: 1300, y: 200 }),
            ControlPoint::new_spec(Point { x: 1500, y: 800 }),
        ]);
        r
    }

    /// The number of control points.
    pub fn len(&self) -> (r: usize)
        ensures
            r == self@.len(),
    {
        self.points.len()
    }

    /// The control point at index `i`.
    pub fn get(&self, i: usize) -> (r: ControlPoint)
        requires
            i < self@.len(),
        ensures
            r == self@[i as int],
    {
        self.points[i]
    }

    /// All the control points, in order.
    pub fn points(&self) -> (r: &Vec<ControlPoint>)
        ensures
            r@ == self@,
    {
        &self.points
    }

    /// A pointer press at `(x, y)`: every handle that it hits becomes
    /// selected, however many there are; the others are left as they were.
    pub fn press(&mut self, x: i32, y: i32)
        requires
            old(self).wf(),
        ensures
            final(self).wf(),
            final(self)@ == press_all(old(self)@, x as int, y as int),
    {
        let n = self.points.len();
        let mut i: usize = 0;
        while i < n
            invariant
                n == self.points@.len(),
                n == old(self)@.len(),
                i <= n,
                forall|j: int|
                    #![trigger self.points@[j]]
                    0 <= j < i ==> self.points@[j] == pressed(old(self)@[j], x as int, y as int),
                forall|j: int| #![trigger self.points@[j]] i <= j < n ==> self.points@[j] == old(self)@[j],
            decreases n - i,
        {
            let mut p = self.points[i];
            if p.hit_test(x, y) {
                p.mark_selected();
            }
            self.points.set(i, p);
            i = i + 1;
        }
        assert(self@ =~= press_all(old(self)@, x as int, y as int));
        assert forall|j: int| 0 <= j < self@.len() implies #[trigger] self@[j].wf() by {
            assert(old(self)@[j].wf());
        }
    }

    /// A pointer release: every handle becomes idle, where it stands.
    pub fn release(&mut self)
        requires
            old(self).wf(),
        ensures
            final(self).wf(),
            final(self)@ == release_all(old(self)@),
    {
        let n = self.points.len();
        let mut i: usize = 0;
        while i < n
            invariant
                n == self.points@.len(),
                n == old(self)@.len(),
                i <= n,
                forall|j: int|
                    #![trigger self.points@[j]]
                    0 <= j < i ==> self.points@[j] == released(old(self)@[j]),
                forall|j: int| #![trigger self.points@[j]] i <= j < n ==> self.points@[j] == old(self)@[j],
            decreases n - i,
        {
            let mut p = self.points[i];
            if p.selected {
                p.mark_unselected();
            }
            self.points.set(i, p);
            i = i + 1;
        }
        assert(self@ =~= release_all(old(self)@));
        assert forall|j: int| 0 <= j < self@.len() implies #[trigger] self@[j].wf() by {
            assert(old(self)@[j].wf());
        }
    }

    /// A pointer move to `(x, y)`: every selected handle is put at `(x, y)`,
    /// all on the same spot; idle ones stay.
    pub fn drag_to(&mut self, x: i32, y: i32)
        requires
            old(self).wf(),
        ensures
            final(self).wf(),
            final(self)@ == move_all(old(self)@, x, y),
    {
        let n = self.points.len();
        let mut i: usize = 0;
        while i < n
            invariant
                n == self.points@.len(),
                n == old(self)@.len(),
                i <= n,
                forall|j: int|
                    #![trigger self.points@[j]]
                    0 <= j < i ==> self.points@[j] == moved(old(self)@[j], x, y),
                forall|j: int| #![trigger self.points@[j]] i <= j < n ==> self.points@[j] == old(self)@[j],
            decreases n - i,
        {
            let mut p = self.points[i];
            if p.selected {
                p.move_to(x, y);
            }
            self.points.set(i, p);
            i = i + 1;
        }
        assert(self@ =~= move_all(old(self)@, x, y));
        assert forall|j: int| 0 <= j < self@.len() implies #[trigger] self@[j].wf() by {
            assert(old(self)@[j].wf());
        }
    }

    /// Applies one input event and says whether the render loop goes on.
    pub fn handle_event(&mut self, e: InputEvent) -> (r: LoopAction)
        requires
            old(self).wf(),
        ensures
            final(self).wf(),
            final(self)@ == after_event(old(self)@, e),
            r == action_for(e),
    {
        match e {
            InputEvent::Quit => LoopAction::Exit,
            InputEvent::KeyDown { key } => match key {
                Key::Escape => LoopAction::Exit,
                Key::Other => LoopAction::Continue,
            },
            InputEvent::MouseButtonDown { x, y } => {
                self.press(x, y);
                LoopAction::Continue
            },
            InputEvent::MouseButtonUp => {
                self.release();
                LoopAction::Continue
            },
            InputEvent::MouseMotion { x, y } => {
                self.drag_to(x, y);
                LoopAction::Continue
            },
            InputEvent::Other => LoopAction::Continue,
        }
    }
}

/// A handle that a press at `(x0, y0)` hits follows a subsequent move to
/// `(x1, y1)` exactly, and a release straight after the press leaves it where
/// it was.
pub proof fn lemma_drag(s: Seq<ControlPoint>, i: int, x0: i32, y0: i32, x1: i32, y1: i32)
    requires
        0 <= i < s.len(),
        s[i].hits(x0 as int, y0 as int),
    ensures
        after_event(s, InputEvent::MouseButtonDown { x: x0, y: y0 })[i].selected,
        after_event(
            after_event(s, InputEvent::MouseButtonDown { x: x0, y: y0 }),
            InputEvent::MouseMotion { x: x1, y: y1 },
        )[i].position == (Point { x: x1, y: y1 }),
        after_event(
            after_event(s, InputEvent::MouseButtonDown { x: x0, y: y0 }),
            InputEvent::MouseButtonUp,
        )[i].position == s[i].position,
{
}

/// A release moves no handle and leaves none selected.
pub proof fn lemma_release_keeps_positions(s: Seq<ControlPoint>)
    ensures
        after_event(s, InputEvent::MouseButtonUp).len() == s.len(),
        forall|i: int|
            0 <= i < s.len() ==> (#[trigger] after_event(s, InputEvent::MouseButtonUp)[i]).position
                == s[i].position && !after_event(s, InputEvent::MouseButtonUp)[i].selected,
{
}

} // verus!
