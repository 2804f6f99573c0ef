use bezier_curves::control::{ControlPoint, POINT_RADIUS};
use bezier_curves::curve::{evaluate_cubic, SAMPLES};
use bezier_curves::interaction::{ControlPointSet, InputEvent, Key, LoopAction};
use bezier_curves::point::{Point, Rgb};

fn pt(x: i32, y: i32) -> Point {
    Point::new(x, y)
}

#[test]
fn new_point_is_idle_and_red() {
    let p = ControlPoint::new(pt(100, 50));
    assert_eq!(p.position, pt(100, 50));
    assert_eq!(p.radius, POINT_RADIUS);
    assert!(!p.selected);
    assert_eq!(p.color(), Rgb::new(255, 0, 0));
}

#[test]
fn colour_follows_selection() {
    let mut p = ControlPoint::new(pt(0, 0));
    p.mark_selected();
    assert!(p.selected);
    assert_eq!(p.color(), Rgb::new(0, 255, 0));
    p.mark_unselected();
    assert!(!p.selected);
    assert_eq!(p.color(), Rgb::new(255, 0, 0));
}

#[test]
fn move_to_sets_position() {
    let mut p = ControlPoint::new(pt(0, 0));
    p.move_to(-5, 17);
    assert_eq!(p.position, pt(-5, 17));
}

#[test]
fn hit_test_boundary() {
    let p = ControlPoint::new(pt(100, 50));
    assert!(p.hit_test(100, 50));
    assert!(p.hit_test(106, 50));
    assert!(!p.hit_test(107, 50));
    assert!(p.hit_test(100, 44));
    assert!(!p.hit_test(100, 43));
    assert!(p.hit_test(103, 54));
    assert!(!p.hit_test(104, 55));
}

#[test]
fn hit_test_far_away() {
    let p = ControlPoint::new(pt(i32::MAX, i32::MIN));
    assert!(!p.hit_test(i32::MIN, i32::MAX));
    assert!(p.hit_test(i32::MAX - 6, i32::MIN));
}

#[test]
fn press_selects_only_hit_points() {
    let mut set = ControlPointSet::initial();
    set.press(100, 50);
    assert!(set.get(0).selected);
    assert!(!set.get(1).selected);
    assert!(!set.get(2).selected);
    assert!(!set.get(3).selected);
    assert_eq!(set.get(0).position, pt(100, 50));
}

#[test]
fn press_on_nothing_selects_nothing() {
    let mut set = ControlPointSet::initial();
    set.press(700, 700);
    assert!(set.points().iter().all(|p| !p.selected));
}

#[test]
fn drag_moves_selected_point_exactly() {
    let mut set = ControlPointSet::initial();
    set.press(103, 54);
    set.drag_to(640, 360);
    assert_eq!(set.get(0).position, pt(640, 360));
    set.drag_to(641, 362);
    assert_eq!(set.get(0).position, pt(641, 362));
    assert_eq!(set.get(1).position, pt(250, 800));
}

#[test]
fn release_without_move_keeps_position() {
    let mut set = ControlPointSet::initial();
    set.press(104, 50);
    set.release();
    assert_eq!(set.get(0).position, pt(100, 50));
    assert!(!set.get(0).selected);
}

#[test]
fn move_without_selection_changes_nothing() {
    let mut set = ControlPointSet::initial();
    set.drag_to(5, 5);
    for (i, q) in [pt(100, 50), pt(250, 800), pt(1300, 200), pt(1500, 800)].iter().enumerate() {
        assert_eq!(set.get(i).position, *q);
    }
}

#[test]
fn overlapping_points_are_selected_together() {
    let mut set = ControlPointSet::new(&vec![pt(10, 10), pt(14, 10), pt(100, 100)]);
    set.press(12, 10);
    assert!(set.get(0).selected);
    assert!(set.get(1).selected);
    assert!(!set.get(2).selected);
    set.drag_to(50, 60);
    assert_eq!(set.get(0).position, pt(50, 60));
    assert_eq!(set.get(1).position, pt(50, 60));
    assert_eq!(set.get(2).position, pt(100, 100));
}

#[test]
fn quit_and_escape_end_the_loop() {
    let mut set = ControlPointSet::initial();
    assert_eq!(set.handle_event(InputEvent::Quit), LoopAction::Exit);
    assert_eq!(set.handle_event(InputEvent::KeyDown { key: Key::Escape }), LoopAction::Exit);
    assert_eq!(set.handle_event(InputEvent::KeyDown { key: Key::Other }), LoopAction::Continue);
    assert_eq!(set.handle_event(InputEvent::Other), LoopAction::Continue);
    assert_eq!(set.len(), 4);
    assert!(set.points().iter().all(|p| !p.selected));
}

#[test]
fn press_move_release_scenario() {
    let mut set = ControlPointSet::initial();
    let before = evaluate_cubic(
        set.get(0).position,
        set.get(1).position,
        set.get(2).position,
        set.get(3).position,
        5000,
        SAMPLES,
    );
    assert_eq!(
        set.handle_event(InputEvent::MouseButtonDown { x: 100, y: 50 }),
        LoopAction::Continue
    );
    assert!(set.get(0).selected);
    assert!(!set.get(1).selected && !set.get(2).selected && !set.get(3).selected);
    assert_eq!(
        set.handle_event(InputEvent::MouseMotion { x: 400, y: 400 }),
        LoopAction::Continue
    );
    assert_eq!(set.get(0).position, pt(400, 400));
    assert_eq!(set.get(1).position, pt(250, 800));
    assert_eq!(set.get(2).position, pt(1300, 200));
    assert_eq!(set.get(3).position, pt(1500, 800));
    assert_eq!(set.handle_event(InputEvent::MouseButtonUp), LoopAction::Continue);
    assert!(set.points().iter().all(|p| !p.selected));
    let after = evaluate_cubic(
        set.get(0).position,
        set.get(1).position,
        set.get(2).position,
        set.get(3).position,
        5000,
        SAMPLES,
    );
    assert_eq!(after, pt(818, 525));
    assert_ne!(after, before);
}
