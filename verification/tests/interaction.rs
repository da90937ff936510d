use paint_core::helpers::{Action, Rgba, Size};
use paint_core::machine::{GpuOp, InteractionState, Machine};
use paint_core::points::Point;
use paint_core::render::CopyDirection;
use paint_core::transform::{window_to_texture, Frac};

fn points_of(m: &Machine) -> Vec<(i64, i64)> {
    let mut v = Vec::new();
    let n = m.buffer.len();
    let mut i = 0;
    while i < n {
        let p = m.buffer.get(i);
        v.push((p.x, p.y));
        i += 1;
    }
    v
}

#[test]
fn press_from_init_seeds_two_points() {
    let mut m = Machine::new();
    let eff = m.on_press(Point::new(100, 100), Action::DrawLine, 10, Rgba::new(0, 0, 0, 255));
    assert!(eff.is_empty());
    assert_eq!(m.state, InteractionState::AddPoints);
    assert_eq!(points_of(&m), vec![(100, 100), (100, 100)]);
    assert_eq!(m.buffer.len(), 2);
}

#[test]
fn motion_replaces_newest_point() {
    let mut m = Machine::new();
    m.on_press(Point::new(100, 100), Action::DrawLine, 10, Rgba::new(0, 0, 0, 255));
    let eff = m.on_motion(Point::new(200, 150), false);
    assert_eq!(points_of(&m), vec![(100, 100), (200, 150)]);
    assert_eq!(m.buffer.len(), 2);
    assert_eq!(eff, vec![GpuOp::RequestRedraw]);
}

#[test]
fn second_press_moves_to_edit_points() {
    let mut m = Machine::new();
    m.on_press(Point::new(100, 100), Action::DrawLine, 10, Rgba::new(0, 0, 0, 255));
    m.on_motion(Point::new(200, 150), false);
    let eff = m.on_press(Point::new(200, 150), Action::DrawLine, 10, Rgba::new(0, 0, 0, 255));
    assert!(eff.is_empty());
    assert_eq!(m.state, InteractionState::EditPoints);
    assert_eq!(points_of(&m), vec![(100, 100), (200, 150)]);
}

#[test]
fn enter_commits_and_resets() {
    let mut m = Machine::new();
    m.on_press(Point::new(100, 100), Action::DrawLine, 10, Rgba::new(0, 0, 0, 255));
    m.on_motion(Point::new(200, 150), false);
    m.on_press(Point::new(200, 150), Action::DrawLine, 10, Rgba::new(0, 0, 0, 255));
    let eff = m.on_enter(Action::DrawLine);
    assert_eq!(
        eff,
        vec![
            GpuOp::Draw,
            GpuOp::Copy(CopyDirection::FrontToBack),
            GpuOp::RequestRedraw,
        ]
    );
    assert_eq!(m.state, InteractionState::Init);
    assert_eq!(m.buffer.len(), 0);
    assert_eq!(m.grabbed, None);
}

#[test]
fn fill_press_dispatches_fill_and_commit() {
    let mut m = Machine::new();
    let color = Rgba::new(10, 20, 30, 255);
    let eff = m.on_press(Point::new(7, 9), Action::Fill, 10, color);
    assert_eq!(
        eff,
        vec![
            GpuOp::Fill(Point::new(7, 9), color),
            GpuOp::Copy(CopyDirection::FrontToBack),
            GpuOp::RequestRedraw,
        ]
    );
    assert_eq!(m.state, InteractionState::Init);
    assert_eq!(m.buffer.len(), 0);
}

#[test]
fn polygon_appends_stay_within_capacity() {
    let mut m = Machine::new();
    m.on_press(Point::new(0, 0), Action::DrawPolygon, 10, Rgba::new(0, 0, 0, 255));
    assert_eq!(m.buffer.len(), 2);
    for i in 0..5000i64 {
        m.on_press(Point::new(i, i), Action::DrawPolygon, 10, Rgba::new(0, 0, 0, 255));
        assert!(m.buffer.len() <= 4096);
    }
    assert_eq!(m.buffer.len(), 4096);
    assert_eq!(m.state, InteractionState::AddPoints);
}

#[test]
fn erase_recycles_oldest_point() {
    let mut m = Machine::new();
    m.on_press(Point::new(1, 1), Action::Erase, 10, Rgba::new(0, 0, 0, 255));
    m.on_motion(Point::new(2, 2), false);
    assert_eq!(points_of(&m), vec![(1, 1), (2, 2)]);
    m.on_press(Point::new(3, 3), Action::Erase, 10, Rgba::new(0, 0, 0, 255));
    // the oldest point leaves, the newest moves to the front, the press joins
    assert_eq!(points_of(&m), vec![(2, 2), (3, 3)]);
    assert_eq!(m.state, InteractionState::AddPoints);
}

#[test]
fn grab_picks_first_nearest_within_tolerance() {
    let mut m = Machine::new();
    m.on_press(Point::new(0, 0), Action::DrawLine, 10, Rgba::new(0, 0, 0, 255));
    m.on_motion(Point::new(8, 0), false);
    m.on_press(Point::new(8, 0), Action::DrawLine, 10, Rgba::new(0, 0, 0, 255));
    assert_eq!(m.state, InteractionState::EditPoints);
    // press midway: both points at distance 4, within tolerance 10; the
    // tie goes to the oldest point
    m.on_press(Point::new(4, 0), Action::DrawLine, 10, Rgba::new(0, 0, 0, 255));
    assert_eq!(m.grabbed, Some(0));
    // pressing again releases the grab
    m.on_press(Point::new(4, 0), Action::DrawLine, 10, Rgba::new(0, 0, 0, 255));
    assert_eq!(m.grabbed, None);
}

#[test]
fn grab_out_of_tolerance_finds_nothing() {
    let mut m = Machine::new();
    m.on_press(Point::new(0, 0), Action::DrawLine, 5, Rgba::new(0, 0, 0, 255));
    m.on_press(Point::new(0, 0), Action::DrawLine, 5, Rgba::new(0, 0, 0, 255));
    m.on_press(Point::new(50, 50), Action::DrawLine, 5, Rgba::new(0, 0, 0, 255));
    assert_eq!(m.grabbed, None);
}

#[test]
fn grabbed_point_follows_motion() {
    let mut m = Machine::new();
    m.on_press(Point::new(0, 0), Action::DrawLine, 10, Rgba::new(0, 0, 0, 255));
    m.on_motion(Point::new(30, 0), false);
    m.on_press(Point::new(30, 0), Action::DrawLine, 10, Rgba::new(0, 0, 0, 255));
    m.on_press(Point::new(1, 1), Action::DrawLine, 10, Rgba::new(0, 0, 0, 255));
    assert_eq!(m.grabbed, Some(0));
    let eff = m.on_motion(Point::new(5, 5), true);
    assert_eq!(points_of(&m), vec![(5, 5), (30, 0)]);
    assert_eq!(
        eff,
        vec![
            GpuOp::Copy(CopyDirection::BackToFront),
            GpuOp::Draw,
            GpuOp::RequestRedraw,
        ]
    );
}

#[test]
fn escape_cancels_everything() {
    let mut m = Machine::new();
    m.on_press(Point::new(1, 2), Action::DrawRectangle, 10, Rgba::new(0, 0, 0, 255));
    let eff = m.on_escape();
    assert_eq!(
        eff,
        vec![
            GpuOp::Copy(CopyDirection::BackToFront),
            GpuOp::Draw,
            GpuOp::Copy(CopyDirection::FrontToBack),
            GpuOp::RequestRedraw,
        ]
    );
    assert_eq!(m.state, InteractionState::Init);
    assert_eq!(m.buffer.len(), 0);
}

#[test]
fn delete_single_shape_cancels() {
    let mut m = Machine::new();
    m.on_press(Point::new(1, 2), Action::DrawCircle, 10, Rgba::new(0, 0, 0, 255));
    let eff = m.on_delete(Action::DrawCircle, true);
    assert_eq!(m.state, InteractionState::Init);
    assert_eq!(m.buffer.len(), 0);
    assert_eq!(eff.len(), 4);
}

#[test]
fn delete_polygon_grabbed_removes_point() {
    let mut m = Machine::new();
    m.on_press(Point::new(0, 0), Action::DrawPolygon, 10, Rgba::new(0, 0, 0, 255));
    m.on_motion(Point::new(10, 0), false);
    m.on_press(Point::new(10, 0), Action::DrawPolygon, 10, Rgba::new(0, 0, 0, 255));
    m.on_motion(Point::new(10, 10), false);
    m.on_enter(Action::DrawPolygon);
    assert_eq!(m.state, InteractionState::EditPoints);
    assert_eq!(points_of(&m), vec![(0, 0), (10, 0), (10, 10)]);
    m.on_press(Point::new(10, 0), Action::DrawPolygon, 3, Rgba::new(0, 0, 0, 255));
    assert_eq!(m.grabbed, Some(1));
    let eff = m.on_delete(Action::DrawPolygon, false);
    assert_eq!(points_of(&m), vec![(0, 0), (10, 10)]);
    assert_eq!(m.grabbed, Some(0));
    assert_eq!(eff, vec![GpuOp::RequestRedraw]);
}

#[test]
fn delete_polygon_grabbed_at_minimum_cancels() {
    let mut m = Machine::new();
    m.on_press(Point::new(0, 0), Action::DrawPolygon, 10, Rgba::new(0, 0, 0, 255));
    m.on_motion(Point::new(10, 0), false);
    m.on_press(Point::new(10, 0), Action::DrawPolygon, 10, Rgba::new(0, 0, 0, 255));
    m.on_motion(Point::new(10, 10), false);
    m.on_enter(Action::DrawPolygon);
    m.on_press(Point::new(10, 10), Action::DrawPolygon, 3, Rgba::new(0, 0, 0, 255));
    assert_eq!(m.grabbed, Some(2));
    let eff = m.on_delete(Action::DrawPolygon, false);
    assert_eq!(m.state, InteractionState::Init);
    assert_eq!(m.buffer.len(), 0);
    assert_eq!(m.grabbed, None);
    assert_eq!(eff.len(), 4);
}

#[test]
fn polygon_enter_closes_then_commits() {
    let mut m = Machine::new();
    m.on_press(Point::new(0, 0), Action::DrawPolygon, 10, Rgba::new(0, 0, 0, 255));
    let eff1 = m.on_enter(Action::DrawPolygon);
    assert!(eff1.is_empty());
    assert_eq!(m.state, InteractionState::EditPoints);
    let eff2 = m.on_enter(Action::DrawPolygon);
    assert_eq!(m.state, InteractionState::Init);
    assert_eq!(m.buffer.len(), 0);
    assert_eq!(eff2.len(), 3);
}

#[test]
fn transitions_are_deterministic() {
    let run = || {
        let mut m = Machine::new();
        let mut log: Vec<Vec<GpuOp>> = Vec::new();
        log.push(m.on_press(Point::new(3, 4), Action::DrawLine, 7, Rgba::new(1, 2, 3, 4)));
        log.push(m.on_motion(Point::new(9, 9), true));
        log.push(m.on_press(Point::new(9, 9), Action::DrawLine, 7, Rgba::new(1, 2, 3, 4)));
        log.push(m.on_enter(Action::DrawLine));
        (m.state, points_of(&m), m.grabbed, log)
    };
    let a = run();
    let b = run();
    assert_eq!(a.0, b.0);
    assert_eq!(a.1, b.1);
    assert_eq!(a.2, b.2);
    assert_eq!(a.3, b.3);
}

#[test]
fn press_and_move_through_the_view_transform() {
    let win = Size::new(1000u32, 1000u32);
    let tex = Size::new(1000u32, 1000u32);
    let zoom = Frac::new(100, 1);
    let offset = (Frac::new(0, 1), Frac::new(0, 1));
    let to_texture = |x: i64, y: i64| {
        let t = window_to_texture(
            (Frac::new(x, 1), Frac::new(y, 1)),
            win,
            tex,
            zoom,
            offset,
        );
        Point::new(t.0.floor(), t.1.floor())
    };
    let mut m = Machine::new();
    let press = to_texture(100, 100);
    m.on_press(press, Action::DrawLine, 10, Rgba::new(0, 0, 0, 255));
    assert_eq!(m.state, InteractionState::AddPoints);
    assert_eq!(points_of(&m), vec![(100, 100), (100, 100)]);
    let moved = to_texture(200, 150);
    m.on_motion(moved, false);
    assert_eq!(points_of(&m), vec![(100, 100), (200, 150)]);
    assert_eq!(m.buffer.len(), 2);
}
