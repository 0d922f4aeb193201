use ai_surfer::agent_output::PlanItem;
use ai_surfer::mouse::{hold_jitter, left_button_held, HoldGesture, MouseCommand, APPROACH_PAUSE_MS, HOLD_TICK_MS};
use ai_surfer::plan::render_plan;
use ai_surfer::session::SessionState;
use ai_surfer::text::{decimal_text, truncate, zero_padded_decimal};

#[test]
fn plan_markers_and_lines() {
    let plan = vec![
        PlanItem { step: 1, description: "open".to_string(), completed: true },
        PlanItem { step: 2, description: "search".to_string(), completed: false },
        PlanItem { step: 3, description: "read".to_string(), completed: false },
    ];
    assert_eq!(render_plan(&plan, Some(2)), "Plan:\n  [x] 1 - open\n  [>] 2 - search\n  [ ] 3 - read\n");
    assert_eq!(render_plan(&plan, Some(1)), "Plan:\n  [x] 1 - open\n  [ ] 2 - search\n  [ ] 3 - read\n");
    assert_eq!(render_plan(&[], Some(1)), "");
}

#[test]
fn hold_jitter_matches_the_gesture_formula() {
    for n in [1i64, 2, 3, 4, 5, 100, i64::MAX, i64::MIN, -7] {
        let dx = ((n.wrapping_mul(73)) % 3 - 1) as i32;
        let dy = ((n.wrapping_mul(31)) % 3 - 1) as i32;
        assert_eq!(hold_jitter(n), (dx, dy), "tick {n}");
    }
    assert!(left_button_held(1));
    assert!(left_button_held(3));
    assert!(!left_button_held(2));
    assert!(!left_button_held(0));
}

#[test]
fn number_and_text_helpers() {
    assert_eq!(decimal_text(0), "0");
    assert_eq!(decimal_text(u64::MAX), u64::MAX.to_string());
    assert_eq!(zero_padded_decimal(7, 4), "0007");
    assert_eq!(zero_padded_decimal(12345, 4), "12345");
    assert_eq!(truncate("héllo", 2), "hé\u{2026}");
    assert_eq!(truncate("héllo", 5), "héllo");
    assert_ne!(SessionState::Ready, SessionState::Closed);
}

#[test]
fn hold_gesture_approaches_presses_and_releases() {
    let mut g = HoldGesture::new(100, 200, 0);
    let xs = [67, 73, 80, 87, 93, 100];
    let ys = [175, 180, 185, 190, 195, 200];
    for i in 0..6 {
        assert_eq!(g.next(0), MouseCommand::Move { x: xs[i], y: ys[i], held: false });
        assert_eq!(g.next(0), MouseCommand::Pause(APPROACH_PAUSE_MS));
    }
    assert_eq!(g.next(0), MouseCommand::Press { x: 100, y: 200 });
    assert_eq!(g.next(0), MouseCommand::Release { x: 100, y: 200 });
    assert_eq!(g.next(0), MouseCommand::Done);
    assert_eq!(g.next(5), MouseCommand::Done);
}

#[test]
fn hold_gesture_jitters_while_held() {
    let mut g = HoldGesture::new(100, 200, 1000);
    for _ in 0..12 {
        g.next(0);
    }
    assert_eq!(g.next(0), MouseCommand::Press { x: 100, y: 200 });
    assert_eq!(g.next(0), MouseCommand::Pause(HOLD_TICK_MS));
    assert_eq!(g.next(80), MouseCommand::Move { x: 100, y: 200, held: true });
    assert_eq!(g.next(80), MouseCommand::Pause(HOLD_TICK_MS));
    assert_eq!(g.next(160), MouseCommand::Move { x: 101, y: 201, held: true });
    assert_eq!(g.next(1000), MouseCommand::Release { x: 100, y: 200 });
    assert_eq!(g.next(1100), MouseCommand::Done);
}

#[test]
fn hold_approach_matches_rounded_interpolation() {
    for (x, y) in [(0, 0), (-500, 37), (1919, 1079), (i32::MIN + 40, i32::MIN + 30), (i32::MAX - 1, i32::MAX - 1)] {
        let mut g = HoldGesture::new(x, y, 0);
        let (sx, sy) = (x - 40, y - 30);
        for i in 1..=6 {
            let t = f64::from(i) / 6.0;
            let cx = (f64::from(sx) + f64::from(x - sx) * t).round() as i32;
            let cy = (f64::from(sy) + f64::from(y - sy) * t).round() as i32;
            assert_eq!(g.next(0), MouseCommand::Move { x: cx, y: cy, held: false }, "({x}, {y}) step {i}");
            g.next(0);
        }
    }
}

#[test]
fn agent_ids_are_version_7_uuids() {
    for _ in 0..8 {
        let id = ai_surfer::ids::AgentId::new();
        assert_eq!((id.0 >> 76) & 0xf, 7);
        assert_eq!((id.0 >> 62) & 0x3, 2);
    }
}

#[test]
fn an_instant_hold_works_at_the_edge_of_the_range() {
    let mut g = HoldGesture::new(i32::MAX, i32::MAX, 0);
    for _ in 0..12 {
        g.next(0);
    }
    assert_eq!(g.next(0), MouseCommand::Press { x: i32::MAX, y: i32::MAX });
    assert_eq!(g.next(0), MouseCommand::Release { x: i32::MAX, y: i32::MAX });
    assert_eq!(g.next(0), MouseCommand::Done);
}
