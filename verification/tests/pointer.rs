use ui::pointer::mouse_button;
use ui::pointer::{ButtonState, PointerEvent, PointerState, WlPointerEvent};

#[test]
fn enter_sets_the_position() {
    let mut s = PointerState::new();
    let e = s.process(&WlPointerEvent::Enter { serial: 1, surface: 7, surface_x: 256, surface_y: 512 });
    assert_eq!(e, Some(PointerEvent::Enter { surface: 7, x: 256, y: 512 }));
    assert_eq!(s, PointerState { x: 256, y: 512 });
}

#[test]
fn motion_reports_delta_from_last_position() {
    let mut s = PointerState { x: 100, y: 50 };
    let e = s.process(&WlPointerEvent::Motion { time: 9, surface_x: 90, surface_y: 80 });
    assert_eq!(e, Some(PointerEvent::Move { x: 90, y: 80, dx: -10, dy: 30, time: 9 }));
    let e = s.process(&WlPointerEvent::Motion { time: 10, surface_x: 95, surface_y: 80 });
    assert_eq!(e, Some(PointerEvent::Move { x: 95, y: 80, dx: 5, dy: 0, time: 10 }));
    assert_eq!(s, PointerState { x: 95, y: 80 });
}

#[test]
fn motion_delta_does_not_overflow() {
    let mut s = PointerState { x: i32::MIN, y: i32::MAX };
    let e = s.process(&WlPointerEvent::Motion { time: 0, surface_x: i32::MAX, surface_y: i32::MIN });
    assert_eq!(
        e,
        Some(PointerEvent::Move {
            x: i32::MAX,
            y: i32::MIN,
            dx: i32::MAX as i64 - i32::MIN as i64,
            dy: i32::MIN as i64 - i32::MAX as i64,
            time: 0,
        })
    );
}

#[test]
fn leave_and_buttons_report_the_last_position() {
    let mut s = PointerState { x: 3, y: 4 };
    assert_eq!(
        s.process(&WlPointerEvent::Leave { serial: 2, surface: 5 }),
        Some(PointerEvent::Leave { surface: 5, x: 3, y: 4 })
    );
    assert_eq!(
        s.process(&WlPointerEvent::Button { serial: 3, time: 8, button: mouse_button::LEFT, state: ButtonState::Pressed }),
        Some(PointerEvent::ButtonPress { button: 272, x: 3, y: 4, time: 8 })
    );
    assert_eq!(
        s.process(&WlPointerEvent::Button { serial: 4, time: 9, button: mouse_button::RIGHT, state: ButtonState::Released }),
        Some(PointerEvent::ButtonRelease { button: 273, x: 3, y: 4, time: 9 })
    );
    assert_eq!(
        s.process(&WlPointerEvent::Button { serial: 5, time: 9, button: mouse_button::MIDDLE, state: ButtonState::Unknown(7) }),
        None
    );
    assert_eq!(s, PointerState { x: 3, y: 4 });
}

#[test]
fn axis_frame_and_others() {
    let mut s = PointerState::new();
    assert_eq!(
        s.process(&WlPointerEvent::Axis { time: 1, axis: 0, value: -2560 }),
        Some(PointerEvent::Scroll { axis: 0, delta: -2560, time: 1 })
    );
    assert_eq!(s.process(&WlPointerEvent::Frame), Some(PointerEvent::Frame));
    assert_eq!(s.process(&WlPointerEvent::AxisSource { axis_source: 1 }), None);
    assert_eq!(s.process(&WlPointerEvent::AxisStop { time: 1, axis: 0 }), None);
    assert_eq!(s.process(&WlPointerEvent::AxisDiscrete { axis: 0, discrete: 1 }), None);
    assert_eq!(s, PointerState { x: 0, y: 0 });
}

#[test]
fn mouse_button_codes() {
    assert_eq!(
        [mouse_button::LEFT, mouse_button::RIGHT, mouse_button::MIDDLE, mouse_button::BACK, mouse_button::FORWARD],
        [272, 273, 274, 275, 276]
    );
}

#[test]
fn motion_deltas_add_up_to_the_distance_travelled() {
    let mut s = PointerState { x: 10, y: 10 };
    let mut sum = (0i64, 0i64);
    for (x, y) in [(15, 3), (-40, 8), (7, 7)] {
        if let Some(PointerEvent::Move { dx, dy, .. }) = s.process(&WlPointerEvent::Motion { time: 0, surface_x: x, surface_y: y }) {
            sum = (sum.0 + dx, sum.1 + dy);
        }
    }
    assert_eq!(sum, (7 - 10, 7 - 10));
}

#[test]
fn position_is_that_of_the_last_enter_or_motion() {
    let mut s = PointerState::new();
    for ev in [
        WlPointerEvent::Frame,
        WlPointerEvent::Leave { serial: 1, surface: 2 },
    ] {
        s.process(&ev);
    }
    assert_eq!(s, PointerState { x: 0, y: 0 });
    for ev in [
        WlPointerEvent::Enter { serial: 1, surface: 2, surface_x: 5, surface_y: 6 },
        WlPointerEvent::Motion { time: 1, surface_x: 7, surface_y: 8 },
        WlPointerEvent::Button { serial: 2, time: 2, button: 272, state: ButtonState::Pressed },
        WlPointerEvent::Axis { time: 3, axis: 0, value: 1 },
        WlPointerEvent::Leave { serial: 3, surface: 2 },
    ] {
        s.process(&ev);
    }
    assert_eq!(s, PointerState { x: 7, y: 8 });
}
