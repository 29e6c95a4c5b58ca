use ui::wl_pointer::{
    ClientPointer, Delivery, FocusedSurface, HostPointerEvent, PointerMessage, SceneQuery, SurfaceHit,
    WlPointerState,
};

fn state_with(pointers: &[ClientPointer]) -> WlPointerState {
    let mut s = WlPointerState::new();
    for p in pointers {
        assert!(s.get_pointer(true, *p));
    }
    s
}

const A1: ClientPointer = ClientPointer { object_id: 10, connection: 1 };
const A2: ClientPointer = ClientPointer { object_id: 11, connection: 1 };
const B1: ClientPointer = ClientPointer { object_id: 20, connection: 2 };

fn all_alive(s: &WlPointerState) -> Vec<bool> {
    vec![true; s.client_pointers().len()]
}

fn hit(id: u32, connection: u64) -> Option<SurfaceHit> {
    Some(SurfaceHit { id, connection, local_x: 4, local_y: 5 })
}

fn focused(connection: u64) -> Option<FocusedSurface> {
    Some(FocusedSurface { connection, buffer_size: Some((100, 50)), input_region_hit: None })
}

#[test]
fn new_state_is_empty_with_first_serial() {
    let s = WlPointerState::new();
    assert!(s.client_pointers().is_empty());
    assert_eq!(s.focused_surface(), None);
    assert_eq!(s.host_position(), (0, 0));
}

#[test]
fn get_pointer_needs_the_capability() {
    let mut s = WlPointerState::new();
    assert!(!s.get_pointer(false, A1));
    assert!(s.client_pointers().is_empty());
    assert!(s.get_pointer(true, A1));
    assert_eq!(s.client_pointers(), &vec![A1]);
}

#[test]
fn enter_focuses_the_hit_surface_of_its_client_only() {
    let mut s = state_with(&[A1, B1, A2]);
    let alive = all_alive(&s);
    let out = s.handle_host_event(
        &alive,
        &HostPointerEvent::Enter { surface_x: 30, surface_y: 40 },
        &SceneQuery { focused: None, hit: hit(7, 1) },
    );
    let enter = PointerMessage::Enter { serial: 1, surface: 7, x: 4, y: 5 };
    assert_eq!(out, vec![Delivery { pointer: 10, message: enter }, Delivery { pointer: 11, message: enter }]);
    assert_eq!(s.focused_surface(), Some(7));
    assert_eq!(s.host_position(), (30, 40));
}

#[test]
fn enter_on_another_surface_leaves_the_old_one_first() {
    let mut s = state_with(&[A1, B1]);
    let alive = all_alive(&s);
    s.handle_host_event(&alive, &HostPointerEvent::Enter { surface_x: 1, surface_y: 1 }, &SceneQuery { focused: None, hit: hit(7, 1) });
    let out = s.handle_host_event(
        &alive,
        &HostPointerEvent::Enter { surface_x: 2, surface_y: 2 },
        &SceneQuery { focused: focused(1), hit: hit(8, 2) },
    );
    assert_eq!(
        out,
        vec![
            Delivery { pointer: 10, message: PointerMessage::Leave { serial: 2, surface: 7 } },
            Delivery { pointer: 20, message: PointerMessage::Enter { serial: 2, surface: 8, x: 4, y: 5 } },
        ]
    );
    assert_eq!(s.focused_surface(), Some(8));
}

#[test]
fn enter_on_nothing_clears_focus() {
    let mut s = state_with(&[A1]);
    let alive = all_alive(&s);
    s.handle_host_event(&alive, &HostPointerEvent::Enter { surface_x: 1, surface_y: 1 }, &SceneQuery { focused: None, hit: hit(7, 1) });
    let out = s.handle_host_event(&alive, &HostPointerEvent::Enter { surface_x: 500, surface_y: 500 }, &SceneQuery { focused: focused(1), hit: None });
    assert_eq!(out, vec![Delivery { pointer: 10, message: PointerMessage::Leave { serial: 2, surface: 7 } }]);
    assert_eq!(s.focused_surface(), None);
}

#[test]
fn motion_inside_the_focused_surface_is_forwarded() {
    let mut s = state_with(&[A1, B1]);
    let alive = all_alive(&s);
    s.handle_host_event(&alive, &HostPointerEvent::Enter { surface_x: 1, surface_y: 1 }, &SceneQuery { focused: None, hit: hit(7, 1) });
    let out = s.handle_host_event(
        &alive,
        &HostPointerEvent::Motion { time: 33, surface_x: 99, surface_y: 49 },
        &SceneQuery { focused: focused(1), hit: hit(7, 1) },
    );
    assert_eq!(out, vec![Delivery { pointer: 10, message: PointerMessage::Motion { time: 33, x: 99, y: 49 } }]);
    assert_eq!(s.focused_surface(), Some(7));
    assert_eq!(s.host_position(), (99, 49));
    // No serial was used: the next enter still gets serial 2.
    let out = s.handle_host_event(&alive, &HostPointerEvent::Leave, &SceneQuery { focused: focused(1), hit: None });
    assert_eq!(out, vec![Delivery { pointer: 10, message: PointerMessage::Leave { serial: 2, surface: 7 } }]);
}

#[test]
fn motion_out_of_the_focused_surface_moves_focus() {
    let mut s = state_with(&[A1, B1]);
    let alive = all_alive(&s);
    s.handle_host_event(&alive, &HostPointerEvent::Enter { surface_x: 1, surface_y: 1 }, &SceneQuery { focused: None, hit: hit(7, 1) });
    let out = s.handle_host_event(
        &alive,
        &HostPointerEvent::Motion { time: 34, surface_x: 100, surface_y: 10 },
        &SceneQuery { focused: focused(1), hit: hit(8, 2) },
    );
    assert_eq!(
        out,
        vec![
            Delivery { pointer: 10, message: PointerMessage::Leave { serial: 2, surface: 7 } },
            Delivery { pointer: 20, message: PointerMessage::Enter { serial: 2, surface: 8, x: 4, y: 5 } },
        ]
    );
    assert_eq!(s.focused_surface(), Some(8));
}

#[test]
fn input_region_decides_over_buffer_size() {
    let mut s = state_with(&[A1]);
    let alive = all_alive(&s);
    s.handle_host_event(&alive, &HostPointerEvent::Enter { surface_x: 1, surface_y: 1 }, &SceneQuery { focused: None, hit: hit(7, 1) });
    let region = Some(FocusedSurface { connection: 1, buffer_size: Some((100, 50)), input_region_hit: Some(false) });
    let out = s.handle_host_event(
        &alive,
        &HostPointerEvent::Motion { time: 1, surface_x: 5, surface_y: 5 },
        &SceneQuery { focused: region, hit: None },
    );
    assert_eq!(out, vec![Delivery { pointer: 10, message: PointerMessage::Leave { serial: 2, surface: 7 } }]);
    assert_eq!(s.focused_surface(), None);
}

#[test]
fn buttons_and_axis_go_to_the_focused_client_only() {
    let mut s = state_with(&[A1, B1, A2]);
    let alive = all_alive(&s);
    let scene = SceneQuery { focused: focused(1), hit: hit(7, 1) };
    // Unfocused: nothing is sent and no serial is used.
    assert!(s.handle_host_event(&alive, &HostPointerEvent::Button, &scene).is_empty());
    assert!(s.handle_host_event(&alive, &HostPointerEvent::Other, &scene).is_empty());
    s.handle_host_event(&alive, &HostPointerEvent::Enter { surface_x: 1, surface_y: 1 }, &SceneQuery { focused: None, hit: hit(7, 1) });
    let out = s.handle_host_event(&alive, &HostPointerEvent::Button, &scene);
    let b = PointerMessage::Button { serial: 2 };
    assert_eq!(out, vec![Delivery { pointer: 10, message: b }, Delivery { pointer: 11, message: b }]);
    let out = s.handle_host_event(&alive, &HostPointerEvent::Other, &scene);
    let f = PointerMessage::Forward;
    assert_eq!(out, vec![Delivery { pointer: 10, message: f }, Delivery { pointer: 11, message: f }]);
}

#[test]
fn dead_pointers_are_dropped_before_routing() {
    let mut s = state_with(&[A1, B1, A2]);
    let out = s.handle_host_event(
        &vec![false, true, true],
        &HostPointerEvent::Enter { surface_x: 0, surface_y: 0 },
        &SceneQuery { focused: None, hit: hit(7, 1) },
    );
    assert_eq!(out, vec![Delivery { pointer: 11, message: PointerMessage::Enter { serial: 1, surface: 7, x: 4, y: 5 } }]);
    assert_eq!(s.client_pointers(), &vec![B1, A2]);
}

#[test]
fn release_and_capability_removal() {
    let mut s = state_with(&[A1, B1, A2]);
    s.release(20);
    assert_eq!(s.client_pointers(), &vec![A1, A2]);
    s.retain_alive(&vec![true, false]);
    assert_eq!(s.client_pointers(), &vec![A1]);
    let alive = all_alive(&s);
    s.handle_host_event(&alive, &HostPointerEvent::Enter { surface_x: 1, surface_y: 1 }, &SceneQuery { focused: None, hit: hit(7, 1) });
    s.on_capability_removed();
    assert!(s.client_pointers().is_empty());
    assert_eq!(s.focused_surface(), None);
    assert_eq!(s.host_position(), (1, 1));
}

#[test]
fn surfaces_remember_their_client_until_the_capability_goes() {
    let mut s = WlPointerState::new();
    assert_eq!(s.surface_client(7), None);
    s.track_surface(7, 1);
    s.track_surface(8, 2);
    s.track_surface(7, 3);
    assert_eq!(s.surface_client(7), Some(3));
    assert_eq!(s.surface_client(8), Some(2));
    s.on_capability_removed();
    assert_eq!(s.surface_client(7), None);
    assert_eq!(s.surface_client(8), None);
}
