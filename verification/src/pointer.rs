use vstd::prelude::*;

pub mod mouse_button;

verus! {

/// Physical state of a pointer button in a raw event.
#[derive(Clone, Copy, Debug, PartialEq, Eq, Structural)]
pub enum ButtonState {
    Released,
    Pressed,
    /// A state value this code does not know.
    Unknown(u32),
}

/// A raw `wl_pointer` event. Coordinates are the protocol's fixed-point
/// surface coordinates (1/256 pixel), taken as they are on the wire.
#[derive(Clone, Copy, Debug, PartialEq, Eq, Structural)]
pub enum WlPointerEvent {
    Enter { serial: u32, surface: u32, surface_x: i32, surface_y: i32 },
    Leave { serial: u32, surface: u32 },
    Motion { time: u32, surface_x: i32, surface_y: i32 },
    Button { serial: u32, time: u32, button: u32, state: ButtonState },
    Axis { time: u32, axis: u32, value: i32 },
    Frame,
    AxisSource { axis_source: u32 },
    AxisStop { time: u32, axis: u32 },
    AxisDiscrete { axis: u32, discrete: i32 },
}

/// A semantic pointer event, carrying the pointer position it happened at.
#[derive(Clone, Copy, Debug, PartialEq, Eq, Structural)]
pub enum PointerEvent {
    Enter { surface: u32, x: i32, y: i32 },
    Leave { surface: u32, x: i32, y: i32 },
    /// The pointer moved to `(x, y)`, by `(dx, dy)` since its last known position.
    Move { x: i32, y: i32, dx: i64, dy: i64, time: u32 },
    ButtonPress { button: u32, x: i32, y: i32, time: u32 },
    ButtonRelease { button: u32, x: i32, y: i32, time: u32 },
    Scroll { axis: u32, delta: i32, time: u32 },
    Frame,
}

/// The last known surface-relative position of the pointer.
#[derive(Clone, Copy, Debug, PartialEq, Eq, Structural)]
pub struct PointerState {
    pub x: i32,
    pub y: i32,
}

/// What processing `ev` in state `s` yields: the next state and the semantic
/// event, if the raw event has one.
pub open spec fn spec_process(s: PointerState, ev: WlPointerEvent) -> (PointerState, Option<PointerEvent>) {
    match ev {
        WlPointerEvent::Enter { surface, surface_x, surface_y, .. } => (
            PointerState { x: surface_x, y: surface_y },
            Some(PointerEvent::Enter { surface, x: surface_x, y: surface_y }),
        ),
        WlPointerEvent::Leave { surface, .. } => (
            s,
            Some(PointerEvent::Leave { surface, x: s.x, y: s.y }),
        ),
        WlPointerEvent::Motion { time, surface_x, surface_y } => (
            PointerState { x: surface_x, y: surface_y },
            Some(
                PointerEvent::Move {
                    x: surface_x,
                    y: surface_y,
                    dx: (surface_x - s.x) as i64,
                    dy: (surface_y - s.y) as i64,
                    time,
                },
            ),
        ),
        WlPointerEvent::Button { button, state, time, .. } => (
            s,
            match state {
                ButtonState::Pressed => Some(
                    PointerEvent::ButtonPress { button, x: s.x, y: s.y, time },
                ),
                ButtonState::Released => Some(
                    PointerEvent::ButtonRelease { button, x: s.x, y: s.y, time },
                ),
                ButtonState::Unknown(_) => None,
            },
        ),
        WlPointerEvent::Axis { time, axis, value } => (
            s,
            Some(PointerEvent::Scroll { axis, delta: value, time }),
        ),
        WlPointerEvent::Frame => (s, Some(PointerEvent::Frame)),
        _ => (s, None),
    }
}

impl PointerState {
    pub fn new() -> (s: PointerState)
        ensures
            s.x == 0 && s.y == 0,
    {
        PointerState { x: 0, y: 0 }
    }

    /// Translates one raw event into a semantic one, keeping track of the
    /// pointer position (see [`spec_process`]).
    pub fn process(&mut self, ev: &WlPointerEvent) -> (r: Option<PointerEvent>)
        ensures
            (*final(self), r) == spec_process(*old(self), *ev),
    {
        match *ev {
            WlPointerEvent::Enter { surface, surface_x, surface_y, .. } => {
                self.x = surface_x;
                self.y = surface_y;
                Some(PointerEvent::Enter { surface, x: self.x, y: self.y })
            },
            WlPointerEvent::Leave { surface, .. } => Some(
                PointerEvent::Leave { surface, x: self.x, y: self.y },
            ),
            WlPointerEvent::Motion { time, surface_x, surface_y } => {
                let dx = surface_x as i64 - self.x as i64;
                let dy = surface_y as i64 - self.y as i64;
                self.x = surface_x;
                self.y = surface_y;
                Some(PointerEvent::Move { x: self.x, y: self.y, dx, dy, time })
            },
            WlPointerEvent::Button { button, state, time, .. } => match state {
                ButtonState::Pressed => Some(
                    PointerEvent::ButtonPress { button, x: self.x, y: self.y, time },
                ),
                ButtonState::Released => Some(
                    PointerEvent::ButtonRelease { button, x: self.x, y: self.y, time },
                ),
                ButtonState::Unknown(_) => None,
            },
            WlPointerEvent::Axis { time, axis, value } => Some(
                PointerEvent::Scroll { axis, delta: value, time },
            ),
            WlPointerEvent::Frame => Some(PointerEvent::Frame),
            _ => None,
        }
    }
}

/// The state after processing a run of raw events.
pub open spec fn state_after(s: PointerState, evs: Seq<WlPointerEvent>) -> PointerState
    decreases evs.len(),
{
    if evs.len() == 0 {
        s
    } else {
        spec_process(state_after(s, evs.drop_last()), evs.last()).0
    }
}

/// The horizontal and vertical motion reported by one semantic event.
pub open spec fn reported_motion(e: Option<PointerEvent>) -> (int, int) {
    match e {
        Some(PointerEvent::Move { dx, dy, .. }) => (dx as int, dy as int),
        _ => (0, 0),
    }
}

/// The motion reported, summed over the semantic events of a run.
pub open spec fn total_motion(s: PointerState, evs: Seq<WlPointerEvent>) -> (int, int)
    decreases evs.len(),
{
    if evs.len() == 0 {
        (0, 0)
    } else {
        let before = total_motion(s, evs.drop_last());
        let step = reported_motion(spec_process(state_after(s, evs.drop_last()), evs.last()).1);
        (before.0 + step.0, before.1 + step.1)
    }
}

/// Reported motion adds up: over any run of motion events, the deltas sum to
/// the distance between where the pointer started and where it ended.
pub proof fn lemma_motion_deltas_telescope(s: PointerState, evs: Seq<WlPointerEvent>)
    requires
        forall|i: int| 0 <= i < evs.len() ==> #[trigger] evs[i] is Motion,
    ensures
        total_motion(s, evs) == (
            state_after(s, evs).x - s.x,
            state_after(s, evs).y - s.y,
        ),
    decreases evs.len(),
{
    if evs.len() > 0 {
        let init = evs.drop_last();
        assert forall|i: int| 0 <= i < init.len() implies #[trigger] init[i] is Motion by {
            assert(init[i] == evs[i]);
        }
        lemma_motion_deltas_telescope(s, init);
        assert(evs[evs.len() - 1] is Motion);
    }
}

/// Events that do not move the pointer report the last known position.
pub proof fn lemma_position_events_report_last_position(s: PointerState, ev: WlPointerEvent)
    ensures
        spec_process(s, ev).1 matches Some(PointerEvent::Leave { x, y, .. }) ==> x == s.x && y == s.y,
        spec_process(s, ev).1 matches Some(PointerEvent::ButtonPress { x, y, .. }) ==> x == s.x && y == s.y,
        spec_process(s, ev).1 matches Some(PointerEvent::ButtonRelease { x, y, .. }) ==> x == s.x && y == s.y,
        !(ev is Enter || ev is Motion) ==> spec_process(s, ev).0 == s,
{
}

/// Whether a raw event carries a new pointer position.
pub open spec fn moves_pointer(ev: WlPointerEvent) -> bool {
    ev is Enter || ev is Motion
}

/// The position a moving event carries.
pub open spec fn position_of(ev: WlPointerEvent) -> PointerState {
    match ev {
        WlPointerEvent::Enter { surface_x, surface_y, .. } => PointerState { x: surface_x, y: surface_y },
        WlPointerEvent::Motion { surface_x, surface_y, .. } => PointerState { x: surface_x, y: surface_y },
        _ => PointerState { x: 0, y: 0 },
    }
}

/// The last known position is the one carried by the last enter or motion
/// event of a run, and stays where it was when the run has none.
pub proof fn lemma_position_is_last_known(s: PointerState, evs: Seq<WlPointerEvent>)
    ensures
        (forall|i: int| 0 <= i < evs.len() ==> !moves_pointer(#[trigger] evs[i])) ==> state_after(s, evs) == s,
        forall|j: int|
            0 <= j < evs.len() && moves_pointer(#[trigger] evs[j])
                && (forall|i: int| j < i < evs.len() ==> !moves_pointer(#[trigger] evs[i]))
                ==> state_after(s, evs) == position_of(evs[j]),
    decreases evs.len(),
{
    if evs.len() > 0 {
        let init = evs.drop_last();
        lemma_position_is_last_known(s, init);
        let n = evs.len() - 1;
        assert forall|i: int| 0 <= i < init.len() implies #[trigger] init[i] == evs[i] by {}
        assert forall|j: int|
            0 <= j < evs.len() && moves_pointer(#[trigger] evs[j])
                && (forall|i: int| j < i < evs.len() ==> !moves_pointer(#[trigger] evs[i]))
            implies state_after(s, evs) == position_of(evs[j]) by {
            if j < n {
                assert(!moves_pointer(evs[n]));
                assert(init[j] == evs[j]);
                assert forall|i: int| j < i < init.len() implies !moves_pointer(#[trigger] init[i]) by {
                    assert(init[i] == evs[i]);
                }
            }
        }
        if forall|i: int| 0 <= i < evs.len() ==> !moves_pointer(#[trigger] evs[i]) {
            assert(!moves_pointer(evs[n]));
            assert forall|i: int| 0 <= i < init.len() implies !moves_pointer(#[trigger] init[i]) by {
                assert(init[i] == evs[i]);
            }
        }
    }
}

/// A scroll is reported on the axis the raw event names, with its value as
/// the delta and its time, and does not move the pointer.
pub proof fn lemma_axis_is_scroll_on_its_own_axis(s: PointerState, time: u32, axis: u32, value: i32)
    ensures
        spec_process(s, WlPointerEvent::Axis { time, axis, value }).0 == s,
        spec_process(s, WlPointerEvent::Axis { time, axis, value }).1 == Some(PointerEvent::Scroll { axis, delta: value, time }),
{
}

/// Enter and motion report the raw event's own surface and coordinates;
/// buttons report the raw button, time and press or release as given; a
/// button state this code does not know yields nothing.
pub proof fn lemma_events_carry_their_fields(s: PointerState, ev: WlPointerEvent)
    ensures
        ev matches WlPointerEvent::Enter { surface, surface_x, surface_y, .. } ==>
            spec_process(s, ev).1 == Some(PointerEvent::Enter { surface, x: surface_x, y: surface_y }),
        ev matches WlPointerEvent::Leave { surface, .. } ==>
            spec_process(s, ev).1 == Some(PointerEvent::Leave { surface, x: s.x, y: s.y }),
        ev matches WlPointerEvent::Motion { time, surface_x, surface_y } ==>
            spec_process(s, ev).1 matches Some(PointerEvent::Move { x, y, dx, dy, time: t })
                && x == surface_x && y == surface_y && t == time
                && dx == surface_x - s.x && dy == surface_y - s.y,
        ev matches WlPointerEvent::Button { button, time, state: ButtonState::Pressed, .. } ==>
            spec_process(s, ev).1 == Some(PointerEvent::ButtonPress { button, x: s.x, y: s.y, time }),
        ev matches WlPointerEvent::Button { button, time, state: ButtonState::Released, .. } ==>
            spec_process(s, ev).1 == Some(PointerEvent::ButtonRelease { button, x: s.x, y: s.y, time }),
        ev matches WlPointerEvent::Button { state: ButtonState::Unknown(_), .. } ==> spec_process(s, ev).1 is None,
        ev is Frame ==> spec_process(s, ev).1 == Some(PointerEvent::Frame),
        (ev is AxisSource || ev is AxisStop || ev is AxisDiscrete) ==> spec_process(s, ev) == (s, None::<PointerEvent>),
{
}

} // verus!
