use std::collections::HashMap;
use vstd::prelude::*;

verus! {

broadcast use vstd::std_specs::hash::group_hash_axioms;

/// A `wl_pointer` object created by an internal client: its object id and
/// the client connection it belongs to.
#[derive(Clone, Copy, Debug, PartialEq, Eq, Structural)]
pub struct ClientPointer {
    pub object_id: u32,
    pub connection: u64,
}

/// The client surface under the host pointer, as found by hit-testing.
#[derive(Clone, Copy, Debug, PartialEq, Eq, Structural)]
pub struct SurfaceHit {
    pub id: u32,
    pub connection: u64,
    pub local_x: i32,
    pub local_y: i32,
}

/// What the compositor knows of the surface that currently has focus.
#[derive(Clone, Copy, Debug)]
pub struct FocusedSurface {
    /// The connection of the client owning the surface.
    pub connection: u64,
    /// Size of the surface's current buffer, if it has one.
    pub buffer_size: Option<(i32, i32)>,
    /// Where the surface has an input region: whether it contains the
    /// position of the event being handled.
    pub input_region_hit: Option<bool>,
}

/// The surface lookups an event needs: the focused surface (`None` when
/// nothing is focused or the focused surface is gone) and the surface
/// hit-tested at the event's position.
#[derive(Clone, Copy, Debug)]
pub struct SceneQuery {
    pub focused: Option<FocusedSurface>,
    pub hit: Option<SurfaceHit>,
}

/// An event of the host compositor's pointer. Positions are in
/// compositor-window coordinates. Button and axis-type events are forwarded
/// with their payload unchanged, so only their kind matters here.
#[derive(Clone, Copy, Debug, PartialEq, Eq, Structural)]
pub enum HostPointerEvent {
    Enter { surface_x: i32, surface_y: i32 },
    Leave,
    Motion { time: u32, surface_x: i32, surface_y: i32 },
    Button,
    /// Axis, frame and the other axis-type events.
    Other,
}

/// A message for one client pointer.
#[derive(Clone, Copy, Debug, PartialEq, Eq, Structural)]
pub enum PointerMessage {
    Enter { serial: u32, surface: u32, x: i32, y: i32 },
    Leave { serial: u32, surface: u32 },
    Motion { time: u32, x: i32, y: i32 },
    /// The host button event, with a serial of ours.
    Button { serial: u32 },
    /// The host event, passed on unchanged.
    Forward,
}

/// One message addressed to one client pointer.
#[derive(Clone, Copy, Debug, PartialEq, Eq, Structural)]
pub struct Delivery {
    pub pointer: u32,
    pub message: PointerMessage,
}

/// The value of a [`WlPointerState`].
pub struct WlPointerView {
    pub client_pointers: Seq<ClientPointer>,
    pub focused_surface: Option<u32>,
    pub host_x: i32,
    pub host_y: i32,
    pub serial: u32,
    /// Per client surface, the connection of the client that created it.
    pub surface_clients: Map<u32, u64>,
}

/// The serial after `s`; it wraps around.
pub open spec fn next_serial(s: u32) -> u32 {
    if s == u32::MAX {
        0
    } else {
        (s + 1) as u32
    }
}

/// `msg`, addressed to every pointer of `ptrs` that belongs to connection
/// `conn`, in order.
pub open spec fn deliver_to(ptrs: Seq<ClientPointer>, conn: u64, msg: PointerMessage) -> Seq<Delivery>
    decreases ptrs.len(),
{
    if ptrs.len() == 0 {
        Seq::empty()
    } else {
        let rest = deliver_to(ptrs.drop_last(), conn, msg);
        if ptrs.last().connection == conn {
            rest.push(Delivery { pointer: ptrs.last().object_id, message: msg })
        } else {
            rest
        }
    }
}

/// The pointers of `ptrs` whose entry in `alive` is true, in order.
pub open spec fn retain_mask(ptrs: Seq<ClientPointer>, alive: Seq<bool>) -> Seq<ClientPointer>
    decreases ptrs.len(),
{
    if ptrs.len() == 0 {
        Seq::empty()
    } else {
        let rest = retain_mask(ptrs.drop_last(), alive);
        if alive[ptrs.len() - 1] {
            rest.push(ptrs.last())
        } else {
            rest
        }
    }
}

/// The pointers of `ptrs` other than object `id`, in order.
pub open spec fn remove_object(ptrs: Seq<ClientPointer>, id: u32) -> Seq<ClientPointer>
    decreases ptrs.len(),
{
    if ptrs.len() == 0 {
        Seq::empty()
    } else {
        let rest = remove_object(ptrs.drop_last(), id);
        if ptrs.last().object_id != id {
            rest.push(ptrs.last())
        } else {
            rest
        }
    }
}

/// Whether the focused surface takes input at `(x, y)`: its input region
/// decides where it has one, else its buffer's extent (none without buffer).
pub open spec fn surface_accepts(fs: FocusedSurface, x: i32, y: i32) -> bool {
    match fs.input_region_hit {
        Some(hit) => hit,
        None => match fs.buffer_size {
            Some((w, h)) => 0 <= x < w && 0 <= y < h,
            None => false,
        },
    }
}

/// Leave messages for the clients of the focused surface, when focus is
/// dropped with `serial`.
pub open spec fn clear_focus_deliveries(v: WlPointerView, scene: SceneQuery, serial: u32) -> Seq<Delivery> {
    match v.focused_surface {
        Some(fid) => match scene.focused {
            Some(fs) => deliver_to(v.client_pointers, fs.connection, PointerMessage::Leave { serial, surface: fid }),
            None => Seq::empty(),
        },
        None => Seq::empty(),
    }
}

/// The view `v` with other focus and serial.
pub open spec fn with_focus(v: WlPointerView, focus: Option<u32>, serial: u32) -> WlPointerView {
    WlPointerView {
        client_pointers: v.client_pointers,
        focused_surface: focus,
        host_x: v.host_x,
        host_y: v.host_y,
        serial,
        surface_clients: v.surface_clients,
    }
}

/// The view `v` with another host pointer position.
pub open spec fn with_position(v: WlPointerView, x: i32, y: i32) -> WlPointerView {
    WlPointerView {
        client_pointers: v.client_pointers,
        focused_surface: v.focused_surface,
        host_x: x,
        host_y: y,
        serial: v.serial,
        surface_clients: v.surface_clients,
    }
}

/// Handling an event once dead client pointers have been dropped: the next
/// state and the messages sent, in order.
pub open spec fn spec_handle_live(v: WlPointerView, ev: HostPointerEvent, scene: SceneQuery) -> (WlPointerView, Seq<Delivery>) {
    let s = v.serial;
    let ptrs = v.client_pointers;
    match ev {
        HostPointerEvent::Enter { surface_x, surface_y } => {
            let v2 = with_position(v, surface_x, surface_y);
            match scene.hit {
                Some(hs) => {
                    let leave = match v.focused_surface {
                        Some(old) => if old != hs.id {
                            match scene.focused {
                                Some(fs) => deliver_to(ptrs, fs.connection, PointerMessage::Leave { serial: s, surface: old }),
                                None => Seq::empty(),
                            }
                        } else {
                            Seq::empty()
                        },
                        None => Seq::empty(),
                    };
                    let enter = deliver_to(
                        ptrs,
                        hs.connection,
                        PointerMessage::Enter { serial: s, surface: hs.id, x: hs.local_x, y: hs.local_y },
                    );
                    (with_focus(v2, Some(hs.id), next_serial(s)), leave + enter)
                },
                None => (with_focus(v2, None, next_serial(s)), clear_focus_deliveries(v, scene, s)),
            }
        },
        HostPointerEvent::Leave => (with_focus(v, None, next_serial(s)), clear_focus_deliveries(v, scene, s)),
        HostPointerEvent::Motion { time, surface_x, surface_y } => {
            let v2 = with_position(v, surface_x, surface_y);
            if v.focused_surface is Some && scene.focused is Some && surface_accepts(
                scene.focused->0,
                surface_x,
                surface_y,
            ) {
                (v2, deliver_to(ptrs, scene.focused->0.connection, PointerMessage::Motion { time, x: surface_x, y: surface_y }))
            } else {
                let leave = clear_focus_deliveries(v, scene, s);
                match scene.hit {
                    Some(hs) => (
                        with_focus(v2, Some(hs.id), next_serial(s)),
                        leave + deliver_to(
                            ptrs,
                            hs.connection,
                            PointerMessage::Enter { serial: s, surface: hs.id, x: hs.local_x, y: hs.local_y },
                        ),
                    ),
                    None => (with_focus(v2, None, next_serial(s)), leave),
                }
            }
        },
        HostPointerEvent::Button => if v.focused_surface is Some && scene.focused is Some {
            (
                with_focus(v, v.focused_surface, next_serial(s)),
                deliver_to(ptrs, scene.focused->0.connection, PointerMessage::Button { serial: s }),
            )
        } else {
            (v, Seq::empty())
        },
        HostPointerEvent::Other => if v.focused_surface is Some && scene.focused is Some {
            (v, deliver_to(ptrs, scene.focused->0.connection, PointerMessage::Forward))
        } else {
            (v, Seq::empty())
        },
    }
}

/// Handling a host event: first the client pointers that died are dropped
/// (`alive` gives, per client pointer, whether it is still alive), then the
/// event is routed.
pub open spec fn spec_handle(v: WlPointerView, alive: Seq<bool>, ev: HostPointerEvent, scene: SceneQuery) -> (WlPointerView, Seq<Delivery>) {
    spec_handle_live(
        WlPointerView {
            client_pointers: retain_mask(v.client_pointers, alive),
            focused_surface: v.focused_surface,
            host_x: v.host_x,
            host_y: v.host_y,
            serial: v.serial,
            surface_clients: v.surface_clients,
        },
        ev,
        scene,
    )
}

/// Pointer focus and routing for the pointers of internal clients.
pub struct WlPointerState {
    client_pointers: Vec<ClientPointer>,
    focused_surface: Option<u32>,
    host_x: i32,
    host_y: i32,
    serial: u32,
    surface_clients: HashMap<u32, u64>,
}

impl View for WlPointerState {
    type V = WlPointerView;

    closed spec fn view(&self) -> WlPointerView {
        WlPointerView {
            client_pointers: self.client_pointers@,
            focused_surface: self.focused_surface,
            host_x: self.host_x,
            host_y: self.host_y,
            serial: self.serial,
            surface_clients: self.surface_clients@,
        }
    }
}

/// Appends to `out` the message `msg` for every pointer of `ptrs` on
/// connection `conn`.
fn send_to(ptrs: &Vec<ClientPointer>, conn: u64, msg: PointerMessage, out: &mut Vec<Delivery>)
    ensures
        final(out)@ == old(out)@ + deliver_to(ptrs@, conn, msg),
{
    let ghost start = out@;
    let mut i: usize = 0;
    while i < ptrs.len()
        invariant
            i <= ptrs.len(),
            out@ == start + deliver_to(ptrs@.take(i as int), conn, msg),
        decreases ptrs.len() - i,
    {
        assert(ptrs@.take(i + 1).drop_last() =~= ptrs@.take(i as int));
        let p = ptrs[i];
        if p.connection == conn {
            out.push(Delivery { pointer: p.object_id, message: msg });
        }
        i = i + 1;
        assert(out@ == start + deliver_to(ptrs@.take(i as int), conn, msg));
    }
    assert(ptrs@.take(ptrs.len() as int) =~= ptrs@);
}

impl WlPointerState {
    /// No client pointers, no focus, position at the origin, first serial 1.
    pub fn new() -> (s: WlPointerState)
        ensures
            s@.client_pointers == Seq::<ClientPointer>::empty(),
            s@.focused_surface is None,
            s@.host_x == 0 && s@.host_y == 0,
            s@.serial == 1,
            s@.surface_clients == Map::<u32, u64>::empty(),
    {
        WlPointerState {
            client_pointers: Vec::new(),
            focused_surface: None,
            host_x: 0,
            host_y: 0,
            serial: 1,
            surface_clients: HashMap::new(),
        }
    }

    /// A client created surface `surface`: remember which connection owns it.
    pub fn track_surface(&mut self, surface: u32, connection: u64)
        ensures
            final(self)@ == (WlPointerView {
                surface_clients: old(self)@.surface_clients.insert(surface, connection),
                ..old(self)@
            }),
    {
        self.surface_clients.insert(surface, connection);
    }

    /// The connection of the client that created `surface`, if known.
    pub fn surface_client(&self, surface: u32) -> (r: Option<u64>)
        ensures
            r == (if self@.surface_clients.contains_key(surface) {
                Some(self@.surface_clients[surface])
            } else {
                None
            }),
    {
        match self.surface_clients.get(&surface) {
            Some(c) => Some(*c),
            None => None,
        }
    }

    pub fn client_pointers(&self) -> (r: &Vec<ClientPointer>)
        ensures
            r@ == self@.client_pointers,
    {
        &self.client_pointers
    }

    pub fn focused_surface(&self) -> (r: Option<u32>)
        ensures
            r == self@.focused_surface,
    {
        self.focused_surface
    }

    /// The host pointer position, in compositor-window coordinates.
    pub fn host_position(&self) -> (r: (i32, i32))
        ensures
            r == (self@.host_x, self@.host_y),
    {
        (self.host_x, self.host_y)
    }

    /// Drops the client pointers that are no longer alive; `alive` gives,
    /// per client pointer in order, whether it still is.
    pub fn retain_alive(&mut self, alive: &Vec<bool>)
        requires
            alive.len() == old(self)@.client_pointers.len(),
        ensures
            final(self)@ == (WlPointerView {
                client_pointers: retain_mask(old(self)@.client_pointers, alive@),
                ..old(self)@
            }),
    {
        let mut kept: Vec<ClientPointer> = Vec::new();
        let mut i: usize = 0;
        while i < self.client_pointers.len()
            invariant
                i <= self.client_pointers.len(),
                alive.len() == self.client_pointers.len(),
                kept@ == retain_mask(self.client_pointers@.take(i as int), alive@),
            decreases self.client_pointers.len() - i,
        {
            assert(self.client_pointers@.take(i + 1).drop_last() =~= self.client_pointers@.take(i as int));
            if alive[i] {
                kept.push(self.client_pointers[i]);
            }
            i = i + 1;
        }
        assert(self.client_pointers@.take(self.client_pointers.len() as int) =~= self.client_pointers@);
        self.client_pointers = kept;
    }

    /// The capability was withdrawn: every client pointer, the focus and the
    /// surface owners are forgotten.
    pub fn on_capability_removed(&mut self)
        ensures
            final(self)@ == (WlPointerView {
                client_pointers: Seq::empty(),
                focused_surface: None,
                surface_clients: Map::empty(),
                ..old(self)@
            }),
    {
        self.client_pointers = Vec::new();
        self.focused_surface = None;
        self.surface_clients.clear();
    }

    /// A client asked for a pointer: it is registered only while the seat
    /// has the pointer capability. Answers whether it was registered.
    pub fn get_pointer(&mut self, has_pointer_capability: bool, pointer: ClientPointer) -> (added: bool)
        ensures
            added == has_pointer_capability,
            final(self)@ == (WlPointerView {
                client_pointers: if has_pointer_capability {
                    old(self)@.client_pointers.push(pointer)
                } else {
                    old(self)@.client_pointers
                },
                ..old(self)@
            }),
    {
        if has_pointer_capability {
            self.client_pointers.push(pointer);
        }
        has_pointer_capability
    }

    /// A client released its pointer `object_id`.
    pub fn release(&mut self, object_id: u32)
        ensures
            final(self)@ == (WlPointerView {
                client_pointers: remove_object(old(self)@.client_pointers, object_id),
                ..old(self)@
            }),
    {
        let mut kept: Vec<ClientPointer> = Vec::new();
        let mut i: usize = 0;
        while i < self.client_pointers.len()
            invariant
                i <= self.client_pointers.len(),
                kept@ == remove_object(self.client_pointers@.take(i as int), object_id),
            decreases self.client_pointers.len() - i,
        {
            assert(self.client_pointers@.take(i + 1).drop_last() =~= self.client_pointers@.take(i as int));
            let p = self.client_pointers[i];
            if p.object_id != object_id {
                kept.push(p);
            }
            i = i + 1;
        }
        assert(self.client_pointers@.take(self.client_pointers.len() as int) =~= self.client_pointers@);
        self.client_pointers = kept;
    }

    fn take_serial(&mut self) -> (s: u32)
        ensures
            s == old(self)@.serial,
            final(self)@ == with_focus(old(self)@, old(self)@.focused_surface, next_serial(s)),
    {
        let s = self.serial;
        self.serial = self.serial.wrapping_add(1);
        s
    }

    /// Drops the focus, telling the clients of the focused surface.
    fn clear_focus(&mut self, scene: &SceneQuery, serial: u32, out: &mut Vec<Delivery>)
        ensures
            final(out)@ == old(out)@ + clear_focus_deliveries(old(self)@, *scene, serial),
            final(self)@ == with_focus(old(self)@, None, old(self)@.serial),
    {
        if let Some(fid) = self.focused_surface {
            self.focused_surface = None;
            if let Some(fs) = scene.focused {
                send_to(&self.client_pointers, fs.connection, PointerMessage::Leave { serial, surface: fid }, out);
            }
        }
    }

    /// Handles one event of the host pointer; answers the messages to send
    /// to client pointers, in order (see [`spec_handle`]).
    pub fn handle_host_event(&mut self, alive: &Vec<bool>, ev: &HostPointerEvent, scene: &SceneQuery) -> (out: Vec<Delivery>)
        requires
            alive.len() == old(self)@.client_pointers.len(),
        ensures
            (final(self)@, out@) == spec_handle(old(self)@, alive@, *ev, *scene),
    {
        self.retain_alive(alive);
        let ghost v = self@;
        let mut out: Vec<Delivery> = Vec::new();
        match *ev {
            HostPointerEvent::Enter { surface_x, surface_y } => {
                self.host_x = surface_x;
                self.host_y = surface_y;
                let s = self.take_serial();
                match scene.hit {
                    Some(hs) => {
                        if let Some(old_id) = self.focused_surface {
                            if old_id != hs.id {
                                if let Some(fs) = scene.focused {
                                    send_to(
                                        &self.client_pointers,
                                        fs.connection,
                                        PointerMessage::Leave { serial: s, surface: old_id },
                                        &mut out,
                                    );
                                }
                            }
                        }
                        send_to(
                            &self.client_pointers,
                            hs.connection,
                            PointerMessage::Enter { serial: s, surface: hs.id, x: hs.local_x, y: hs.local_y },
                            &mut out,
                        );
                        self.focused_surface = Some(hs.id);
                    },
                    None => {
                        self.clear_focus(scene, s, &mut out);
                    },
                }
            },
            HostPointerEvent::Leave => {
                let s = self.take_serial();
                self.clear_focus(scene, s, &mut out);
            },
            HostPointerEvent::Motion { time, surface_x, surface_y } => {
                self.host_x = surface_x;
                self.host_y = surface_y;
                let still_focused = match (self.focused_surface, scene.focused) {
                    (Some(_), Some(fs)) => match fs.input_region_hit {
                        Some(hit) => hit,
                        None => match fs.buffer_size {
                            Some((w, h)) => 0 <= surface_x && surface_x < w && 0 <= surface_y && surface_y < h,
                            None => false,
                        },
                    },
                    _ => false,
                };
                if still_focused {
                    if let Some(fs) = scene.focused {
                        send_to(
                            &self.client_pointers,
                            fs.connection,
                            PointerMessage::Motion { time, x: surface_x, y: surface_y },
                            &mut out,
                        );
                    }
                } else {
                    let s = self.take_serial();
                    self.clear_focus(scene, s, &mut out);
                    if let Some(hs) = scene.hit {
                        send_to(
                            &self.client_pointers,
                            hs.connection,
                            PointerMessage::Enter { serial: s, surface: hs.id, x: hs.local_x, y: hs.local_y },
                            &mut out,
                        );
                        self.focused_surface = Some(hs.id);
                    }
                }
            },
            HostPointerEvent::Button => {
                if let Some(_) = self.focused_surface {
                    if let Some(fs) = scene.focused {
                        let s = self.take_serial();
                        send_to(&self.client_pointers, fs.connection, PointerMessage::Button { serial: s }, &mut out);
                    }
                }
            },
            HostPointerEvent::Other => {
                if let Some(_) = self.focused_surface {
                    if let Some(fs) = scene.focused {
                        send_to(&self.client_pointers, fs.connection, PointerMessage::Forward, &mut out);
                    }
                }
            },
        }
        proof {
            assert(Seq::<Delivery>::empty() + out@ =~= out@);
        }
        out
    }
}

/// The serial a message carries, if it carries one.
pub open spec fn serial_of(m: PointerMessage) -> Option<u32> {
    match m {
        PointerMessage::Enter { serial, .. } => Some(serial),
        PointerMessage::Leave { serial, .. } => Some(serial),
        PointerMessage::Button { serial } => Some(serial),
        _ => None,
    }
}

/// A message sent to the pointers of a connection reaches exactly those
/// pointers: every delivery carries the message to a pointer of that
/// connection, and every pointer of that connection gets one.
pub proof fn lemma_deliver_to_reaches_exactly_the_connection(ptrs: Seq<ClientPointer>, conn: u64, msg: PointerMessage)
    ensures
        forall|i: int| 0 <= i < deliver_to(ptrs, conn, msg).len() ==> {
            &&& (#[trigger] deliver_to(ptrs, conn, msg)[i]).message == msg
            &&& exists|j: int| 0 <= j < ptrs.len() && ptrs[j].connection == conn
                && ptrs[j].object_id == deliver_to(ptrs, conn, msg)[i].pointer
        },
        forall|j: int| 0 <= j < ptrs.len() && (#[trigger] ptrs[j]).connection == conn ==>
            exists|i: int| 0 <= i < deliver_to(ptrs, conn, msg).len()
                && deliver_to(ptrs, conn, msg)[i].pointer == ptrs[j].object_id,
    decreases ptrs.len(),
{
    if ptrs.len() > 0 {
        let init = ptrs.drop_last();
        lemma_deliver_to_reaches_exactly_the_connection(init, conn, msg);
        let rest = deliver_to(init, conn, msg);
        let d = deliver_to(ptrs, conn, msg);
        assert forall|i: int| 0 <= i < d.len() implies {
            &&& (#[trigger] d[i]).message == msg
            &&& exists|j: int| 0 <= j < ptrs.len() && ptrs[j].connection == conn && ptrs[j].object_id == d[i].pointer
        } by {
            if i < rest.len() {
                assert(d[i] == rest[i]);
                let j = choose|j: int| 0 <= j < init.len() && init[j].connection == conn && init[j].object_id == rest[i].pointer;
                assert(ptrs[j] == init[j]);
            } else {
                assert(ptrs[ptrs.len() - 1] == ptrs.last());
            }
        }
        assert forall|j: int| 0 <= j < ptrs.len() && (#[trigger] ptrs[j]).connection == conn implies
            exists|i: int| 0 <= i < d.len() && d[i].pointer == ptrs[j].object_id by {
            if j < init.len() {
                assert(ptrs[j] == init[j]);
                let i = choose|i: int| 0 <= i < rest.len() && rest[i].pointer == init[j].object_id;
                assert(d[i] == rest[i]);
            } else {
                assert(d[d.len() - 1].pointer == ptrs[j].object_id);
            }
        }
    }
}

/// Every delivery of `deliver_to` carries its message.
proof fn lemma_deliver_to_message(ptrs: Seq<ClientPointer>, conn: u64, msg: PointerMessage)
    ensures
        forall|i: int| 0 <= i < deliver_to(ptrs, conn, msg).len() ==> (#[trigger] deliver_to(ptrs, conn, msg)[i]).message == msg,
{
    lemma_deliver_to_reaches_exactly_the_connection(ptrs, conn, msg);
}

/// Every delivery of the leave messages for a dropped focus carries a leave
/// with `serial`.
proof fn lemma_clear_focus_message(v: WlPointerView, scene: SceneQuery, serial: u32)
    ensures
        forall|i: int| 0 <= i < clear_focus_deliveries(v, scene, serial).len() ==>
            serial_of((#[trigger] clear_focus_deliveries(v, scene, serial)[i]).message) == Some(serial),
{
    if v.focused_surface is Some && scene.focused is Some {
        lemma_deliver_to_message(
            v.client_pointers,
            scene.focused->0.connection,
            PointerMessage::Leave { serial, surface: v.focused_surface->0 },
        );
    }
}

/// Every message that carries a serial, among those sent for one host
/// event, carries the current serial; the serial then advances by one (with
/// wrap-around) when one was handed out, and otherwise stays.
pub proof fn lemma_serials_are_used_once(v: WlPointerView, alive: Seq<bool>, ev: HostPointerEvent, scene: SceneQuery)
    ensures
        ({
            let (v2, ds) = spec_handle(v, alive, ev, scene);
            &&& forall|i: int| 0 <= i < ds.len() ==> (serial_of(#[trigger] ds[i].message) is Some ==> serial_of(ds[i].message) == Some(v.serial))
            &&& v2.serial == v.serial || v2.serial == next_serial(v.serial)
            &&& (exists|i: int| 0 <= i < ds.len() && serial_of(#[trigger] ds[i].message) is Some) ==> v2.serial == next_serial(v.serial)
        }),
{
    let lv = WlPointerView {
        client_pointers: retain_mask(v.client_pointers, alive),
        focused_surface: v.focused_surface,
        host_x: v.host_x,
        host_y: v.host_y,
        serial: v.serial,
        surface_clients: v.surface_clients,
    };
    let live = lv.client_pointers;
    let s = v.serial;
    let (v2, ds) = spec_handle(v, alive, ev, scene);
    match ev {
        HostPointerEvent::Enter { .. } | HostPointerEvent::Motion { .. } => {
            lemma_clear_focus_message(lv, scene, s);
            if let Some(hs) = scene.hit {
                let enter = PointerMessage::Enter { serial: s, surface: hs.id, x: hs.local_x, y: hs.local_y };
                lemma_deliver_to_message(live, hs.connection, enter);
                if let Some(fs) = scene.focused {
                    if let Some(old) = v.focused_surface {
                        lemma_deliver_to_message(live, fs.connection, PointerMessage::Leave { serial: s, surface: old });
                    }
                }
            }
            if let HostPointerEvent::Motion { time, surface_x, surface_y } = ev {
                if let Some(fs) = scene.focused {
                    lemma_deliver_to_message(live, fs.connection, PointerMessage::Motion { time, x: surface_x, y: surface_y });
                }
            }
            assert forall|i: int| 0 <= i < ds.len() && serial_of(#[trigger] ds[i].message) is Some implies serial_of(
                ds[i].message,
            ) == Some(v.serial) by {}
        },
        HostPointerEvent::Leave => {
            lemma_clear_focus_message(lv, scene, s);
        },
        HostPointerEvent::Button => {
            if let Some(fs) = scene.focused {
                lemma_deliver_to_message(live, fs.connection, PointerMessage::Button { serial: s });
            }
        },
        HostPointerEvent::Other => {
            if let Some(fs) = scene.focused {
                lemma_deliver_to_message(live, fs.connection, PointerMessage::Forward);
            }
        },
    }
}

/// After any host event, focus is where it was, nowhere, or on the surface
/// found under the pointer; and only enter and motion events move the
/// recorded host position.
pub proof fn lemma_focus_follows_hit(v: WlPointerView, alive: Seq<bool>, ev: HostPointerEvent, scene: SceneQuery)
    ensures
        ({
            let v2 = spec_handle(v, alive, ev, scene).0;
            &&& v2.focused_surface == v.focused_surface || v2.focused_surface is None
                || (scene.hit is Some && v2.focused_surface == Some(scene.hit->0.id))
            &&& (ev is Enter || ev is Motion) ==> (scene.hit is Some && v2.focused_surface is Some
                ==> v2.focused_surface == Some(scene.hit->0.id) || v2.focused_surface == v.focused_surface)
            &&& !(ev is Enter || ev is Motion) ==> v2.host_x == v.host_x && v2.host_y == v.host_y
            &&& ev matches HostPointerEvent::Enter { surface_x, surface_y } ==> v2.host_x == surface_x && v2.host_y == surface_y
            &&& ev matches HostPointerEvent::Motion { surface_x, surface_y, .. } ==> v2.host_x == surface_x && v2.host_y == surface_y
            &&& ev is Leave ==> v2.focused_surface is None
        }),
{
}

/// Releasing a pointer removes every registration of that object and keeps
/// every other pointer.
pub proof fn lemma_release_removes_only_that_pointer(ptrs: Seq<ClientPointer>, id: u32)
    ensures
        forall|i: int| 0 <= i < remove_object(ptrs, id).len() ==> (#[trigger] remove_object(ptrs, id)[i]).object_id != id,
        forall|j: int| 0 <= j < ptrs.len() && (#[trigger] ptrs[j]).object_id != id ==> remove_object(ptrs, id).contains(ptrs[j]),
        forall|p: ClientPointer| #[trigger] remove_object(ptrs, id).contains(p) ==> ptrs.contains(p),
    decreases ptrs.len(),
{
    if ptrs.len() > 0 {
        let init = ptrs.drop_last();
        lemma_release_removes_only_that_pointer(init, id);
        let rest = remove_object(init, id);
        let r = remove_object(ptrs, id);
        assert forall|j: int| 0 <= j < ptrs.len() && (#[trigger] ptrs[j]).object_id != id implies r.contains(ptrs[j]) by {
            if j < init.len() {
                assert(ptrs[j] == init[j]);
                let k = choose|k: int| 0 <= k < rest.len() && rest[k] == init[j];
                assert(r[k] == rest[k]);
            } else {
                assert(r[r.len() - 1] == ptrs[j]);
            }
        }
        assert forall|p: ClientPointer| r.contains(p) implies ptrs.contains(p) by {
            let k = choose|k: int| 0 <= k < r.len() && r[k] == p;
            if k < rest.len() {
                assert(r[k] == rest[k]);
                assert(rest.contains(p));
                assert(init.contains(p));
                let m = choose|m: int| 0 <= m < init.len() && init[m] == p;
                assert(ptrs[m] == init[m]);
            } else {
                assert(ptrs[ptrs.len() - 1] == p);
            }
        }
    }
}

/// The number of `true` entries among the first `n` of `alive`.
pub open spec fn count_alive(alive: Seq<bool>, n: int) -> nat
    decreases n,
{
    if n <= 0 {
        0
    } else if alive[n - 1] {
        count_alive(alive, n - 1) + 1
    } else {
        count_alive(alive, n - 1)
    }
}

/// `p` is one of the pointers whose `alive` entry is true.
pub open spec fn is_live_pointer(ptrs: Seq<ClientPointer>, alive: Seq<bool>, p: ClientPointer) -> bool {
    exists|j: int| 0 <= j < ptrs.len() && alive[j] && ptrs[j] == p
}

/// Dropping dead pointers keeps exactly the live ones: every kept pointer is
/// one whose `alive` entry is true, every pointer whose entry is true is
/// kept, and as many are kept as there are live ones.
pub proof fn lemma_retain_keeps_exactly_the_live(ptrs: Seq<ClientPointer>, alive: Seq<bool>)
    requires
        alive.len() == ptrs.len(),
    ensures
        forall|k: int| 0 <= k < retain_mask(ptrs, alive).len() ==>
            is_live_pointer(ptrs, alive, #[trigger] retain_mask(ptrs, alive)[k]),
        forall|j: int| 0 <= j < ptrs.len() && alive[j] ==> retain_mask(ptrs, alive).contains(#[trigger] ptrs[j]),
        retain_mask(ptrs, alive).len() == count_alive(alive, ptrs.len() as int),
    decreases ptrs.len(),
{
    if ptrs.len() > 0 {
        let init = ptrs.drop_last();
        let n = ptrs.len() - 1;
        let a0 = alive.take(n);
        lemma_retain_mask_prefix(init, alive);
        lemma_retain_keeps_exactly_the_live(init, a0);
        lemma_count_alive_prefix(alive, n);
        let rest = retain_mask(init, alive);
        let r = retain_mask(ptrs, alive);
        assert forall|k: int| 0 <= k < r.len() implies is_live_pointer(ptrs, alive, #[trigger] r[k]) by {
            if k < rest.len() {
                assert(r[k] == rest[k]);
                assert(is_live_pointer(init, a0, rest[k]));
                let j = choose|j: int| 0 <= j < init.len() && a0[j] && init[j] == rest[k];
                assert(ptrs[j] == init[j]);
                assert(alive[j] == a0[j]);
                assert(0 <= j < ptrs.len() && alive[j] && r[k] == ptrs[j]);
            } else {
                assert(alive[n]);
                assert(r[k] == ptrs[n]);
                assert(0 <= n < ptrs.len() && alive[n] && r[k] == ptrs[n]);
            }
        }
        assert forall|j: int| 0 <= j < ptrs.len() && alive[j] implies r.contains(#[trigger] ptrs[j]) by {
            if j < n {
                assert(ptrs[j] == init[j]);
                assert(a0[j]);
                assert(rest.contains(init[j]));
                let k = choose|k: int| 0 <= k < rest.len() && rest[k] == init[j];
                assert(r[k] == rest[k]);
            } else {
                assert(r[r.len() - 1] == ptrs[j]);
            }
        }
    } else {
        assert(retain_mask(ptrs, alive).len() == 0);
    }
}

/// The mask is only read at the positions of the pointers it masks.
proof fn lemma_retain_mask_prefix(ptrs: Seq<ClientPointer>, alive: Seq<bool>)
    requires
        ptrs.len() <= alive.len(),
    ensures
        retain_mask(ptrs, alive) == retain_mask(ptrs, alive.take(ptrs.len() as int)),
    decreases ptrs.len(),
{
    if ptrs.len() > 0 {
        lemma_retain_mask_prefix(ptrs.drop_last(), alive);
        lemma_retain_mask_prefix(ptrs.drop_last(), alive.take(ptrs.len() as int));
        assert(alive.take(ptrs.len() as int).take(ptrs.len() - 1) =~= alive.take(ptrs.len() - 1));
    }
}

proof fn lemma_count_alive_prefix(alive: Seq<bool>, n: int)
    requires
        0 <= n <= alive.len(),
    ensures
        count_alive(alive.take(n), n) == count_alive(alive, n),
    decreases n,
{
    if n > 0 {
        lemma_count_alive_prefix_take(alive, n, n - 1);
        lemma_count_alive_prefix(alive, n - 1);
    }
}

proof fn lemma_count_alive_prefix_take(alive: Seq<bool>, n: int, m: int)
    requires
        0 <= m <= n <= alive.len(),
    ensures
        count_alive(alive.take(n), m) == count_alive(alive.take(m), m),
    decreases m,
{
    if m > 0 {
        lemma_count_alive_prefix_take(alive, n, m - 1);
        lemma_count_alive_prefix_take(alive, m, m - 1);
        assert(alive.take(n)[m - 1] == alive.take(m)[m - 1]);
    }
}

/// Motion that leaves the focused surface, or moves while nothing is
/// focused, or while the focused surface is gone, hands focus to the surface
/// under the pointer: focus becomes that surface, the serial advances, and
/// every live pointer of that surface's client receives an enter with the
/// old serial and the surface-local position; no enter goes anywhere else.
pub proof fn lemma_motion_off_focus_enters_hit(
    v: WlPointerView,
    alive: Seq<bool>,
    time: u32,
    x: i32,
    y: i32,
    scene: SceneQuery,
)
    requires
        alive.len() == v.client_pointers.len(),
        scene.hit is Some,
        v.focused_surface is None || scene.focused is None || match scene.focused->0.input_region_hit {
            Some(inside) => !inside,
            None => match scene.focused->0.buffer_size {
                Some((w, h)) => !(0 <= x < w && 0 <= y < h),
                None => true,
            },
        },
    ensures
        ({
            let (v2, ds) = spec_handle(v, alive, HostPointerEvent::Motion { time, surface_x: x, surface_y: y }, scene);
            let h = scene.hit->0;
            let enter = PointerMessage::Enter { serial: v.serial, surface: h.id, x: h.local_x, y: h.local_y };
            &&& v2.focused_surface == Some(h.id)
            &&& v2.serial == (if v.serial == u32::MAX { 0 } else { v.serial + 1 })
            &&& v2.host_x == x && v2.host_y == y
            &&& forall|j: int| 0 <= j < v.client_pointers.len() && alive[j]
                && (#[trigger] v.client_pointers[j]).connection == h.connection ==>
                exists|i: int| 0 <= i < ds.len() && ds[i] == (Delivery { pointer: v.client_pointers[j].object_id, message: enter })
            &&& forall|i: int| 0 <= i < ds.len() && (#[trigger] ds[i]).message is Enter ==> ds[i].message == enter
                && is_live_pointer(v.client_pointers, alive, ClientPointer { object_id: ds[i].pointer, connection: h.connection })
        }),
{
    let live = retain_mask(v.client_pointers, alive);
    let lv = WlPointerView {
        client_pointers: live,
        focused_surface: v.focused_surface,
        host_x: v.host_x,
        host_y: v.host_y,
        serial: v.serial,
        surface_clients: v.surface_clients,
    };
    let h = scene.hit->0;
    let enter = PointerMessage::Enter { serial: v.serial, surface: h.id, x: h.local_x, y: h.local_y };
    let leave = clear_focus_deliveries(lv, scene, v.serial);
    let ent = deliver_to(live, h.connection, enter);
    let (v2, ds) = spec_handle(v, alive, HostPointerEvent::Motion { time, surface_x: x, surface_y: y }, scene);
    assert(ds == leave + ent);
    lemma_retain_keeps_exactly_the_live(v.client_pointers, alive);
    lemma_deliver_to_reaches_exactly_the_connection(live, h.connection, enter);
    lemma_clear_focus_message(lv, scene, v.serial);
    assert forall|j: int| 0 <= j < v.client_pointers.len() && alive[j]
        && (#[trigger] v.client_pointers[j]).connection == h.connection implies
        exists|i: int| 0 <= i < ds.len() && ds[i] == (Delivery { pointer: v.client_pointers[j].object_id, message: enter }) by {
        let p = v.client_pointers[j];
        assert(live.contains(p));
        let k = choose|k: int| 0 <= k < live.len() && live[k] == p;
        assert(live[k].connection == h.connection);
        let i = choose|i: int| 0 <= i < ent.len() && ent[i].pointer == live[k].object_id;
        assert(ds[leave.len() + i] == ent[i]);
    }
    assert forall|i: int| 0 <= i < ds.len() && (#[trigger] ds[i]).message is Enter implies ds[i].message == enter
        && is_live_pointer(v.client_pointers, alive, ClientPointer { object_id: ds[i].pointer, connection: h.connection }) by {
        if i < leave.len() {
            assert(ds[i] == leave[i]);
            let fs = scene.focused->0;
            lemma_deliver_to_message(live, fs.connection, PointerMessage::Leave { serial: v.serial, surface: v.focused_surface->0 });
            assert(leave[i].message is Leave);
        } else {
            let i2 = i - leave.len();
            assert(ds[i] == ent[i2]);
            let j = choose|j: int| 0 <= j < live.len() && live[j].connection == h.connection
                && live[j].object_id == ent[i2].pointer;
            assert(live[j] == (ClientPointer { object_id: ds[i].pointer, connection: h.connection }));
            assert(is_live_pointer(v.client_pointers, alive, retain_mask(v.client_pointers, alive)[j]));
        }
    }
}

/// `ds` is `msg` sent to exactly the live pointers of connection `conn`:
/// each of them receives it, and every delivery is `msg` to one of them.
pub open spec fn reaches_exactly_live(
    ds: Seq<Delivery>,
    ptrs: Seq<ClientPointer>,
    alive: Seq<bool>,
    conn: u64,
    msg: PointerMessage,
) -> bool {
    &&& forall|j: int| 0 <= j < ptrs.len() && alive[j] && (#[trigger] ptrs[j]).connection == conn ==>
        exists|i: int| 0 <= i < ds.len() && ds[i] == (Delivery { pointer: ptrs[j].object_id, message: msg })
    &&& forall|i: int| 0 <= i < ds.len() ==> (#[trigger] ds[i]).message == msg
        && is_live_pointer(ptrs, alive, ClientPointer { object_id: ds[i].pointer, connection: conn })
}

/// Sending to the connection's pointers, after dropping the dead ones,
/// reaches exactly its live pointers.
proof fn lemma_live_delivery(ptrs: Seq<ClientPointer>, alive: Seq<bool>, conn: u64, msg: PointerMessage)
    requires
        alive.len() == ptrs.len(),
    ensures
        reaches_exactly_live(deliver_to(retain_mask(ptrs, alive), conn, msg), ptrs, alive, conn, msg),
{
    let live = retain_mask(ptrs, alive);
    let ds = deliver_to(live, conn, msg);
    lemma_retain_keeps_exactly_the_live(ptrs, alive);
    lemma_deliver_to_reaches_exactly_the_connection(live, conn, msg);
    assert forall|j: int| 0 <= j < ptrs.len() && alive[j] && (#[trigger] ptrs[j]).connection == conn implies
        exists|i: int| 0 <= i < ds.len() && ds[i] == (Delivery { pointer: ptrs[j].object_id, message: msg }) by {
        let p = ptrs[j];
        assert(live.contains(p));
        let k = choose|k: int| 0 <= k < live.len() && live[k] == p;
        assert(live[k].connection == conn);
        let i = choose|i: int| 0 <= i < ds.len() && ds[i].pointer == live[k].object_id;
        assert(ds[i] == (Delivery { pointer: ptrs[j].object_id, message: msg }));
    }
    assert forall|i: int| 0 <= i < ds.len() implies (#[trigger] ds[i]).message == msg
        && is_live_pointer(ptrs, alive, ClientPointer { object_id: ds[i].pointer, connection: conn }) by {
        let j = choose|j: int| 0 <= j < live.len() && live[j].connection == conn && live[j].object_id == ds[i].pointer;
        assert(live[j] == (ClientPointer { object_id: ds[i].pointer, connection: conn }));
        assert(is_live_pointer(ptrs, alive, retain_mask(ptrs, alive)[j]));
    }
}

/// Motion inside the focused surface keeps focus and serial, and tells
/// exactly the live pointers of that surface's client where the pointer is.
pub proof fn lemma_motion_inside_focus(v: WlPointerView, alive: Seq<bool>, time: u32, x: i32, y: i32, scene: SceneQuery)
    requires
        alive.len() == v.client_pointers.len(),
        v.focused_surface is Some,
        scene.focused is Some,
        match scene.focused->0.input_region_hit {
            Some(inside) => inside,
            None => match scene.focused->0.buffer_size {
                Some((w, h)) => 0 <= x < w && 0 <= y < h,
                None => false,
            },
        },
    ensures
        ({
            let (v2, ds) = spec_handle(v, alive, HostPointerEvent::Motion { time, surface_x: x, surface_y: y }, scene);
            &&& v2.focused_surface == v.focused_surface
            &&& v2.serial == v.serial
            &&& v2.host_x == x && v2.host_y == y
            &&& reaches_exactly_live(ds, v.client_pointers, alive, scene.focused->0.connection,
                PointerMessage::Motion { time, x, y })
        }),
{
    lemma_live_delivery(v.client_pointers, alive, scene.focused->0.connection, PointerMessage::Motion { time, x, y });
}

/// A leave from the host drops focus, uses the serial, and tells exactly the
/// live pointers of the focused surface's client (when that surface is still
/// known) that the pointer left it; nothing else is sent.
pub proof fn lemma_leave_drops_focus(v: WlPointerView, alive: Seq<bool>, scene: SceneQuery)
    requires
        alive.len() == v.client_pointers.len(),
    ensures
        ({
            let (v2, ds) = spec_handle(v, alive, HostPointerEvent::Leave, scene);
            &&& v2.focused_surface is None
            &&& v2.serial == (if v.serial == u32::MAX { 0 } else { v.serial + 1 })
            &&& v2.host_x == v.host_x && v2.host_y == v.host_y
            &&& if v.focused_surface is Some && scene.focused is Some {
                reaches_exactly_live(ds, v.client_pointers, alive, scene.focused->0.connection,
                    PointerMessage::Leave { serial: v.serial, surface: v.focused_surface->0 })
            } else {
                ds.len() == 0
            }
        }),
{
    if v.focused_surface is Some && scene.focused is Some {
        lemma_live_delivery(v.client_pointers, alive, scene.focused->0.connection,
            PointerMessage::Leave { serial: v.serial, surface: v.focused_surface->0 });
    }
}

/// An enter from the host over no client surface drops focus and uses the
/// serial, telling exactly the live pointers of the focused surface's client
/// (when still known) that the pointer left it; the position is recorded.
pub proof fn lemma_enter_over_nothing(v: WlPointerView, alive: Seq<bool>, x: i32, y: i32, scene: SceneQuery)
    requires
        alive.len() == v.client_pointers.len(),
        scene.hit is None,
    ensures
        ({
            let (v2, ds) = spec_handle(v, alive, HostPointerEvent::Enter { surface_x: x, surface_y: y }, scene);
            &&& v2.focused_surface is None
            &&& v2.serial == (if v.serial == u32::MAX { 0 } else { v.serial + 1 })
            &&& v2.host_x == x && v2.host_y == y
            &&& if v.focused_surface is Some && scene.focused is Some {
                reaches_exactly_live(ds, v.client_pointers, alive, scene.focused->0.connection,
                    PointerMessage::Leave { serial: v.serial, surface: v.focused_surface->0 })
            } else {
                ds.len() == 0
            }
        }),
{
    if v.focused_surface is Some && scene.focused is Some {
        lemma_live_delivery(v.client_pointers, alive, scene.focused->0.connection,
            PointerMessage::Leave { serial: v.serial, surface: v.focused_surface->0 });
    }
}

/// An enter from the host over a client surface focuses it and uses the
/// serial: the live pointers of the previously focused surface's client get
/// a leave first (only when focus really moves and that surface is still
/// known), then exactly the live pointers of the new surface's client get
/// an enter with the surface-local position.
pub proof fn lemma_enter_over_surface(v: WlPointerView, alive: Seq<bool>, x: i32, y: i32, scene: SceneQuery)
    requires
        alive.len() == v.client_pointers.len(),
        scene.hit is Some,
    ensures
        ({
            let (v2, ds) = spec_handle(v, alive, HostPointerEvent::Enter { surface_x: x, surface_y: y }, scene);
            let h = scene.hit->0;
            let enter = PointerMessage::Enter { serial: v.serial, surface: h.id, x: h.local_x, y: h.local_y };
            let moved = v.focused_surface is Some && v.focused_surface->0 != h.id && scene.focused is Some;
            let leave = PointerMessage::Leave { serial: v.serial, surface: v.focused_surface->0 };
            &&& v2.focused_surface == Some(h.id)
            &&& v2.serial == (if v.serial == u32::MAX { 0 } else { v.serial + 1 })
            &&& v2.host_x == x && v2.host_y == y
            &&& exists|k: int| 0 <= k <= ds.len()
                && reaches_exactly_live(ds.subrange(k, ds.len() as int), v.client_pointers, alive, h.connection, enter)
                && if moved {
                    reaches_exactly_live(ds.subrange(0, k), v.client_pointers, alive, scene.focused->0.connection, leave)
                } else {
                    k == 0
                }
        }),
{
    let h = scene.hit->0;
    let enter = PointerMessage::Enter { serial: v.serial, surface: h.id, x: h.local_x, y: h.local_y };
    let moved = v.focused_surface is Some && v.focused_surface->0 != h.id && scene.focused is Some;
    let leave_msg = PointerMessage::Leave { serial: v.serial, surface: v.focused_surface->0 };
    let live = retain_mask(v.client_pointers, alive);
    let (v2, ds) = spec_handle(v, alive, HostPointerEvent::Enter { surface_x: x, surface_y: y }, scene);
    let ent = deliver_to(live, h.connection, enter);
    lemma_live_delivery(v.client_pointers, alive, h.connection, enter);
    if moved {
        let lv = deliver_to(live, scene.focused->0.connection, leave_msg);
        lemma_live_delivery(v.client_pointers, alive, scene.focused->0.connection, leave_msg);
        assert(ds == lv + ent);
        assert(ds.subrange(lv.len() as int, ds.len() as int) =~= ent);
        assert(ds.subrange(0, lv.len() as int) =~= lv);
    } else {
        assert(ds == Seq::<Delivery>::empty() + ent);
        assert(ds.subrange(0, ds.len() as int) =~= ent);
    }
}

/// A button goes, with a fresh serial, to exactly the live pointers of the
/// focused surface's client; with no known focused surface nothing is sent
/// and no serial is used. Focus never changes.
pub proof fn lemma_button_goes_to_focus(v: WlPointerView, alive: Seq<bool>, scene: SceneQuery)
    requires
        alive.len() == v.client_pointers.len(),
    ensures
        ({
            let (v2, ds) = spec_handle(v, alive, HostPointerEvent::Button, scene);
            &&& v2.focused_surface == v.focused_surface
            &&& v2.host_x == v.host_x && v2.host_y == v.host_y
            &&& if v.focused_surface is Some && scene.focused is Some {
                &&& v2.serial == (if v.serial == u32::MAX { 0 } else { v.serial + 1 })
                &&& reaches_exactly_live(ds, v.client_pointers, alive, scene.focused->0.connection,
                    PointerMessage::Button { serial: v.serial })
            } else {
                v2.serial == v.serial && ds.len() == 0
            }
        }),
{
    if v.focused_surface is Some && scene.focused is Some {
        lemma_live_delivery(v.client_pointers, alive, scene.focused->0.connection, PointerMessage::Button { serial: v.serial });
    }
}

/// Axis-type events are passed on to exactly the live pointers of the
/// focused surface's client, or to no one without a known focused surface;
/// focus, serial and position stay.
pub proof fn lemma_other_events_forwarded_to_focus(v: WlPointerView, alive: Seq<bool>, scene: SceneQuery)
    requires
        alive.len() == v.client_pointers.len(),
    ensures
        ({
            let (v2, ds) = spec_handle(v, alive, HostPointerEvent::Other, scene);
            &&& v2.focused_surface == v.focused_surface
            &&& v2.serial == v.serial
            &&& v2.host_x == v.host_x && v2.host_y == v.host_y
            &&& if v.focused_surface is Some && scene.focused is Some {
                reaches_exactly_live(ds, v.client_pointers, alive, scene.focused->0.connection, PointerMessage::Forward)
            } else {
                ds.len() == 0
            }
        }),
{
    if v.focused_surface is Some && scene.focused is Some {
        lemma_live_delivery(v.client_pointers, alive, scene.focused->0.connection, PointerMessage::Forward);
    }
}

/// Every event keeps exactly the live client pointers.
pub proof fn lemma_events_keep_exactly_live_pointers(v: WlPointerView, alive: Seq<bool>, ev: HostPointerEvent, scene: SceneQuery)
    requires
        alive.len() == v.client_pointers.len(),
    ensures
        spec_handle(v, alive, ev, scene).0.client_pointers == retain_mask(v.client_pointers, alive),
        forall|k: int| 0 <= k < spec_handle(v, alive, ev, scene).0.client_pointers.len() ==>
            is_live_pointer(v.client_pointers, alive, #[trigger] spec_handle(v, alive, ev, scene).0.client_pointers[k]),
        forall|j: int| 0 <= j < v.client_pointers.len() && alive[j]
            ==> spec_handle(v, alive, ev, scene).0.client_pointers.contains(#[trigger] v.client_pointers[j]),
{
    lemma_retain_keeps_exactly_the_live(v.client_pointers, alive);
}

} // verus!
