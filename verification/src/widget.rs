use vstd::prelude::*;

use crate::damage::{Damage, DamageView};
use crate::geometry::{Rect, rect_view_xywh};

verus! {

/// A widget's reaction to one kind of new value.
///
/// `damage` runs **first**, while the widget still holds its *old* state and
/// is handed the *new* value, so it can return a tight bound. `change` runs
/// **second**: it applies the value and fans out its model consequences.
pub trait OnChange<T> {
    /// Region dirtied by replacing the current state with `new`; must not mutate.
    fn damage(&self, new: &T) -> Damage;

    /// Apply `new`.
    fn change(&mut self, new: T);
}

/// The node id a widget holds before it has been placed in a layout tree.
pub const UNPLACED_NODE: u64 = 0xffff_ffff_ffff_ffff;

/// The bookkeeping every widget carries besides its own fields: its node in
/// the layout tree, its last absolute on-screen bounds, whether it may take
/// the opaque fast path, and the damage of the changes applied since the
/// last drain.
pub struct WidgetState {
    pub node_id: u64,
    pub bounds: Rect,
    pub is_opaque: bool,
    pub pending_damage: Damage,
}

impl WidgetState {
    /// The damage recorded since the last drain.
    pub open spec fn pending(&self) -> DamageView {
        self.pending_damage@
    }

    /// A widget not yet in any layout tree: no bounds, nothing pending,
    /// opaque fast path allowed.
    pub fn new() -> (s: WidgetState)
        ensures
            s.node_id == UNPLACED_NODE,
            s.bounds@ == rect_view_xywh(0, 0, 0, 0),
            s.is_opaque,
            s.pending() == DamageView::Clean,
    {
        WidgetState {
            node_id: UNPLACED_NODE,
            bounds: Rect::zero(),
            is_opaque: true,
            pending_damage: Damage::Clean,
        }
    }

    /// Adds the damage of one change to what is pending.
    pub fn record(&mut self, d: Damage)
        ensures
            final(self).pending() == old(self).pending().union(d@),
            final(self).node_id == old(self).node_id,
            final(self).bounds == old(self).bounds,
            final(self).is_opaque == old(self).is_opaque,
    {
        self.pending_damage = self.pending_damage.union(d);
    }

    /// Takes the pending damage, leaving nothing pending, and says whether
    /// the widget's layout node has to be brought up to date (only layout
    /// damage asks for that).
    pub fn drain(&mut self) -> (r: (Damage, bool))
        ensures
            r.0@ == old(self).pending(),
            r.1 == (old(self).pending() is Layout),
            final(self).pending() == DamageView::Clean,
            final(self).node_id == old(self).node_id,
            final(self).bounds == old(self).bounds,
            final(self).is_opaque == old(self).is_opaque,
    {
        let d = self.pending_damage;
        self.pending_damage = Damage::Clean;
        let relayout = d.is_layout();
        (d, relayout)
    }
}

/// Applies a new value to a widget the way a widget's `set` does: the damage
/// is computed against the old state, recorded, and only then is the value
/// applied.
pub fn set_value<W: OnChange<V>, V>(widget: &mut W, state: &mut WidgetState, value: V) -> (d: Damage)
    ensures
        call_ensures(W::damage, (&*old(widget), &value), d),
        exists|m: &mut W|
            mut_ref_current(m) == *old(widget) && mut_ref_future(m) == *final(widget)
                && #[trigger] call_ensures(W::change, (m, value), ()),
        final(state).pending() == old(state).pending().union(d@),
        final(state).node_id == old(state).node_id,
        final(state).bounds == old(state).bounds,
        final(state).is_opaque == old(state).is_opaque,
{
    let d = widget.damage(&value);
    state.record(d);
    widget.change(value);
    d
}

/// The damage that accumulates, from nothing, when the damages of a run of
/// changes are recorded one after another.
pub open spec fn accumulated(ds: Seq<DamageView>) -> DamageView
    decreases ds.len(),
{
    if ds.len() == 0 {
        DamageView::Clean
    } else {
        accumulated(ds.drop_last()).union(ds.last())
    }
}

/// Recording the damage of one more change extends the accumulation by
/// exactly that damage, and a single recorded damage is its own accumulation.
pub proof fn lemma_pending_accumulates(ds: Seq<DamageView>, d: DamageView)
    ensures
        accumulated(ds.push(d)) == accumulated(ds).union(d),
        accumulated(seq![d]) == d,
{
    assert(ds.push(d).drop_last() =~= ds);
    assert(seq![d].drop_last() =~= Seq::<DamageView>::empty());
    assert(accumulated(Seq::<DamageView>::empty()) == DamageView::Clean);
    crate::damage::lemma_clean_is_identity(d);
}

/// Accumulating normal damages gives a normal damage.
pub proof fn lemma_accumulated_normal(ds: Seq<DamageView>)
    requires
        forall|i: int| 0 <= i < ds.len() ==> (#[trigger] ds[i]).is_normal(),
    ensures
        accumulated(ds).is_normal(),
    decreases ds.len(),
{
    if ds.len() > 0 {
        lemma_accumulated_normal(ds.drop_last());
        crate::damage::lemma_union_normal(accumulated(ds.drop_last()), ds.last());
    }
}

/// Draining part-way and combining the two drained damages gives the same
/// damage as draining once at the end.
pub proof fn lemma_accumulated_split(a: Seq<DamageView>, b: Seq<DamageView>)
    requires
        forall|i: int| 0 <= i < a.len() ==> (#[trigger] a[i]).is_normal(),
        forall|i: int| 0 <= i < b.len() ==> (#[trigger] b[i]).is_normal(),
    ensures
        accumulated(a + b) == accumulated(a).union(accumulated(b)),
    decreases b.len(),
{
    if b.len() == 0 {
        assert(a + b =~= a);
        crate::damage::lemma_clean_is_identity(accumulated(a));
    } else {
        let b0 = b.drop_last();
        assert((a + b).drop_last() =~= a + b0);
        assert((a + b).last() == b.last());
        lemma_accumulated_split(a, b0);
        lemma_accumulated_normal(a);
        lemma_accumulated_normal(b0);
        crate::damage::lemma_union_associative(accumulated(a), accumulated(b0), b.last());
    }
}

} // verus!
