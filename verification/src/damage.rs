use vstd::prelude::*;

use crate::geometry::{
    lemma_rect_union_absorbs_covered, lemma_rect_union_associative,
    lemma_rect_union_commutative, lemma_rect_union_is_least_cover,
    lemma_rect_union_of_empties_is_empty, Rect, RectView,
};

verus! {

/// The mathematical value of a [`Damage`].
pub enum DamageView {
    Clean,
    Paint(RectView),
    Layout,
}

impl DamageView {
    /// Damage for repainting `r`; a rectangle that covers nothing is no damage.
    pub open spec fn paint(r: RectView) -> DamageView {
        if r.is_empty() {
            DamageView::Clean
        } else {
            DamageView::Paint(r)
        }
    }

    /// Combining two damages: layout dominates, clean is neutral, and two
    /// repaints merge into the repaint of the union of their rectangles.
    pub open spec fn union(self, other: DamageView) -> DamageView {
        if self is Layout || other is Layout {
            DamageView::Layout
        } else if self is Clean {
            other
        } else if other is Clean {
            self
        } else {
            DamageView::paint(self->Paint_0.union(other->Paint_0))
        }
    }

    /// Not a repaint of an empty rectangle: the form every damage built by
    /// [`Damage::paint`] and [`Damage::union`] has.
    pub open spec fn is_normal(self) -> bool {
        self is Paint ==> !self->Paint_0.is_empty()
    }
}

/// What a change to a widget dirtied.
#[derive(Clone, Copy, Debug, PartialEq, Eq, Structural)]
pub enum Damage {
    /// Nothing to redo.
    Clean,
    /// Repaint the given rectangle; geometry is unchanged.
    Paint(Rect),
    /// Geometry may have moved: layout has to be recomputed.
    Layout,
}

impl View for Damage {
    type V = DamageView;

    open spec fn view(&self) -> DamageView {
        match *self {
            Damage::Clean => DamageView::Clean,
            Damage::Paint(r) => DamageView::Paint(r@),
            Damage::Layout => DamageView::Layout,
        }
    }
}

impl Damage {
    /// The union as a value of this type; its view is [`DamageView::union`].
    pub open spec fn spec_union(self, other: Damage) -> Damage {
        match (self, other) {
            (Damage::Layout, _) => Damage::Layout,
            (_, Damage::Layout) => Damage::Layout,
            (Damage::Clean, d) => d,
            (d, Damage::Clean) => d,
            (Damage::Paint(a), Damage::Paint(b)) => if a.spec_union(b)@.is_empty() {
                Damage::Clean
            } else {
                Damage::Paint(a.spec_union(b))
            },
        }
    }

    /// Repaint damage for `rect`; an empty rectangle yields `Damage::Clean`.
    pub fn paint(rect: Rect) -> (d: Damage)
        ensures
            d@ == DamageView::paint(rect@),
            d@.is_normal(),
            rect@.is_empty() ==> d == Damage::Clean,
            !rect@.is_empty() ==> d == Damage::Paint(rect),
    {
        if rect.is_empty() {
            Damage::Clean
        } else {
            Damage::Paint(rect)
        }
    }

    /// The damage that covers both `self` and `other`.
    pub fn union(self, other: Damage) -> (d: Damage)
        ensures
            d@ == self@.union(other@),
            d == self.spec_union(other),
            self@.is_normal() && other@.is_normal() ==> d@.is_normal(),
    {
        match (self, other) {
            (Damage::Layout, _) => Damage::Layout,
            (_, Damage::Layout) => Damage::Layout,
            (Damage::Clean, d) => d,
            (d, Damage::Clean) => d,
            (Damage::Paint(a), Damage::Paint(b)) => Damage::paint(a.union(b)),
        }
    }
}

impl Damage {
    /// Whether this damage asks for layout to be recomputed.
    pub fn is_layout(&self) -> (b: bool)
        ensures
            b == (*self is Layout),
    {
        match self {
            Damage::Layout => true,
            _ => false,
        }
    }
}

impl Default for Damage {
    fn default() -> (d: Damage)
        ensures
            d == Damage::Clean,
    {
        Damage::Clean
    }
}

impl core::ops::BitOr for Damage {
    type Output = Damage;

    fn bitor(self, rhs: Damage) -> (d: Damage)
        ensures
            d@ == self@.union(rhs@),
            d == self.spec_union(rhs),
    {
        self.union(rhs)
    }
}

impl vstd::std_specs::ops::BitOrSpecImpl for Damage {
    open spec fn obeys_bitor_spec() -> bool {
        true
    }

    open spec fn bitor_req(self, rhs: Damage) -> bool {
        true
    }

    open spec fn bitor_spec(self, rhs: Damage) -> Damage {
        self.spec_union(rhs)
    }
}

impl core::ops::BitOrAssign for Damage {
    fn bitor_assign(&mut self, rhs: Damage)
        ensures
            final(self)@ == old(self)@.union(rhs@),
    {
        *self = self.union(rhs);
    }
}

/// No damage is neutral on both sides of a union.
pub proof fn lemma_clean_is_identity(x: DamageView)
    ensures
        DamageView::Clean.union(x) == x,
        x.union(DamageView::Clean) == x,
{
}

/// Layout damage absorbs anything it is combined with, on either side.
pub proof fn lemma_layout_dominates(x: DamageView)
    ensures
        DamageView::Layout.union(x) == DamageView::Layout,
        x.union(DamageView::Layout) == DamageView::Layout,
{
}

/// Combining damages does not depend on their order.
pub proof fn lemma_union_commutative(a: DamageView, b: DamageView)
    ensures
        a.union(b) == b.union(a),
{
    if a is Paint && b is Paint {
        let (ra, rb) = (a->Paint_0, b->Paint_0);
        if ra.is_empty() && rb.is_empty() {
            lemma_rect_union_of_empties_is_empty(ra, rb);
            lemma_rect_union_of_empties_is_empty(rb, ra);
        } else {
            lemma_rect_union_commutative(ra, rb);
        }
    }
}

/// Two repaints combine into the repaint of the union of their rectangles.
pub proof fn lemma_paint_union_paint(a: RectView, b: RectView)
    ensures
        DamageView::Paint(a).union(DamageView::Paint(b)) == DamageView::paint(a.union(b)),
{
}

/// A rectangle with no area is no damage, and a repaint of such a rectangle
/// adds nothing to a real repaint or to layout damage.
pub proof fn lemma_empty_paint_collapses(e: RectView, p: DamageView)
    requires
        e.is_empty(),
        p.is_normal(),
        !(p is Clean),
    ensures
        DamageView::paint(e) == DamageView::Clean,
        DamageView::Paint(e).union(p) == p,
        p.union(DamageView::Paint(e)) == p,
{
}

/// Combining a damage with itself changes nothing (for the damages that
/// `Damage::paint` and `Damage::union` produce).
pub proof fn lemma_union_idempotent(x: DamageView)
    requires
        x.is_normal(),
    ensures
        x.union(x) == x,
{
    if x is Paint {
        lemma_rect_union_absorbs_covered(x->Paint_0, x->Paint_0);
    }
}

/// Combining normal damages gives a normal damage.
pub proof fn lemma_union_normal(a: DamageView, b: DamageView)
    requires
        a.is_normal(),
        b.is_normal(),
    ensures
        a.union(b).is_normal(),
{
}

/// Grouping does not matter when damages are combined (for the damages that
/// `Damage::paint` and `Damage::union` produce).
pub proof fn lemma_union_associative(a: DamageView, b: DamageView, c: DamageView)
    requires
        a.is_normal(),
        b.is_normal(),
        c.is_normal(),
    ensures
        a.union(b).union(c) == a.union(b.union(c)),
{
    if a is Paint && b is Paint && c is Paint {
        let (ra, rb, rc) = (a->Paint_0, b->Paint_0, c->Paint_0);
        lemma_rect_union_associative(ra, rb, rc);
        lemma_rect_union_is_least_cover(ra, rb, rc);
        lemma_rect_union_is_least_cover(rb, rc, ra);
    }
}

} // verus!
