use vstd::prelude::*;

verus! {

/// The mathematical value of a rectangle: its four edges.
/// `left`/`top` are inclusive, `right`/`bottom` exclusive.
pub struct RectView {
    pub left: int,
    pub top: int,
    pub right: int,
    pub bottom: int,
}

impl RectView {
    pub open spec fn width(self) -> int {
        self.right - self.left
    }

    pub open spec fn height(self) -> int {
        self.bottom - self.top
    }

    /// A rectangle with no positive width or no positive height covers nothing.
    pub open spec fn is_empty(self) -> bool {
        self.width() <= 0 || self.height() <= 0
    }

    /// The smallest axis-aligned box spanning both rectangles' edges.
    pub open spec fn bounding_box(self, other: RectView) -> RectView {
        RectView {
            left: if self.left <= other.left { self.left } else { other.left },
            top: if self.top <= other.top { self.top } else { other.top },
            right: if self.right >= other.right { self.right } else { other.right },
            bottom: if self.bottom >= other.bottom { self.bottom } else { other.bottom },
        }
    }

    /// Union of two rectangles: an empty rectangle contributes nothing, so it
    /// never drags the bound towards its (meaningless) origin.
    pub open spec fn union(self, other: RectView) -> RectView {
        if self.is_empty() {
            other
        } else if other.is_empty() {
            self
        } else {
            self.bounding_box(other)
        }
    }

    /// `self` covers every point of `other`.
    pub open spec fn covers(self, other: RectView) -> bool {
        other.is_empty() || (self.left <= other.left && self.top <= other.top
            && other.right <= self.right && other.bottom <= self.bottom)
    }
}

/// An axis-aligned rectangle in whole pixels.
///
/// It is built from an origin and a size given as `i32`; the edges are kept as
/// `i64`, so that the union of any two rectangles is again representable.
#[derive(Clone, Copy, Debug, PartialEq, Eq, Structural)]
pub struct Rect {
    left: i64,
    top: i64,
    right: i64,
    bottom: i64,
}

impl View for Rect {
    type V = RectView;

    closed spec fn view(&self) -> RectView {
        RectView {
            left: self.left as int,
            top: self.top as int,
            right: self.right as int,
            bottom: self.bottom as int,
        }
    }
}

/// The spec-level constructor from an origin and a size.
pub open spec fn rect_view_xywh(x: int, y: int, w: int, h: int) -> RectView {
    RectView { left: x, top: y, right: x + w, bottom: y + h }
}

impl Rect {
    /// Origins lie in the `i32` range; far edges lie within twice that range.
    #[verifier::type_invariant]
    spec fn edges_in_range(self) -> bool {
        &&& i32::MIN <= self.left <= i32::MAX
        &&& i32::MIN <= self.top <= i32::MAX
        &&& 2 * (i32::MIN as int) <= self.right <= 2 * (i32::MAX as int)
        &&& 2 * (i32::MIN as int) <= self.bottom <= 2 * (i32::MAX as int)
    }

    /// The empty rectangle at the origin.
    pub fn zero() -> (r: Rect)
        ensures
            r@ == rect_view_xywh(0, 0, 0, 0),
    {
        Rect { left: 0, top: 0, right: 0, bottom: 0 }
    }

    /// The rectangle with origin `(x, y)`, width `w` and height `h`.
    pub fn new(x: i32, y: i32, w: i32, h: i32) -> (r: Rect)
        ensures
            r@ == rect_view_xywh(x as int, y as int, w as int, h as int),
    {
        Rect {
            left: x as i64,
            top: y as i64,
            right: x as i64 + w as i64,
            bottom: y as i64 + h as i64,
        }
    }

    pub fn x(&self) -> (r: i32)
        ensures
            r == self@.left,
    {
        proof {
            use_type_invariant(self);
        }
        self.left as i32
    }

    pub fn y(&self) -> (r: i32)
        ensures
            r == self@.top,
    {
        proof {
            use_type_invariant(self);
        }
        self.top as i32
    }

    pub fn width(&self) -> (r: i64)
        ensures
            r == self@.width(),
    {
        proof {
            use_type_invariant(self);
        }
        self.right - self.left
    }

    pub fn height(&self) -> (r: i64)
        ensures
            r == self@.height(),
    {
        proof {
            use_type_invariant(self);
        }
        self.bottom - self.top
    }

    pub fn is_empty(&self) -> (r: bool)
        ensures
            r == self@.is_empty(),
    {
        self.right <= self.left || self.bottom <= self.top
    }

    /// The union as a value of this type; its view is [`RectView::union`].
    pub closed spec fn spec_union(self, other: Rect) -> Rect {
        if self@.is_empty() {
            other
        } else if other@.is_empty() {
            self
        } else {
            Rect {
                left: if self.left <= other.left { self.left } else { other.left },
                top: if self.top <= other.top { self.top } else { other.top },
                right: if self.right >= other.right { self.right } else { other.right },
                bottom: if self.bottom >= other.bottom { self.bottom } else { other.bottom },
            }
        }
    }

    /// The union of two rectangles (see [`RectView::union`]).
    pub fn union(self, other: Rect) -> (r: Rect)
        ensures
            r@ == self@.union(other@),
            r == self.spec_union(other),
    {
        if self.is_empty() {
            other
        } else if other.is_empty() {
            self
        } else {
            proof {
                use_type_invariant(&self);
                use_type_invariant(&other);
            }
            Rect {
                left: if self.left <= other.left { self.left } else { other.left },
                top: if self.top <= other.top { self.top } else { other.top },
                right: if self.right >= other.right { self.right } else { other.right },
                bottom: if self.bottom >= other.bottom { self.bottom } else { other.bottom },
            }
        }
    }
}

/// An empty rectangle, on either side of a union with a non-empty one,
/// contributes nothing.
pub proof fn lemma_rect_union_empty_is_identity(r: RectView, e: RectView)
    requires
        e.is_empty(),
        !r.is_empty(),
    ensures
        r.union(e) == r,
        e.union(r) == r,
{
}

/// Union is commutative unless both operands are empty (then each order
/// answers with its right operand, which is empty either way).
pub proof fn lemma_rect_union_commutative(a: RectView, b: RectView)
    requires
        !(a.is_empty() && b.is_empty()),
    ensures
        a.union(b) == b.union(a),
{
}

/// The union of two empty rectangles is empty.
pub proof fn lemma_rect_union_of_empties_is_empty(a: RectView, b: RectView)
    requires
        a.is_empty(),
        b.is_empty(),
    ensures
        a.union(b).is_empty(),
{
}

/// Union is associative.
pub proof fn lemma_rect_union_associative(a: RectView, b: RectView, c: RectView)
    ensures
        a.union(b).union(c) == a.union(b.union(c)),
{
}

/// The union covers both operands, and any rectangle that covers both
/// operands covers their union: it is the bounding box.
pub proof fn lemma_rect_union_is_least_cover(a: RectView, b: RectView, c: RectView)
    ensures
        a.union(b).covers(a),
        a.union(b).covers(b),
        c.covers(a) && c.covers(b) ==> c.covers(a.union(b)),
{
}

/// A rectangle unioned with one it covers is unchanged, in either order.
pub proof fn lemma_rect_union_absorbs_covered(outer: RectView, inner: RectView)
    requires
        !outer.is_empty(),
        outer.covers(inner),
    ensures
        outer.union(inner) == outer,
        inner.union(outer) == outer,
{
}

} // verus!
