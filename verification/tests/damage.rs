use ui::damage::Damage;
use ui::geometry::Rect;
use ui::widget::{set_value, OnChange, WidgetState};

// ── Rect::union ─────────────────────────────────────────────────────────

#[test]
fn rect_union_bounding_box_of_disjoint_rects() {
    let a = Rect::new(0, 0, 10, 10);
    let b = Rect::new(20, 30, 5, 5);
    // min origin (0,0), far corner max(10,25)=25 x max(10,35)=35.
    assert_eq!(a.union(b), Rect::new(0, 0, 25, 35));
}

#[test]
fn rect_union_empty_is_identity() {
    let r = Rect::new(40, 40, 10, 10);
    // The empty rect at the origin must NOT smear the bound toward (0,0).
    assert_eq!(r.union(Rect::zero()), r);
    assert_eq!(Rect::zero().union(r), r);
    // A zero-*width* sliver is empty too.
    let sliver = Rect::new(0, 0, 0, 200);
    assert_eq!(r.union(sliver), r);
    assert_eq!(sliver.union(r), r);
}

#[test]
fn rect_union_is_commutative() {
    let a = Rect::new(1, 2, 3, 4);
    let b = Rect::new(-5, 0, 2, 20);
    assert_eq!(a.union(b), b.union(a));
}

#[test]
fn rect_union_contained_rect_is_absorbed() {
    let outer = Rect::new(0, 0, 100, 100);
    let inner = Rect::new(10, 10, 5, 5);
    assert_eq!(outer.union(inner), outer);
    assert_eq!(inner.union(outer), outer);
}

// ── Damage::union laws ──────────────────────────────────────────────────

fn sample_paint() -> Damage {
    Damage::Paint(Rect::new(10, 10, 5, 5))
}

#[test]
fn damage_none_is_identity() {
    for x in [Damage::Clean, sample_paint(), Damage::Layout] {
        assert_eq!(Damage::Clean.union(x), x);
        assert_eq!(x.union(Damage::Clean), x);
    }
}

#[test]
fn damage_union_is_commutative() {
    let variants = [Damage::Clean, sample_paint(), Damage::Layout];
    for a in variants {
        for b in variants {
            assert_eq!(a.union(b), b.union(a));
        }
    }
}

#[test]
fn damage_paint_union_paint_is_rect_union() {
    let a = Rect::new(0, 0, 10, 10);
    let b = Rect::new(20, 20, 5, 5);
    assert_eq!(
        Damage::Paint(a).union(Damage::Paint(b)),
        Damage::Paint(a.union(b)),
    );
    assert_eq!(a.union(b), Rect::new(0, 0, 25, 25));
}

#[test]
fn damage_layout_dominates() {
    for x in [Damage::Clean, sample_paint(), Damage::Layout] {
        assert_eq!(Damage::Layout.union(x), Damage::Layout);
        assert_eq!(x.union(Damage::Layout), Damage::Layout);
    }
}

#[test]
fn damage_zero_area_collapses_to_none() {
    assert_eq!(Damage::paint(Rect::zero()), Damage::Clean);
    assert_eq!(Damage::paint(Rect::new(5, 5, 0, 10)), Damage::Clean);
    // Empty Paint unioned with a real paint contributes nothing.
    let p = sample_paint();
    assert_eq!(Damage::Paint(Rect::zero()).union(p), p);
}

#[test]
fn damage_union_is_idempotent() {
    for x in [Damage::Clean, sample_paint(), Damage::Layout] {
        assert_eq!(x.union(x), x);
    }
}

#[test]
fn damage_bitor_matches_union() {
    let a = sample_paint();
    let b = Damage::Paint(Rect::new(50, 50, 2, 2));
    assert_eq!(a | b, a.union(b));
    let mut acc = Damage::Clean;
    acc |= a;
    acc |= b;
    assert_eq!(acc, a.union(b));
}

#[derive(Debug, Clone, Copy, PartialEq)]
struct Color {
    r: f32,
    g: f32,
    b: f32,
    a: f32,
}

impl Color {
    const BLACK: Color = Color { r: 0.0, g: 0.0, b: 0.0, a: 1.0 };
    const WHITE: Color = Color { r: 1.0, g: 1.0, b: 1.0, a: 1.0 };
}

#[derive(Debug, Clone, Copy, PartialEq)]
struct FakeStyle(f32);

#[derive(Debug, Clone, Copy, PartialEq)]
struct Fill(f32);

struct TestWidget {
    rect: Rect,
    color: Color,
    layout: FakeStyle,
    fill: Fill,
}

// Paint-class: a colour swap repaints the widget's own box, never moves it.
impl OnChange<Color> for TestWidget {
    fn damage(&self, _new: &Color) -> Damage {
        Damage::paint(self.rect)
    }
    fn change(&mut self, new: Color) {
        self.color = new;
    }
}

// Layout-class: a style change may move geometry, so it dominates.
impl OnChange<FakeStyle> for TestWidget {
    fn damage(&self, _new: &FakeStyle) -> Damage {
        Damage::Layout
    }
    fn change(&mut self, new: FakeStyle) {
        self.layout = new;
    }
}

// Paint-class, but uses old-and-new: damage only the horizontal strip
// between the old fill and the new fill within the widget's rect.
impl OnChange<Fill> for TestWidget {
    fn damage(&self, new: &Fill) -> Damage {
        let old_w = self.rect.width() as f32 * self.fill.0;
        let new_w = self.rect.width() as f32 * new.0;
        let lo = old_w.min(new_w);
        let hi = old_w.max(new_w);
        Damage::paint(Rect::new(
            (self.rect.x() as f32 + lo) as i32,
            self.rect.y(),
            (hi - lo) as i32,
            self.rect.height() as i32,
        ))
    }
    fn change(&mut self, new: Fill) {
        self.fill = new;
    }
}

fn widget() -> TestWidget {
    TestWidget {
        rect: Rect::new(100, 200, 40, 10),
        color: Color::BLACK,
        layout: FakeStyle(1.0),
        fill: Fill(0.5),
    }
}

#[test]
fn color_change_is_paint_of_own_rect_and_mutates() {
    let mut w = widget();
    let new = Color::WHITE;
    assert_eq!(w.damage(&new), Damage::Paint(w.rect));
    w.change(new);
    assert_eq!(w.color, Color::WHITE);
}

#[test]
fn style_change_is_layout_and_mutates() {
    let mut w = widget();
    let new = FakeStyle(2.0);
    assert_eq!(w.damage(&new), Damage::Layout);
    w.change(new);
    assert_eq!(w.layout, FakeStyle(2.0));
}

#[test]
fn fill_change_damages_only_the_strip_between_and_mutates() {
    let mut w = widget(); // rect x=100 w=40, fill 0.5 -> old_w = 20
    let new = Fill(0.75); // new_w = 30 -> strip x=120 width=10
    assert_eq!(
        w.damage(&new),
        Damage::Paint(Rect::new(120, 200, 10, 10)),
    );
    w.change(new);
    assert_eq!(w.fill, Fill(0.75));
}

#[test]
fn fill_no_op_change_is_none() {
    let w = widget(); // fill 0.5
    // Same value: strip is zero-width, so `Damage::paint` collapses to Clean.
    assert_eq!(w.damage(&Fill(0.5)), Damage::Clean);
}

// ── Further cases ───────────────────────────────────────────────────────

#[test]
fn rect_accessors_report_origin_and_size() {
    let r = Rect::new(-3, 7, 11, 13);
    assert_eq!((r.x(), r.y(), r.width(), r.height()), (-3, 7, 11, 13));
    assert!(!r.is_empty());
    assert!(Rect::new(1, 1, -4, 3).is_empty());
    assert!(Rect::zero().is_empty());
}

#[test]
fn rect_union_spans_beyond_i32_widths() {
    let a = Rect::new(i32::MIN, 0, 1, 1);
    let b = Rect::new(i32::MAX - 1, 0, i32::MAX, 1);
    let u = a.union(b);
    assert_eq!(u.x(), i32::MIN);
    assert_eq!(u.width(), (i32::MAX as i64 - 1 + i32::MAX as i64) - i32::MIN as i64);
}

#[test]
fn rect_union_is_associative_on_samples() {
    let a = Rect::new(0, 0, 3, 3);
    let b = Rect::new(10, -4, 2, 2);
    let c = Rect::new(-7, 5, 1, 9);
    assert_eq!(a.union(b).union(c), a.union(b.union(c)));
    assert_eq!(a.union(b).union(c), Rect::new(-7, -4, 19, 18));
}

#[test]
fn damage_union_is_associative_on_samples() {
    let p = sample_paint();
    let q = Damage::Paint(Rect::new(0, 0, 1, 1));
    for a in [Damage::Clean, p, q, Damage::Layout] {
        for b in [Damage::Clean, p, q, Damage::Layout] {
            for c in [Damage::Clean, p, q, Damage::Layout] {
                assert_eq!(a.union(b).union(c), a.union(b.union(c)));
            }
        }
    }
}

#[test]
fn damage_default_is_clean_and_is_layout_only_for_layout() {
    assert_eq!(Damage::default(), Damage::Clean);
    assert!(Damage::Layout.is_layout());
    assert!(!sample_paint().is_layout());
    assert!(!Damage::Clean.is_layout());
}

#[test]
fn pending_damage_accumulates_until_drained() {
    let mut state = WidgetState::new();
    let mut w = widget();
    assert_eq!(set_value(&mut w, &mut state, Color::WHITE), Damage::Paint(Rect::new(100, 200, 40, 10)));
    assert_eq!(w.color, Color::WHITE);
    set_value(&mut w, &mut state, Fill(0.75));
    let (d, relayout) = state.drain();
    assert_eq!(d, Damage::Paint(Rect::new(100, 200, 40, 10)));
    assert!(!relayout);
    assert_eq!(state.drain(), (Damage::Clean, false));

    set_value(&mut w, &mut state, FakeStyle(3.0));
    set_value(&mut w, &mut state, Color::BLACK);
    assert_eq!(state.drain(), (Damage::Layout, true));
    assert_eq!(w.layout, FakeStyle(3.0));
}

#[test]
fn new_widget_state_is_unplaced_and_clean() {
    let s = WidgetState::new();
    assert_eq!(s.node_id, u64::MAX);
    assert!(s.bounds.is_empty());
    assert!(s.is_opaque);
    assert_eq!(s.pending_damage, Damage::Clean);
}
