use vstd::prelude::*;

use crate::damage::Damage;
use crate::widget::OnChange;

verus! {

/// How many tints the damage overlay cycles through.
pub const PALETTE_LEN: usize = 6;

/// The frame counter after one more frame: it wraps around at `usize::MAX`.
pub open spec fn next_frame(frame: usize) -> usize {
    if frame == usize::MAX {
        0
    } else {
        (frame + 1) as usize
    }
}

/// The palette entry used for a frame.
pub open spec fn tint_of(frame: usize) -> int {
    frame as int % PALETTE_LEN as int
}

/// Wraps a widget list and, on every render, paints a translucent full-screen
/// tint over it whose colour changes from one frame to the next, so that the
/// frames actually redrawn are visible.
pub struct DebugDamage<Inner> {
    inner: Inner,
    frame: usize,
}

impl<Inner> DebugDamage<Inner> {
    /// The number of frames rendered so far (modulo the word size).
    pub closed spec fn frame(&self) -> usize {
        self.frame
    }

    /// The wrapped widget list.
    pub closed spec fn wrapped(&self) -> Inner {
        self.inner
    }

    pub fn new(inner: Inner) -> (d: Self)
        ensures
            d.wrapped() == inner,
            d.frame() == 0,
    {
        Self { inner, frame: 0 }
    }

    pub fn inner(&self) -> (r: &Inner)
        ensures
            *r == self.wrapped(),
    {
        &self.inner
    }

    pub fn inner_mut(&mut self) -> (r: &mut Inner)
        ensures
            *r == old(self).wrapped(),
            final(self).wrapped() == *final(r),
            final(self).frame() == old(self).frame(),
    {
        &mut self.inner
    }

    /// Starts a frame: answers the palette entry for the tint of this frame
    /// and advances the frame counter.
    pub fn next_tint(&mut self) -> (i: usize)
        ensures
            i == tint_of(old(self).frame()),
            i < PALETTE_LEN,
            final(self).frame() == next_frame(old(self).frame()),
            final(self).wrapped() == old(self).wrapped(),
    {
        let i = self.frame % PALETTE_LEN;
        self.frame = self.frame.wrapping_add(1);
        i
    }
}

impl<Inner, U> OnChange<U> for DebugDamage<Inner> where Inner: OnChange<U> {
    /// The wrapped list's damage for `new`.
    fn damage(&self, new: &U) -> (d: Damage)
        ensures
            call_ensures(Inner::damage, (&self.wrapped(), new), d),
    {
        self.inner.damage(new)
    }

    /// Applies `new` to the wrapped list, as the list's own `change` does;
    /// the frame counter is untouched.
    fn change(&mut self, new: U)
        ensures
            exists|m: &mut Inner|
                mut_ref_current(m) == old(self).wrapped() && mut_ref_future(m) == final(self).wrapped()
                    && #[trigger] call_ensures(Inner::change, (m, new), ()),
            final(self).frame() == old(self).frame(),
    {
        self.inner.change(new);
    }
}

/// Two successive frames never get the same tint, also where the frame
/// counter wraps around.
pub proof fn lemma_successive_tints_differ(frame: usize)
    ensures
        tint_of(next_frame(frame)) != tint_of(frame),
{
    if frame == usize::MAX {
        assert(usize::MAX == 0xffff_ffff || usize::MAX == 0xffff_ffff_ffff_ffff);
        assert(0xffff_ffffint % 6 == 3);
        assert(0xffff_ffff_ffff_ffffint % 6 == 3);
    }
}

/// The frame counter after `k` more frames.
pub open spec fn frame_after(frame: usize, k: nat) -> usize
    decreases k,
{
    if k == 0 {
        frame
    } else {
        next_frame(frame_after(frame, (k - 1) as nat))
    }
}

/// From a new overlay, the `k`-th frame (counting from 0) gets tint
/// `k % PALETTE_LEN`: tints start at the first palette entry and cycle with
/// period `PALETTE_LEN`, as long as the frame counter has not wrapped.
pub proof fn lemma_tints_cycle(k: nat)
    requires
        k <= usize::MAX,
    ensures
        frame_after(0, k) == k,
        tint_of(frame_after(0, k)) == (k as int) % (PALETTE_LEN as int),
    decreases k,
{
    if k > 0 {
        lemma_tints_cycle((k - 1) as nat);
    }
}

} // verus!
