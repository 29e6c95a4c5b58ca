use vstd::prelude::*;

verus! {

/// `runs` cuts `0..ids.len()` into consecutive, non-empty, maximal ranges of
/// equal texture ids: every range holds one id, and neighbouring ranges hold
/// different ids.
pub open spec fn is_texture_run_split(ids: Seq<Option<u32>>, runs: Seq<(usize, usize)>) -> bool {
    &&& (runs.len() == 0 <==> ids.len() == 0)
    &&& runs.len() > 0 ==> runs[0].0 == 0 && runs.last().1 == ids.len()
    &&& forall|k: int| 0 <= k < runs.len() ==> (#[trigger] runs[k]).0 < runs[k].1 <= ids.len()
    &&& forall|k: int| 0 <= k < runs.len() - 1 ==> (#[trigger] runs[k]).1 == runs[k + 1].0
    &&& forall|k: int, j: int| 0 <= k < runs.len() && (#[trigger] runs[k]).0 <= j < runs[k].1
        ==> #[trigger] ids[j] == ids[runs[k].0 as int]
    &&& forall|k: int| 0 <= k < runs.len() - 1 ==> ids[(#[trigger] runs[k]).1 as int] != ids[runs[k].0 as int]
}

fn same_texture(a: Option<u32>, b: Option<u32>) -> (r: bool)
    ensures
        r == (a == b),
{
    match (a, b) {
        (Some(x), Some(y)) => x == y,
        (None, None) => true,
        _ => false,
    }
}

/// Splits a list of sprites, already sorted so that sprites of one atlas
/// texture sit together, into the runs drawn with one texture binding each:
/// answers `(start, end)` index ranges (see [`is_texture_run_split`]).
pub fn texture_runs(ids: &Vec<Option<u32>>) -> (runs: Vec<(usize, usize)>)
    ensures
        is_texture_run_split(ids@, runs@),
{
    let n = ids.len();
    let mut runs: Vec<(usize, usize)> = Vec::new();
    let mut i: usize = 0;
    while i < n
        invariant
            n == ids.len(),
            i <= n,
            runs.len() == 0 <==> i == 0,
            runs.len() > 0 ==> runs[0].0 == 0 && runs@.last().1 == i,
            forall|k: int| 0 <= k < runs.len() ==> (#[trigger] runs[k]).0 < runs[k].1 <= n,
            forall|k: int| 0 <= k < runs.len() - 1 ==> (#[trigger] runs[k]).1 == runs[k + 1].0,
            forall|k: int, j: int| 0 <= k < runs.len() && (#[trigger] runs[k]).0 <= j < runs[k].1
                ==> #[trigger] ids[j] == ids[runs[k].0 as int],
            forall|k: int| 0 <= k < runs.len() - 1 ==> ids[(#[trigger] runs[k]).1 as int] != ids[runs[k].0 as int],
            runs.len() > 0 && i < n ==> ids[i as int] != ids[runs@.last().0 as int],
        decreases n - i,
    {
        let t = ids[i];
        let mut end = i + 1;
        while end < n && same_texture(ids[end], t)
            invariant
                n == ids.len(),
                i < end <= n,
                t == ids[i as int],
                forall|j: int| i <= j < end ==> #[trigger] ids[j] == t,
            decreases n - end,
        {
            end = end + 1;
        }
        let ghost old_runs = runs@;
        runs.push((i, end));
        proof {
            assert forall|k: int| 0 <= k < runs.len() - 1 implies ids[(#[trigger] runs[k]).1 as int] != ids[runs[k].0 as int] by {
                if k < old_runs.len() - 1 {
                    assert(runs[k] == old_runs[k]);
                } else {
                    assert(runs[k] == old_runs.last());
                }
            }
            assert forall|k: int, j: int| 0 <= k < runs.len() && (#[trigger] runs[k]).0 <= j < runs[k].1
                implies #[trigger] ids[j] == ids[runs[k].0 as int] by {
                if k < old_runs.len() {
                    assert(runs[k] == old_runs[k]);
                }
            }
        }
        i = end;
    }
    runs
}

/// The first texture id present in `ids`, if any.
pub open spec fn first_texture_of(ids: Seq<Option<u32>>) -> Option<u32>
    decreases ids.len(),
{
    if ids.len() == 0 {
        None
    } else if ids[0] is Some {
        ids[0]
    } else {
        first_texture_of(ids.drop_first())
    }
}

/// The atlas texture bound for a translucent pass: the texture of the first
/// textured primitive in draw order (untextured primitives ignore it).
pub fn first_texture(ids: &Vec<Option<u32>>) -> (r: Option<u32>)
    ensures
        r == first_texture_of(ids@),
        r is None <==> forall|j: int| 0 <= j < ids.len() ==> (#[trigger] ids[j]) is None,
        r matches Some(t) ==> exists|j: int| 0 <= j < ids.len() && ids[j] == Some(t)
            && forall|k: int| 0 <= k < j ==> (#[trigger] ids[k]) is None,
{
    let mut i: usize = 0;
    assert(ids@.skip(0) =~= ids@);
    while i < ids.len()
        invariant
            i <= ids.len(),
            forall|k: int| 0 <= k < i ==> (#[trigger] ids[k]) is None,
            first_texture_of(ids@) == first_texture_of(ids@.skip(i as int)),
        decreases ids.len() - i,
    {
        assert(ids@.skip(i as int).drop_first() =~= ids@.skip(i + 1));
        if let Some(t) = ids[i] {
            assert(ids@.skip(i as int)[0] == ids@[i as int]);
            return Some(t);
        }
        i = i + 1;
    }
    assert(ids@.skip(i as int) =~= Seq::<Option<u32>>::empty());
    None
}

/// Translucent primitives in submission order, each stamped with its
/// submission index within the current frame; ties in depth are drawn in
/// that order.
pub struct SubmissionQueue<T> {
    items: Vec<(u32, T)>,
    next_seq: u32,
}

impl<T> View for SubmissionQueue<T> {
    type V = Seq<(u32, T)>;

    closed spec fn view(&self) -> Seq<(u32, T)> {
        self.items@
    }
}

/// Every entry carries its position as its stamp.
pub open spec fn stamped_by_position<T>(s: Seq<(u32, T)>) -> bool {
    forall|i: int| 0 <= i < s.len() ==> (#[trigger] s[i]).0 == i
}

impl<T> SubmissionQueue<T> {
    /// The next stamp is the number of entries, and each entry's stamp is its
    /// position.
    #[verifier::type_invariant]
    spec fn stamps_follow_order(self) -> bool {
        &&& self.next_seq == self.items.len()
        &&& stamped_by_position(self.items@)
    }

    pub fn new() -> (q: Self)
        ensures
            q@ == Seq::<(u32, T)>::empty(),
    {
        SubmissionQueue { items: Vec::new(), next_seq: 0 }
    }

    pub fn len(&self) -> (n: usize)
        ensures
            n == self@.len(),
    {
        self.items.len()
    }

    /// Appends `item`, stamped with the next submission index.
    pub fn push(&mut self, item: T)
        requires
            old(self)@.len() < u32::MAX,
        ensures
            final(self)@ == old(self)@.push((old(self)@.len() as u32, item)),
            stamped_by_position(final(self)@),
    {
        let mut taken = SubmissionQueue::new();
        std::mem::swap(self, &mut taken);
        proof {
            use_type_invariant(&taken);
        }
        let SubmissionQueue { mut items, next_seq } = taken;
        items.push((next_seq, item));
        *self = SubmissionQueue { items, next_seq: next_seq + 1 };
    }

    /// Takes the frame's primitives, stamped `0, 1, ...` in submission order,
    /// and starts the next frame's numbering from 0.
    pub fn take_all(&mut self) -> (r: Vec<(u32, T)>)
        ensures
            r@ == old(self)@,
            stamped_by_position(r@),
            final(self)@ == Seq::<(u32, T)>::empty(),
    {
        let mut taken = SubmissionQueue::new();
        std::mem::swap(self, &mut taken);
        proof {
            use_type_invariant(&taken);
        }
        taken.items
    }
}

/// Printable ASCII, space to tilde, is what the baked fonts carry.
pub open spec fn glyph_slot(c: char) -> Option<usize> {
    if 32 <= c as int <= 126 {
        Some((c as int - 32) as usize)
    } else {
        None
    }
}

/// The index of a character's glyph in a baked font's glyph table; other
/// characters have no glyph and are skipped when text is drawn.
pub fn glyph_index(c: char) -> (r: Option<usize>)
    ensures
        r == glyph_slot(c),
        r matches Some(i) ==> i < 95,
{
    let code = c as u32;
    if code < 32 || code > 126 {
        None
    } else {
        Some((code - 32) as usize)
    }
}

/// A character has a glyph exactly when its code point is printable ASCII,
/// space (32) to tilde (126), and then its slot is its code point minus 32;
/// every character past tilde, however its low byte looks, has none.
pub proof fn lemma_glyph_slots_are_printable_ascii(c: char)
    ensures
        glyph_slot(c) is Some <==> 32 <= (c as u32) <= 126,
        glyph_slot(c) matches Some(i) ==> i == (c as u32) - 32,
        (c as u32) > 126 ==> glyph_slot(c) is None,
        (c as u32) < 32 ==> glyph_slot(c) is None,
{
}

} // verus!
