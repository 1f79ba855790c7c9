//! The highlight sweep: during one forward render pass a single index into
//! the ascending match list only ever advances, and decides for each cell
//! whether it lies inside the match under that index.

use vstd::prelude::*;

verus! {

/// The index the forward sweep rests on at cell `c`, starting its advance
/// from entry `i`: the first entry whose match span has not ended before
/// `c`, or the list length when every span has.
pub open spec fn spec_sweep_idx_from(hl: Seq<usize>, hl_len: int, c: int, i: int) -> int
    decreases hl.len() - i,
        when 0 <= i <= hl.len()
{
    if i >= hl.len() {
        i
    } else if hl[i] + hl_len >= c {
        i
    } else {
        spec_sweep_idx_from(hl, hl_len, c, i + 1)
    }
}

/// The sweep index over the whole list.
pub open spec fn spec_sweep_idx(hl: Seq<usize>, hl_len: int, c: int) -> int {
    spec_sweep_idx_from(hl, hl_len, c, 0)
}

/// Whether the render pass paints byte `c` highlighted: the entry the sweep
/// rests on at `c` must cover `c`.
pub open spec fn spec_highlighted(hl: Seq<usize>, hl_len: int, c: int) -> bool {
    let i = spec_sweep_idx(hl, hl_len, c);
    i < hl.len() && hl[i] <= c && c < hl[i] + hl_len
}

/// The sweep index lands on the first entry at or after `i` whose span has
/// not ended, and every entry it skipped has ended.
pub proof fn lemma_sweep_idx_from_bounds(hl: Seq<usize>, hl_len: int, c: int, i: int)
    requires
        0 <= i <= hl.len(),
    ensures
        i <= spec_sweep_idx_from(hl, hl_len, c, i) <= hl.len(),
        forall|j: int|
            i <= j < spec_sweep_idx_from(hl, hl_len, c, i) ==> #[trigger] hl[j] + hl_len < c,
        spec_sweep_idx_from(hl, hl_len, c, i) < hl.len() ==> hl[spec_sweep_idx_from(
            hl,
            hl_len,
            c,
            i,
        )] + hl_len >= c,
    decreases hl.len() - i,
{
    if i < hl.len() && hl[i] + hl_len < c {
        lemma_sweep_idx_from_bounds(hl, hl_len, c, i + 1);
    }
}

/// Starting the advance after entries whose spans ended before `c` reaches
/// the same index as starting at the beginning.
pub proof fn lemma_sweep_idx_from_skip(hl: Seq<usize>, hl_len: int, c: int, i: int)
    requires
        0 <= i <= hl.len(),
        forall|j: int| 0 <= j < i ==> #[trigger] hl[j] + hl_len < c,
    ensures
        spec_sweep_idx_from(hl, hl_len, c, i) == spec_sweep_idx(hl, hl_len, c),
    decreases i,
{
    if i > 0 {
        lemma_sweep_idx_from_skip(hl, hl_len, c, i - 1);
    }
}

/// A painted cell really lies inside some match span.
pub proof fn lemma_highlight_sound(hl: Seq<usize>, hl_len: int, c: int)
    ensures
        spec_highlighted(hl, hl_len, c) ==> exists|k: int|
            0 <= k < hl.len() && #[trigger] hl[k] <= c && c < hl[k] + hl_len,
{
    if spec_highlighted(hl, hl_len, c) {
        lemma_sweep_idx_from_bounds(hl, hl_len, c, 0);
        let i = spec_sweep_idx(hl, hl_len, c);
        assert(0 <= i < hl.len() && hl[i] <= c && c < hl[i] + hl_len);
    }
}

/// When consecutive spans are separated by at least one byte, the sweep
/// also paints every covered cell, so the test is exactly coverage.
pub proof fn lemma_highlight_complete(hl: Seq<usize>, hl_len: int, c: int)
    requires
        0 <= hl_len,
        forall|k: int| 0 <= k + 1 < hl.len() ==> #[trigger] hl[k] + hl_len < hl[k + 1],
    ensures
        spec_highlighted(hl, hl_len, c) <==> exists|k: int|
            0 <= k < hl.len() && #[trigger] hl[k] <= c && c < hl[k] + hl_len,
{
    lemma_highlight_sound(hl, hl_len, c);
    if exists|k: int| 0 <= k < hl.len() && #[trigger] hl[k] <= c && c < hl[k] + hl_len {
        let k = choose|k: int| 0 <= k < hl.len() && #[trigger] hl[k] <= c && c < hl[k] + hl_len;
        lemma_sweep_idx_from_bounds(hl, hl_len, c, 0);
        let i = spec_sweep_idx(hl, hl_len, c);
        // The sweep cannot pass `k`, whose span has not ended.
        assert(i <= k);
        if i < k {
            // Entries are ascending with gaps, so an earlier entry's span
            // ends before `hl[k]`, hence before `c`; but the sweep stopped
            // on an entry whose span has not ended.
            lemma_gap_chain(hl, hl_len, i, k);
            assert(hl[i] + hl_len < hl[k]);
            assert(false);
        }
    }
}

/// With separated spans, any earlier entry's span ends before a later
/// entry begins.
proof fn lemma_gap_chain(hl: Seq<usize>, hl_len: int, i: int, k: int)
    requires
        0 <= hl_len,
        0 <= i < k < hl.len(),
        forall|j: int| 0 <= j + 1 < hl.len() ==> #[trigger] hl[j] + hl_len < hl[j + 1],
    ensures
        hl[i] + hl_len < hl[k],
    decreases k - i,
{
    if i + 1 == k {
    } else {
        lemma_gap_chain(hl, hl_len, i + 1, k);
        assert(hl[i] + hl_len < hl[i + 1]);
    }
}

/// Advance the sweep index for cell `byte_idx`: skip every entry whose
/// span ended before the cell. Callers hand back the index they got for
/// the previous cell, so the index only ever moves forward.
pub fn advance_sweep(hl: &Vec<usize>, hl_len: usize, hl_idx: usize, byte_idx: usize) -> (r: usize)
    requires
        hl_idx <= hl@.len(),
        forall|j: int| 0 <= j < hl_idx ==> #[trigger] hl@[j] + hl_len < byte_idx,
        forall|j: int| 0 <= j < hl@.len() ==> #[trigger] hl@[j] + hl_len <= usize::MAX,
    ensures
        r == spec_sweep_idx(hl@, hl_len as int, byte_idx as int),
        r <= hl@.len(),
{
    let mut i = hl_idx;
    while i < hl.len() && hl[i] + hl_len < byte_idx
        invariant
            hl_idx <= i <= hl@.len(),
            forall|j: int| 0 <= j < i ==> #[trigger] hl@[j] + hl_len < byte_idx,
            forall|j: int| 0 <= j < hl@.len() ==> #[trigger] hl@[j] + hl_len <= usize::MAX,
        decreases hl@.len() - i,
    {
        i = i + 1;
    }
    proof {
        lemma_sweep_idx_from_skip(hl@, hl_len as int, byte_idx as int, i as int);
    }
    i
}

/// Whether the cell at `byte_idx` is painted highlighted, given the sweep
/// index already advanced for it.
pub fn sweep_hit(hl: &Vec<usize>, hl_len: usize, sweep: usize, byte_idx: usize) -> (r: bool)
    requires
        sweep == spec_sweep_idx(hl@, hl_len as int, byte_idx as int),
        forall|j: int| 0 <= j < hl@.len() ==> #[trigger] hl@[j] + hl_len <= usize::MAX,
    ensures
        r == spec_highlighted(hl@, hl_len as int, byte_idx as int),
{
    proof {
        lemma_sweep_idx_from_bounds(hl@, hl_len as int, byte_idx as int, 0);
    }
    sweep < hl.len() && hl[sweep] <= byte_idx && byte_idx < hl[sweep] + hl_len
}

} // verus!
