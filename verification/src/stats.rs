//! What the viewer's panels show of a model: the totals of its geometry,
//! and which geosets are shown.
use crate::model::{Model, Sequence, SpecGeoset};
use vstd::prelude::*;

verus! {

/// The numbers of vertices, faces and texture coordinates of the first `n`
/// geosets.
pub open spec fn geometry_totals(gs: Seq<SpecGeoset>, n: int) -> (int, int, int)
    decreases n,
{
    if n <= 0 {
        (0, 0, 0)
    } else {
        let t = geometry_totals(gs, n - 1);
        let g = gs[n - 1];
        (t.0 + g.vertices.len(), t.1 + g.faces.len(), t.2 + g.tex_coords.len())
    }
}

proof fn lemma_totals_monotone(gs: Seq<SpecGeoset>, i: int, n: int)
    requires
        0 <= i <= n <= gs.len(),
    ensures
        0 <= geometry_totals(gs, i).0 <= geometry_totals(gs, n).0,
        0 <= geometry_totals(gs, i).1 <= geometry_totals(gs, n).1,
        0 <= geometry_totals(gs, i).2 <= geometry_totals(gs, n).2,
    decreases n - i,
{
    if i < n {
        lemma_totals_monotone(gs, i, n - 1);
    } else {
        lemma_totals_nonnegative(gs, i);
    }
}

proof fn lemma_totals_nonnegative(gs: Seq<SpecGeoset>, n: int)
    ensures
        geometry_totals(gs, n).0 >= 0,
        geometry_totals(gs, n).1 >= 0,
        geometry_totals(gs, n).2 >= 0,
    decreases n,
{
    if n > 0 {
        lemma_totals_nonnegative(gs, n - 1);
    }
}

proof fn lemma_totals_prefix(gs: Seq<SpecGeoset>, hs: Seq<SpecGeoset>, n: int)
    requires
        0 <= n <= gs.len(),
        n <= hs.len(),
        forall|i: int| 0 <= i < n ==> #[trigger] gs[i] == hs[i],
    ensures
        geometry_totals(gs, n) == geometry_totals(hs, n),
    decreases n,
{
    if n > 0 {
        lemma_totals_prefix(gs, hs, n - 1);
    }
}

/// The totals add up geoset by geoset: a model without geosets has none,
/// and adding a geoset adds its numbers of vertices, faces and texture
/// coordinates to those of the geosets before it.
pub proof fn law_totals_add_up(gs: Seq<SpecGeoset>, g: SpecGeoset)
    ensures
        geometry_totals(Seq::<SpecGeoset>::empty(), 0) == (0int, 0int, 0int),
        ({
            let t = geometry_totals(gs, gs.len() as int);
            geometry_totals(gs.push(g), gs.len() + 1int) == (
                t.0 + g.vertices.len(),
                t.1 + g.faces.len(),
                t.2 + g.tex_coords.len(),
            )
        }),
{
    lemma_totals_prefix(gs.push(g), gs, gs.len() as int);
    assert(gs.push(g)[gs.len() as int] == g);
}

/// The numbers of vertices, faces and texture coordinates of all geosets of
/// a model; `None` when one of them does not fit in a `usize`.
pub fn model_totals(model: &Model) -> (r: Option<(usize, usize, usize)>)
    ensures
        ({
            let t = geometry_totals(model@.geosets, model@.geosets.len() as int);
            match r {
                Some((v, f, c)) => v == t.0 && f == t.1 && c == t.2,
                None => t.0 > usize::MAX || t.1 > usize::MAX || t.2 > usize::MAX,
            }
        }),
{
    let ghost gs = model@.geosets;
    let n = model.geosets.len();
    let mut v: usize = 0;
    let mut f: usize = 0;
    let mut c: usize = 0;
    let mut i: usize = 0;
    while i < n
        invariant
            gs == model@.geosets,
            n == gs.len(),
            i <= n,
            geometry_totals(gs, i as int) == (v as int, f as int, c as int),
        decreases n - i,
    {
        let g = &model.geosets[i];
        assert(gs[i as int] == g@);
        let nv = g.vertices.len();
        let nf = g.faces.len();
        let nc = g.tex_coords.len();
        if nv > usize::MAX - v || nf > usize::MAX - f || nc > usize::MAX - c {
            proof {
                lemma_totals_monotone(gs, i + 1, n as int);
            }
            return None;
        }
        v = v + nv;
        f = f + nf;
        c = c + nc;
        i = i + 1;
    }
    Some((v, f, c))
}

/// Gives every one of `count` geosets a visibility, shown for those that had
/// none; the visibility already chosen for a geoset is kept.
pub fn cover_geosets(show: &mut Vec<bool>, count: usize)
    ensures
        final(show)@.len() == if old(show)@.len() >= count {
            old(show)@.len() as int
        } else {
            count as int
        },
        forall|k: int| 0 <= k < old(show)@.len() ==> #[trigger] final(show)@[k] == old(show)@[k],
        forall|k: int| old(show)@.len() <= k < final(show)@.len() ==> #[trigger] final(show)@[k],
{
    let ghost start = show@;
    while show.len() < count
        invariant
            start == old(show)@,
            start.len() <= show@.len(),
            show@.len() <= if start.len() >= count {
                start.len() as int
            } else {
                count as int
            },
            forall|k: int| 0 <= k < start.len() ==> #[trigger] show@[k] == start[k],
            forall|k: int| start.len() <= k < show@.len() ==> #[trigger] show@[k],
        decreases count - show@.len(),
    {
        show.push(true);
    }
}

/// The number of frames a sequence lasts, from its first frame to its last;
/// the sequence must not end before it starts.
pub fn sequence_duration(seq: &Sequence) -> (r: u32)
    requires
        seq.start_frame <= seq.end_frame,
    ensures
        r == seq.end_frame - seq.start_frame,
{
    seq.end_frame - seq.start_frame
}

} // verus!
