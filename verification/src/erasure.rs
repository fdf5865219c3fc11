//! The erasure resolver: of all erase markers pressed in one frame,
//! exactly one wins — the one with the numerically greatest depth
//! tiebreak, ties going to the first marker encountered.

use vstd::prelude::*;

verus! {

/// An erase marker: the clickable hit-target paired with one placed
/// item, carrying the item's identity and its depth tiebreak.
#[derive(Clone, Copy, Debug, PartialEq, Eq, Structural)]
pub struct Marker {
    pub item: u64,
    pub depth: i64,
}

/// The winning marker of a non-empty candidate run: greatest depth,
/// earliest on a tie.
pub open spec fn spec_first_max(cands: Seq<Marker>) -> Marker
    recommends
        cands.len() > 0,
    decreases cands.len(),
{
    if cands.len() <= 1 {
        cands[0]
    } else {
        let m = spec_first_max(cands.drop_last());
        if cands.last().depth > m.depth {
            cands.last()
        } else {
            m
        }
    }
}

/// The marker the resolver removes, if any: none when nothing was
/// pressed, otherwise the topmost pressed marker.
pub open spec fn spec_topmost(cands: Seq<Marker>) -> Option<Marker> {
    if cands.len() == 0 {
        None
    } else {
        Some(spec_first_max(cands))
    }
}

/// Selects the index of the topmost pressed marker: the first index
/// whose depth no other marker exceeds.
pub fn resolve_topmost(pressed: &Vec<Marker>) -> (r: Option<usize>)
    ensures
        r is None <==> pressed@.len() == 0,
        r matches Some(i) ==> {
            &&& 0 <= i < pressed@.len()
            &&& pressed@[i as int] == spec_first_max(pressed@)
            &&& forall|j: int| 0 <= j < pressed@.len() ==> pressed@[j].depth <= pressed@[i as int].depth
            &&& forall|j: int| 0 <= j < i ==> pressed@[j].depth < pressed@[i as int].depth
        },
{
    if pressed.len() == 0 {
        return None;
    }
    let mut best: usize = 0;
    let mut k: usize = 1;
    while k < pressed.len()
        invariant
            1 <= k <= pressed@.len(),
            best < k,
            pressed@[best as int] == spec_first_max(pressed@.take(k as int)),
            forall|j: int| 0 <= j < k ==> pressed@[j].depth <= pressed@[best as int].depth,
            forall|j: int| 0 <= j < best ==> pressed@[j].depth < pressed@[best as int].depth,
        decreases pressed@.len() - k,
    {
        assert(pressed@.take(k as int + 1).drop_last() =~= pressed@.take(k as int));
        if pressed[k].depth > pressed[best].depth {
            best = k;
        }
        k += 1;
    }
    assert(pressed@.take(k as int) =~= pressed@);
    Some(best)
}

} // verus!
