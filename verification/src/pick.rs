//! The nearest-hit search over the blocks that a ray was tested against.

use vstd::prelude::*;
use crate::crossing::Crossing;
use crate::entity::EntityId;
use crate::scalar::Scalar;

verus! {

/// One block as the pick ray sees it.
#[derive(Clone, Copy, Debug)]
pub struct Candidate {
    pub entity: EntityId,
    pub crossing: Crossing,
}

/// Among the first `n` candidates, the one at `i` is the pick: it can be
/// picked, it is entered strictly before every earlier candidate that can
/// be picked, and no later than every later one. Of candidates entered at
/// the same distance the first in the sequence is therefore the pick.
pub open spec fn is_nearest_within(candidates: Seq<Candidate>, n: int, i: int) -> bool {
    &&& 0 <= i < n <= candidates.len()
    &&& candidates[i].crossing.spec_selectable()
    &&& forall|j: int|
        0 <= j < i && (#[trigger] candidates[j]).crossing.spec_selectable()
            ==> candidates[i].crossing.spec_entry().spec_lt(candidates[j].crossing.spec_entry())
    &&& forall|j: int|
        i < j < n && (#[trigger] candidates[j]).crossing.spec_selectable()
            ==> candidates[i].crossing.spec_entry().spec_le(candidates[j].crossing.spec_entry())
}

/// None of the first `n` candidates can be picked.
pub open spec fn none_selectable_within(candidates: Seq<Candidate>, n: int) -> bool {
    forall|j: int| 0 <= j < n ==> !(#[trigger] candidates[j]).crossing.spec_selectable()
}

/// The candidate at `i` is the pick among all of them.
pub open spec fn is_nearest(candidates: Seq<Candidate>, i: int) -> bool {
    is_nearest_within(candidates, candidates.len() as int, i)
}

/// The index of the pick, if any candidate can be picked.
pub open spec fn nearest(candidates: Seq<Candidate>) -> Option<int> {
    if exists|i: int| is_nearest(candidates, i) {
        Some(choose|i: int| is_nearest(candidates, i))
    } else {
        None
    }
}

/// The entity of the pick, if any candidate can be picked.
pub open spec fn picked(candidates: Seq<Candidate>) -> Option<EntityId> {
    match nearest(candidates) {
        Some(i) => Some(candidates[i].entity),
        None => None,
    }
}

/// At most one index is the pick.
pub proof fn lemma_nearest_is_unique(candidates: Seq<Candidate>, i: int, k: int)
    requires
        is_nearest(candidates, i),
        is_nearest(candidates, k),
    ensures
        i == k,
{
    if i < k {
        assert(candidates[k].crossing.spec_entry().spec_lt(candidates[i].crossing.spec_entry()));
    } else if k < i {
        assert(candidates[i].crossing.spec_entry().spec_lt(candidates[k].crossing.spec_entry()));
    }
}

/// Where no candidate can be picked there is no pick, and where one can
/// be, there is.
pub proof fn lemma_nearest_exists(candidates: Seq<Candidate>)
    ensures
        nearest(candidates) is None <==> none_selectable_within(
            candidates,
            candidates.len() as int,
        ),
        nearest(candidates) matches Some(i) ==> is_nearest(candidates, i),
{
    let n = candidates.len() as int;
    if none_selectable_within(candidates, n) {
        assert forall|i: int| !is_nearest(candidates, i) by {
            if 0 <= i < n {
                assert(!candidates[i].crossing.spec_selectable());
            }
        }
    } else {
        let i = lemma_pick_within(candidates, n);
        assert(is_nearest(candidates, i));
    }
}

/// Among the first `n` candidates, if one can be picked, one is the pick.
proof fn lemma_pick_within(candidates: Seq<Candidate>, n: int) -> (i: int)
    requires
        0 <= n <= candidates.len(),
        !none_selectable_within(candidates, n),
    ensures
        is_nearest_within(candidates, n, i),
    decreases n,
{
    let last = n - 1;
    if none_selectable_within(candidates, last) {
        assert(candidates[last].crossing.spec_selectable());
        last
    } else {
        let earlier = lemma_pick_within(candidates, last);
        if candidates[last].crossing.spec_selectable() && candidates[last].crossing.spec_entry().spec_lt(
            candidates[earlier].crossing.spec_entry(),
        ) {
            last
        } else {
            earlier
        }
    }
}

/// A block that lies wholly behind the ray's origin, its exit being
/// negative, is never the pick.
pub proof fn lemma_behind_is_never_picked(candidates: Seq<Candidate>, i: int)
    requires
        0 <= i < candidates.len(),
        candidates[i].crossing.spec_exit().spec_lt(Scalar::spec_zero()),
    ensures
        nearest(candidates) != Some(i),
{
    lemma_nearest_exists(candidates);
}

/// Of two candidates that can be picked, the later listed is not the pick
/// unless it is entered strictly earlier. Where both are entered at the
/// same distance, the pick is the first listed or a third candidate.
pub proof fn lemma_tie_goes_to_the_first_listed(candidates: Seq<Candidate>, i: int, j: int)
    requires
        0 <= i < j < candidates.len(),
        candidates[i].crossing.spec_selectable(),
        candidates[j].crossing.spec_selectable(),
        candidates[i].crossing.spec_entry().spec_le(candidates[j].crossing.spec_entry()),
    ensures
        nearest(candidates) is Some,
        nearest(candidates) != Some(j),
{
    lemma_nearest_exists(candidates);
}

/// Finds the pick: the candidate that can be picked and is entered first,
/// the earliest in the sequence among those entered at the same distance.
/// Returns its index, or `None` where no candidate can be picked.
pub fn nearest_hit(candidates: &Vec<Candidate>) -> (hit: Option<usize>)
    ensures
        hit matches Some(i) ==> is_nearest(candidates@, i as int),
        hit is None ==> none_selectable_within(candidates@, candidates@.len() as int),
        nearest(candidates@) == match hit {
            Some(i) => Some(i as int),
            None => None,
        },
{
    let mut best: Option<usize> = None;
    let mut index: usize = 0;
    while index < candidates.len()
        invariant
            index <= candidates@.len(),
            best matches Some(b) ==> is_nearest_within(candidates@, index as int, b as int),
            best is None ==> none_selectable_within(candidates@, index as int),
        decreases candidates@.len() - index,
    {
        let crossing = candidates[index].crossing;
        if crossing.selectable() {
            let closer = match best {
                Some(b) => crossing.entry().lt(candidates[b].crossing.entry()),
                None => true,
            };
            if closer {
                best = Some(index);
            }
        }
        index = index + 1;
    }
    proof {
        lemma_nearest_exists(candidates@);
        if let Some(b) = best {
            lemma_nearest_is_unique(candidates@, b as int, nearest(candidates@).unwrap());
        }
    }
    best
}

/// The entity of the pick, or `None` where no candidate can be picked.
pub fn pick_block(candidates: &Vec<Candidate>) -> (target: Option<EntityId>)
    ensures
        target == picked(candidates@),
{
    match nearest_hit(candidates) {
        Some(i) => Some(candidates[i].entity),
        None => None,
    }
}

} // verus!
