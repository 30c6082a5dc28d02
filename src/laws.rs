use vstd::prelude::*;

use crate::dao::{finalize_error, tally, vote_error, DaoError, DaoView};
use crate::policy::{ratio_votes, NumOrRatio};
use crate::proposal::voters_of;

verus! {

/// A ratio rule `Ratio(l, r)` on a council of `n >= 1` asks for
/// `min(n * l / r + 1, n)` votes, which never exceeds the council.
pub proof fn lemma_ratio_votes(n: u64, l: u64, r: u64)
    requires
        n >= 1,
        r > 0,
    ensures
        NumOrRatio::Ratio(l, r).spec_num_votes(n as int) == ratio_votes(n as int, l as int, r as int),
        ratio_votes(n as int, l as int, r as int) == if (n * l) as int / (r as int) + 1 < n {
            (n * l) as int / (r as int) + 1
        } else {
            n as int
        },
        NumOrRatio::Ratio(l, r).spec_num_votes(n as int) <= n,
{
}

/// While every voter of a proposal is on the council, its yes and no votes
/// together never exceed the council's size.
pub proof fn lemma_tally_within_council(v: DaoView, id: int)
    requires
        v.wf(),
        0 <= id < v.proposals.len(),
        forall|k: int|
            0 <= k < v.proposals[id].votes@.len() ==> v.council.contains(
                #[trigger] voters_of(v.proposals[id].votes@)[k],
            ),
    ensures
        tally(v.proposals[id]) <= v.council.len(),
{
    let p = v.proposals[id];
    let voters = voters_of(p.votes@);
    assert(p.wf());
    voters.unique_seq_to_set();
    v.council.unique_seq_to_set();
    assert(voters.to_set().subset_of(v.council.to_set()));
    vstd::set_lib::lemma_len_subset(voters.to_set(), v.council.to_set());
}

/// Finalization counts no vote: every proposal keeps its tally.
pub proof fn lemma_finalize_keeps_tallies(v: DaoView, id: u64, now: u64, k: int)
    requires
        v.wf(),
        finalize_error(v, id, now) is None,
        0 <= k < v.proposals.len(),
    ensures
        v.finalized(id as int, now as int).proposals.len() == v.proposals.len(),
        tally(v.finalized(id as int, now as int).proposals[k]) == tally(v.proposals[k]),
{
}

/// Finalization happens once: after a proposal was finalized, finalizing it
/// again is refused with `AlreadyFinalized` (and a refusal changes nothing).
pub proof fn lemma_finalize_once(v: DaoView, id: u64, now: u64, later: u64)
    requires
        v.wf(),
        finalize_error(v, id, now) is None,
    ensures
        v.finalized(id as int, now as int).proposals[id as int].status.spec_is_finalized(),
        finalize_error(v.finalized(id as int, now as int), id, later) == Some(DaoError::AlreadyFinalized),
{
}

/// A proposal in a terminal status refuses every council member's vote
/// with `AlreadyFinalized`.
pub proof fn lemma_closed_proposal_refuses_votes(v: DaoView, id: u64, caller: Seq<char>, now: u64)
    requires
        v.council.contains(caller),
        id < v.proposals.len(),
        v.proposals[id as int].status.spec_is_finalized(),
    ensures
        vote_error(v, id, caller, now) == Some(DaoError::AlreadyFinalized),
        finalize_error(v, id, now) == Some(DaoError::AlreadyFinalized),
{
}

} // verus!
