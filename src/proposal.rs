use vstd::prelude::*;

use crate::policy::{max_votes, policy_wf, required_votes, vote_requirement, PolicyItem};

verus! {

/// A council member's answer to a proposal.
#[derive(Clone, Copy, Debug, PartialEq, Eq, Structural)]
pub enum Vote {
    Yes,
    No,
}

/// Where a proposal stands. `Success`, `Reject` and `Fail` are terminal.
#[derive(Clone, Copy, Debug, PartialEq, Eq, Structural)]
pub enum ProposalStatus {
    /// Open for votes.
    Vote,
    /// Passed.
    Success,
    /// Rejected by the vote.
    Reject,
    /// Closed without enough votes either way.
    Fail,
    /// The uncontested minimum of votes was reached early: finalization
    /// waits out a grace period in which dissent may still arrive.
    Delay,
}

impl ProposalStatus {
    pub open spec fn spec_is_finalized(self) -> bool {
        !(self is Vote) && !(self is Delay)
    }

    pub fn is_finalized(&self) -> (r: bool)
        ensures
            r == self.spec_is_finalized(),
    {
        match self {
            ProposalStatus::Vote | ProposalStatus::Delay => false,
            _ => true,
        }
    }
}

/// What a proposal asks for.
#[derive(Debug)]
pub enum ProposalKind {
    /// Add the target to the council.
    NewCouncil,
    /// Remove the target from the council.
    RemoveCouncil,
    /// Transfer `amount` to the target.
    Payout { amount: u128 },
    ChangeVotePeriod { vote_period: u64 },
    ChangeBond { bond: u128 },
    ChangePolicy { policy: Vec<PolicyItem> },
    ChangePurpose { purpose: String },
}

impl ProposalKind {
    /// Same request: equal payloads, a policy compared by its tiers.
    pub open spec fn same_as(self, other: ProposalKind) -> bool {
        match (self, other) {
            (ProposalKind::ChangePolicy { policy: a }, ProposalKind::ChangePolicy { policy: b }) => a@ == b@,
            _ => self == other,
        }
    }
}

impl Clone for ProposalKind {
    fn clone(&self) -> (r: Self)
        ensures
            r.same_as(*self),
    {
        match self {
            ProposalKind::NewCouncil => ProposalKind::NewCouncil,
            ProposalKind::RemoveCouncil => ProposalKind::RemoveCouncil,
            ProposalKind::Payout { amount } => ProposalKind::Payout { amount: *amount },
            ProposalKind::ChangeVotePeriod { vote_period } => ProposalKind::ChangeVotePeriod {
                vote_period: *vote_period,
            },
            ProposalKind::ChangeBond { bond } => ProposalKind::ChangeBond { bond: *bond },
            ProposalKind::ChangePolicy { policy } => {
                let p = policy.clone();
                assert(p@ == policy@);
                ProposalKind::ChangePolicy { policy: p }
            },
            ProposalKind::ChangePurpose { purpose } => ProposalKind::ChangePurpose {
                purpose: purpose.clone(),
            },
        }
    }
}

/// One recorded vote.
#[derive(Debug)]
pub struct Ballot {
    pub voter: String,
    pub vote: Vote,
}

impl Clone for Ballot {
    fn clone(&self) -> (r: Self)
        ensures
            r == *self,
    {
        Ballot { voter: self.voter.clone(), vote: self.vote }
    }
}

/// Identities of the voters, in the order the votes arrived.
pub open spec fn voters_of(ballots: Seq<Ballot>) -> Seq<Seq<char>> {
    ballots.map_values(|b: Ballot| b.voter@)
}

/// Number of `Yes` ballots.
pub open spec fn count_yes(ballots: Seq<Ballot>) -> nat
    decreases ballots.len(),
{
    if ballots.len() == 0 {
        0
    } else {
        count_yes(ballots.drop_last()) + if ballots.last().vote is Yes { 1nat } else { 0nat }
    }
}

/// The status that a tally of `yes` and `no` gives for a proposal about
/// `amount`, with its window ending at `end`, on a council of `num_council`
/// at time `now`.
pub open spec fn status_of(
    policy: Seq<PolicyItem>,
    num_council: int,
    amount: Option<u128>,
    yes: int,
    no: int,
    end: int,
    now: int,
) -> ProposalStatus {
    let required = required_votes(policy, num_council, amount);
    let max = max_votes(policy, num_council);
    if yes >= max {
        ProposalStatus::Success
    } else if yes >= required && no == 0 {
        if now > end {
            ProposalStatus::Success
        } else {
            ProposalStatus::Delay
        }
    } else if no >= max {
        ProposalStatus::Reject
    } else if now > end || yes + no == num_council {
        ProposalStatus::Fail
    } else {
        ProposalStatus::Vote
    }
}

/// A governance item with its tally.
#[derive(Debug)]
pub struct Proposal {
    pub status: ProposalStatus,
    pub proposer: String,
    pub target: String,
    pub description: String,
    pub kind: ProposalKind,
    /// End of the voting window (a timestamp).
    pub vote_period_end: u64,
    pub vote_yes: u64,
    pub vote_no: u64,
    /// Who voted, and how; one ballot per voter.
    pub votes: Vec<Ballot>,
}

impl Clone for Proposal {
    fn clone(&self) -> (r: Self)
        ensures
            r.same_as(*self),
    {
        let votes = self.votes.clone();
        assert(votes@ == self.votes@);
        Proposal {
            status: self.status,
            proposer: self.proposer.clone(),
            target: self.target.clone(),
            description: self.description.clone(),
            kind: self.kind.clone(),
            vote_period_end: self.vote_period_end,
            vote_yes: self.vote_yes,
            vote_no: self.vote_no,
            votes,
        }
    }
}

impl Proposal {
    /// Same record: equal fields, the kind and the ballots compared by content.
    pub open spec fn same_as(self, other: Proposal) -> bool {
        &&& self.status == other.status
        &&& self.proposer == other.proposer
        &&& self.target == other.target
        &&& self.description == other.description
        &&& self.kind.same_as(other.kind)
        &&& self.vote_period_end == other.vote_period_end
        &&& self.vote_yes == other.vote_yes
        &&& self.vote_no == other.vote_no
        &&& self.votes@ == other.votes@
    }

    /// The amount that selects the policy tier: present for payouts only.
    pub open spec fn spec_amount(&self) -> Option<u128> {
        match self.kind {
            ProposalKind::Payout { amount } => Some(amount),
            _ => None,
        }
    }

    /// The tally agrees with the ballots, and nobody voted twice.
    pub open spec fn wf(&self) -> bool {
        &&& voters_of(self.votes@).no_duplicates()
        &&& self.vote_yes == count_yes(self.votes@)
        &&& self.vote_yes + self.vote_no == self.votes@.len()
    }

    /// Whether `who` has a ballot on this proposal.
    pub open spec fn has_voted(&self, who: Seq<char>) -> bool {
        voters_of(self.votes@).contains(who)
    }

    /// The status that the tally gives on a council of `num_council` at time `now`.
    pub open spec fn spec_vote_status(&self, policy: Seq<PolicyItem>, num_council: int, now: int) -> ProposalStatus {
        status_of(
            policy,
            num_council,
            self.spec_amount(),
            self.vote_yes as int,
            self.vote_no as int,
            self.vote_period_end as int,
            now,
        )
    }

    /// Records `voter`'s ballot and counts it.
    pub(crate) fn record_vote(&mut self, voter: &String, vote: Vote)
        requires
            old(self).wf(),
            !old(self).has_voted(voter@),
        ensures
            final(self).wf(),
            final(self).votes@ == old(self).votes@.push(Ballot { voter: *voter, vote }),
            final(self).vote_yes == old(self).vote_yes + if vote is Yes { 1int } else { 0int },
            final(self).vote_no == old(self).vote_no + if vote is No { 1int } else { 0int },
            final(self).status == old(self).status,
            final(self).proposer == old(self).proposer,
            final(self).target == old(self).target,
            final(self).description == old(self).description,
            final(self).kind == old(self).kind,
            final(self).vote_period_end == old(self).vote_period_end,
    {
        let ghost before = self.votes@;
        let b = Ballot { voter: voter.clone(), vote };
        self.votes.push(b);
        let len = self.votes.len();
        proof {
            assert(self.votes@.drop_last() =~= before);
            assert(voters_of(self.votes@) =~= voters_of(before).push(voter@));
        }
        match vote {
            Vote::Yes => self.vote_yes = self.vote_yes + 1,
            Vote::No => self.vote_no = self.vote_no + 1,
        }
    }

    pub fn get_amount(&self) -> (r: Option<u128>)
        ensures
            r == self.spec_amount(),
    {
        match self.kind {
            ProposalKind::Payout { amount } => Some(amount),
            _ => None,
        }
    }

    /// Computes the status from the tally, the policy, the council size and
    /// the current time.
    pub fn vote_status(&self, policy: &Vec<PolicyItem>, num_council: u64, now: u64) -> (r: ProposalStatus)
        requires
            policy_wf(policy@),
        ensures
            r == self.spec_vote_status(policy@, num_council as int, now as int),
    {
        let votes_required = vote_requirement(policy, num_council, self.get_amount());
        let max_votes = policy[policy.len() - 1].num_votes(num_council);
        if self.vote_yes >= max_votes {
            ProposalStatus::Success
        } else if self.vote_yes >= votes_required && self.vote_no == 0 {
            if now > self.vote_period_end {
                ProposalStatus::Success
            } else {
                ProposalStatus::Delay
            }
        } else if self.vote_no >= max_votes {
            ProposalStatus::Reject
        } else if now > self.vote_period_end
            || (self.vote_yes as u128) + (self.vote_no as u128) == num_council as u128
        {
            ProposalStatus::Fail
        } else {
            ProposalStatus::Vote
        }
    }
}

} // verus!
