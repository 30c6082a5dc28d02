use vstd::prelude::*;

use crate::policy::{policy_sorted, policy_wf, NumOrRatio, PolicyItem};
use crate::proposal::{count_yes, status_of, voters_of, Ballot, Proposal, ProposalKind, ProposalStatus, Vote};

verus! {

/// Descriptions must be shorter than this many characters.
pub const MAX_DESCRIPTION_LENGTH: usize = 280;

/// Why an operation was refused. A refused operation changes nothing.
#[derive(Clone, Copy, Debug, PartialEq, Eq, Structural)]
pub enum DaoError {
    InsufficientDeposit,
    DescriptionTooLong,
    UnsortedPolicy,
    /// A proposed policy has no tier, or a ratio with a zero denominator.
    InvalidPolicy,
    ProposalNotFound,
    NotCouncilMember,
    AlreadyFinalized,
    AlreadyVoted,
    FinalizeCalledOnOpenProposal,
}

/// A movement of value that the host carries out.
#[derive(Debug, PartialEq, Eq)]
pub struct Transfer {
    pub receiver: String,
    pub amount: u128,
}

/// What a caller submits as a proposal.
#[derive(Debug)]
pub struct ProposalInput {
    pub target: String,
    pub description: String,
    pub kind: ProposalKind,
}

/// The governance store: settings, policy, council and every proposal.
#[derive(Debug)]
pub struct SputnikDAO {
    purpose: String,
    bond: u128,
    vote_period: u64,
    grace_period: u64,
    policy: Vec<PolicyItem>,
    council: Vec<String>,
    proposals: Vec<Proposal>,
}

/// The store as values.
pub struct DaoView {
    pub purpose: Seq<char>,
    pub bond: u128,
    pub vote_period: u64,
    pub grace_period: u64,
    pub policy: Seq<PolicyItem>,
    pub council: Seq<Seq<char>>,
    pub proposals: Seq<Proposal>,
}

/// The identities held by a list of account names.
pub open spec fn names(s: Seq<String>) -> Seq<Seq<char>> {
    s.map_values(|a: String| a@)
}

/// Votes counted on a proposal.
pub open spec fn tally(p: Proposal) -> int {
    p.vote_yes + p.vote_no
}

/// Receiver and amount of each transfer.
pub open spec fn transfers_view(s: Seq<Transfer>) -> Seq<(Seq<char>, u128)> {
    s.map_values(|t: Transfer| (t.receiver@, t.amount))
}

/// A list with each identity kept at its first occurrence only.
pub open spec fn dedup(s: Seq<Seq<char>>) -> Seq<Seq<char>>
    decreases s.len(),
{
    if s.len() == 0 {
        s
    } else {
        let d = dedup(s.drop_last());
        if d.contains(s.last()) {
            d
        } else {
            d.push(s.last())
        }
    }
}

/// The policy installed at initialization: one catch-all tier asking for a
/// majority.
pub open spec fn default_policy() -> Seq<PolicyItem> {
    seq![PolicyItem { max_amount: 0, votes: NumOrRatio::Ratio(1, 2) }]
}

/// A proposed payload is acceptable: a new policy must be sorted and usable.
pub open spec fn kind_wf(kind: ProposalKind) -> bool {
    match kind {
        ProposalKind::ChangePolicy { policy } => policy_sorted(policy@) && policy_wf(policy@),
        _ => true,
    }
}

/// The verdict on a proposed policy.
pub open spec fn policy_check(policy: Seq<PolicyItem>) -> Result<(), DaoError> {
    if !policy_sorted(policy) {
        Err(DaoError::UnsortedPolicy)
    } else if !policy_wf(policy) {
        Err(DaoError::InvalidPolicy)
    } else {
        Ok(())
    }
}

/// The refusal owed to a submission, if any.
pub open spec fn submission_error(v: DaoView, input: ProposalInput, deposit: u128) -> Option<DaoError> {
    if deposit < v.bond {
        Some(DaoError::InsufficientDeposit)
    } else if input.description@.len() >= MAX_DESCRIPTION_LENGTH {
        Some(DaoError::DescriptionTooLong)
    } else {
        match input.kind {
            ProposalKind::ChangePolicy { policy } => match policy_check(policy@) {
                Err(e) => Some(e),
                Ok(_) => None,
            },
            _ => None,
        }
    }
}

/// The refusal owed to a vote, if any.
pub open spec fn vote_error(v: DaoView, id: u64, caller: Seq<char>, now: u64) -> Option<DaoError> {
    if !v.council.contains(caller) {
        Some(DaoError::NotCouncilMember)
    } else if id >= v.proposals.len() {
        Some(DaoError::ProposalNotFound)
    } else if !(v.proposals[id as int].status is Vote) {
        Some(DaoError::AlreadyFinalized)
    } else if now > v.proposals[id as int].vote_period_end {
        None
    } else if v.proposals[id as int].has_voted(caller) {
        Some(DaoError::AlreadyVoted)
    } else {
        None
    }
}

/// The refusal owed to a finalization, if any.
pub open spec fn finalize_error(v: DaoView, id: u64, now: u64) -> Option<DaoError> {
    if id >= v.proposals.len() {
        Some(DaoError::ProposalNotFound)
    } else if v.proposals[id as int].status.spec_is_finalized() {
        Some(DaoError::AlreadyFinalized)
    } else if !v.status_now(id as int, now as int).spec_is_finalized() {
        Some(DaoError::FinalizeCalledOnOpenProposal)
    } else {
        None
    }
}

impl DaoView {
    pub open spec fn wf(self) -> bool {
        &&& policy_wf(self.policy)
        &&& self.council.no_duplicates()
        &&& forall|i: int|
            0 <= i < self.proposals.len() ==> (#[trigger] self.proposals[i]).wf() && kind_wf(
                self.proposals[i].kind,
            )
    }

    /// The status that proposal `id` has by its tally at time `now`.
    pub open spec fn status_now(self, id: int, now: int) -> ProposalStatus {
        self.proposals[id].spec_vote_status(self.policy, self.council.len() as int, now)
    }

    /// The store with proposal `id` replaced by `p`.
    pub open spec fn with_proposal(self, id: int, p: Proposal) -> DaoView {
        DaoView { proposals: self.proposals.update(id, p), ..self }
    }

    /// The store after proposal `p` closed with status `st`: on success the
    /// requested change is made, otherwise nothing changes.
    pub open spec fn apply_outcome(self, p: Proposal, st: ProposalStatus) -> DaoView {
        if st is Success {
            match p.kind {
                ProposalKind::NewCouncil => DaoView {
                    council: if self.council.contains(p.target@) {
                        self.council
                    } else {
                        self.council.push(p.target@)
                    },
                    ..self
                },
                ProposalKind::RemoveCouncil => DaoView {
                    council: self.council.filter(|m: Seq<char>| m != p.target@),
                    ..self
                },
                ProposalKind::Payout { .. } => self,
                ProposalKind::ChangeVotePeriod { vote_period } => DaoView { vote_period, ..self },
                ProposalKind::ChangeBond { bond } => DaoView { bond, ..self },
                ProposalKind::ChangePolicy { policy } => DaoView { policy: policy@, ..self },
                ProposalKind::ChangePurpose { purpose } => DaoView { purpose: purpose@, ..self },
            }
        } else {
            self
        }
    }

    /// The transfers owed when proposal `p` closes with status `st`: the bond
    /// goes back to the proposer on success and on failure, and a passed
    /// payout pays its target. A rejected proposal forfeits the bond.
    pub open spec fn outcome_transfers(self, p: Proposal, st: ProposalStatus) -> Seq<(Seq<char>, u128)> {
        if st is Success {
            match p.kind {
                ProposalKind::Payout { amount } => seq![(p.proposer@, self.bond), (p.target@, amount)],
                _ => seq![(p.proposer@, self.bond)],
            }
        } else if st is Fail {
            seq![(p.proposer@, self.bond)]
        } else {
            seq![]
        }
    }

    /// The store after proposal `id` was finalized at time `now`.
    pub open spec fn finalized(self, id: int, now: int) -> DaoView {
        let p = self.proposals[id];
        let st = self.status_now(id, now);
        self.with_proposal(id, Proposal { status: st, ..p }).apply_outcome(p, st)
    }
}

impl View for SputnikDAO {
    type V = DaoView;

    closed spec fn view(&self) -> DaoView {
        DaoView {
            purpose: self.purpose@,
            bond: self.bond,
            vote_period: self.vote_period,
            grace_period: self.grace_period,
            policy: self.policy@,
            council: names(self.council@),
            proposals: self.proposals@,
        }
    }
}

/// The store that a set of stored parts describes.
pub open spec fn stored_view(
    purpose: String,
    bond: u128,
    vote_period: u64,
    grace_period: u64,
    policy: Vec<PolicyItem>,
    council: Vec<String>,
    proposals: Vec<Proposal>,
) -> DaoView {
    DaoView {
        purpose: purpose@,
        bond,
        vote_period,
        grace_period,
        policy: policy@,
        council: names(council@),
        proposals: proposals@,
    }
}

/// Checks a proposed policy: tiers strictly increasing by `max_amount`, at
/// least one tier, and no ratio with a zero denominator.
pub fn validate_policy(policy: &Vec<PolicyItem>) -> (r: Result<(), DaoError>)
    ensures
        r == policy_check(policy@),
{
    let mut i: usize = 1;
    while i < policy.len()
        invariant
            1 <= i,
            i <= policy.len() || policy.len() == 0,
            forall|k: int| 1 <= k < i && k < policy.len() ==> policy@[k - 1].max_amount < #[trigger] policy@[k].max_amount,
        decreases policy.len() - i,
    {
        if policy[i].max_amount <= policy[i - 1].max_amount {
            return Err(DaoError::UnsortedPolicy);
        }
        i = i + 1;
    }
    if policy.len() == 0 {
        return Err(DaoError::InvalidPolicy);
    }
    let mut j: usize = 0;
    while j < policy.len()
        invariant
            policy_sorted(policy@),
            j <= policy.len(),
            forall|k: int| 0 <= k < j ==> (#[trigger] policy@[k]).votes.wf(),
        decreases policy.len() - j,
    {
        if let NumOrRatio::Ratio(_, r) = policy[j].votes {
            if r == 0 {
                return Err(DaoError::InvalidPolicy);
            }
        }
        j = j + 1;
    }
    Ok(())
}

/// Whether no name occurs twice in the list.
fn distinct_names(list: &Vec<String>) -> (r: bool)
    ensures
        r == names(list@).no_duplicates(),
{
    let mut i: usize = 0;
    while i < list.len()
        invariant
            i <= list.len(),
            names(list@).take(i as int).no_duplicates(),
        decreases list.len() - i,
    {
        let mut j: usize = 0;
        while j < i
            invariant
                j <= i < list.len(),
                forall|k: int| 0 <= k < j ==> (#[trigger] list@[k])@ != list@[i as int]@,
            decreases i - j,
        {
            if list[j] == list[i] {
                assert(names(list@)[j as int] == names(list@)[i as int]);
                return false;
            }
            j = j + 1;
        }
        assert(names(list@).take(i + 1) =~= names(list@).take(i as int).push(names(list@)[i as int]));
        i = i + 1;
    }
    assert(names(list@).take(i as int) =~= names(list@));
    true
}

/// Whether every tier of the policy can be evaluated.
fn policy_usable(policy: &Vec<PolicyItem>) -> (r: bool)
    ensures
        r == policy_wf(policy@),
{
    if policy.len() == 0 {
        return false;
    }
    let mut i: usize = 0;
    while i < policy.len()
        invariant
            i <= policy.len(),
            forall|k: int| 0 <= k < i ==> (#[trigger] policy@[k]).votes.wf(),
        decreases policy.len() - i,
    {
        if let NumOrRatio::Ratio(_, r) = policy[i].votes {
            if r == 0 {
                return false;
            }
        }
        i = i + 1;
    }
    true
}

/// Whether a stored proposal is consistent: its tally agrees with its
/// ballots, nobody voted twice, and its payload is acceptable.
fn proposal_consistent(p: &Proposal) -> (r: bool)
    ensures
        r == (p.wf() && kind_wf(p.kind)),
{
    let mut voters: Vec<String> = Vec::new();
    let mut yes: u64 = 0;
    let mut i: usize = 0;
    while i < p.votes.len()
        invariant
            i <= p.votes.len(),
            names(voters@) == voters_of(p.votes@.take(i as int)),
            yes == count_yes(p.votes@.take(i as int)),
            yes <= i,
        decreases p.votes.len() - i,
    {
        let ghost before = voters@;
        proof {
            assert(p.votes@.take(i + 1).drop_last() =~= p.votes@.take(i as int));
        }
        voters.push(p.votes[i].voter.clone());
        if let Vote::Yes = p.votes[i].vote {
            yes = yes + 1;
        }
        proof {
            assert(names(before).len() == before.len());
            assert(voters_of(p.votes@.take(i as int)).len() == i);
            assert forall|k: int| 0 <= k < voters@.len() implies names(voters@)[k] == voters_of(p.votes@.take(i + 1))[k] by {
                if k < before.len() {
                    assert(names(before)[k] == voters_of(p.votes@.take(i as int))[k]);
                    assert(voters@[k] == before[k]);
                }
            }
            assert(names(voters@) =~= voters_of(p.votes@.take(i + 1)));
        }
        i = i + 1;
    }
    proof {
        assert(p.votes@.take(i as int) =~= p.votes@);
    }
    if !distinct_names(&voters) || yes != p.vote_yes
        || (p.vote_yes as u128) + (p.vote_no as u128) != p.votes.len() as u128 {
        return false;
    }
    match &p.kind {
        ProposalKind::ChangePolicy { policy } => validate_policy(policy).is_ok(),
        _ => true,
    }
}

/// Whether `who` is in the list.
fn contains_name(list: &Vec<String>, who: &String) -> (r: bool)
    ensures
        r == names(list@).contains(who@),
{
    let mut i: usize = 0;
    while i < list.len()
        invariant
            i <= list.len(),
            forall|k: int| 0 <= k < i ==> (#[trigger] list@[k])@ != who@,
        decreases list.len() - i,
    {
        if list[i] == *who {
            assert(names(list@)[i as int] == who@);
            return true;
        }
        i = i + 1;
    }
    proof {
        if names(list@).contains(who@) {
            let k = choose|k: int| 0 <= k < names(list@).len() && names(list@)[k] == who@;
            assert(list@[k]@ == who@);
        }
    }
    false
}

/// The list without `who`, order kept.
fn without_name(list: &Vec<String>, who: &String) -> (r: Vec<String>)
    requires
        names(list@).no_duplicates(),
    ensures
        names(r@) == names(list@).filter(|m: Seq<char>| m != who@),
        names(r@).no_duplicates(),
{
    let ghost pred = |m: Seq<char>| m != who@;
    let mut out: Vec<String> = Vec::new();
    let mut i: usize = 0;
    while i < list.len()
        invariant
            i <= list.len(),
            names(list@).no_duplicates(),
            pred == (|m: Seq<char>| m != who@),
            names(out@) == names(list@).take(i as int).filter(pred),
            names(out@).no_duplicates(),
            forall|k: int| 0 <= k < out@.len() ==> names(list@).take(i as int).contains(#[trigger] names(out@)[k]),
        decreases list.len() - i,
    {
        let ghost before = out@;
        proof {
            assert(names(list@).take(i + 1) =~= names(list@).take(i as int).push(names(list@)[i as int]));
            names(list@).take(i as int).lemma_filter_push(names(list@)[i as int], pred);
        }
        if list[i] != *who {
            out.push(list[i].clone());
            proof {
                assert(names(out@) =~= names(before).push(list@[i as int]@));
                assert forall|k: int| 0 <= k < out@.len() implies names(list@).take(i + 1).contains(#[trigger] names(out@)[k]) by {
                    if k < before.len() {
                        assert(names(before)[k] == names(out@)[k]);
                        let m = choose|m: int| 0 <= m < i && names(list@).take(i as int)[m] == names(before)[k];
                        assert(names(list@).take(i + 1)[m] == names(out@)[k]);
                    } else {
                        assert(names(list@).take(i + 1)[i as int] == names(out@)[k]);
                    }
                }
                assert forall|a: int, b: int| 0 <= a < b < names(out@).len() implies names(out@)[a] != names(out@)[b] by {
                    if b == before.len() {
                        assert(names(before)[a] == names(out@)[a]);
                        let m = choose|m: int| 0 <= m < i && names(list@).take(i as int)[m] == names(before)[a];
                        assert(names(list@)[m] == names(out@)[a]);
                    } else {
                        assert(names(before)[a] == names(out@)[a]);
                        assert(names(before)[b] == names(out@)[b]);
                    }
                }
            }
        } else {
            proof {
                assert forall|k: int| 0 <= k < out@.len() implies names(list@).take(i + 1).contains(#[trigger] names(out@)[k]) by {
                    let m = choose|m: int| 0 <= m < i && names(list@).take(i as int)[m] == names(out@)[k];
                    assert(names(list@).take(i + 1)[m] == names(out@)[k]);
                }
            }
        }
        i = i + 1;
    }
    proof {
        assert(names(list@).take(i as int) =~= names(list@));
    }
    out
}

impl SputnikDAO {
    /// The invariant every operation keeps.
    pub open spec fn wf(&self) -> bool {
        self@.wf()
    }

    /// A store with the given settings, the default policy, the founding
    /// council (each member once) and no proposals.
    pub fn new(purpose: String, council: Vec<String>, bond: u128, vote_period: u64, grace_period: u64) -> (r: Self)
        ensures
            r.wf(),
            r@.purpose == purpose@,
            r@.bond == bond,
            r@.vote_period == vote_period,
            r@.grace_period == grace_period,
            r@.policy == default_policy(),
            r@.council == dedup(names(council@)),
            r@.proposals.len() == 0,
    {
        let mut members: Vec<String> = Vec::new();
        let mut i: usize = 0;
        while i < council.len()
            invariant
                i <= council.len(),
                names(members@) == dedup(names(council@).take(i as int)),
                names(members@).no_duplicates(),
            decreases council.len() - i,
        {
            proof {
                assert(names(council@).take(i + 1).drop_last() =~= names(council@).take(i as int));
            }
            if !contains_name(&members, &council[i]) {
                let ghost before = members@;
                members.push(council[i].clone());
                proof {
                    assert(names(members@) =~= names(before).push(council@[i as int]@));
                }
            }
            i = i + 1;
        }
        proof {
            assert(names(council@).take(i as int) =~= names(council@));
        }
        let policy = vec![PolicyItem { max_amount: 0, votes: NumOrRatio::Ratio(1, 2) }];
        let dao = SputnikDAO {
            purpose,
            bond,
            vote_period,
            grace_period,
            policy,
            council: members,
            proposals: Vec::new(),
        };
        assert(dao@.policy =~= default_policy());
        dao
    }

    /// Submits a proposal from `caller`, who attached `deposit`, at time `now`.
    /// Returns the new proposal's id: its position among all proposals.
    pub fn add_proposal(&mut self, proposal: ProposalInput, caller: String, now: u64, deposit: u128) -> (r: Result<u64, DaoError>)
        requires
            old(self).wf(),
            now + old(self)@.vote_period <= u64::MAX,
        ensures
            final(self).wf(),
            match r {
                Ok(id) => {
                    &&& submission_error(old(self)@, proposal, deposit) is None
                    &&& id == old(self)@.proposals.len()
                    &&& final(self)@ == DaoView { proposals: final(self)@.proposals, ..old(self)@ }
                    &&& final(self)@.proposals.drop_last() == old(self)@.proposals
                    &&& final(self)@.proposals.len() == old(self)@.proposals.len() + 1
                    &&& final(self)@.proposals.last().status == ProposalStatus::Vote
                    &&& final(self)@.proposals.last().proposer == caller
                    &&& final(self)@.proposals.last().target == proposal.target
                    &&& final(self)@.proposals.last().description == proposal.description
                    &&& final(self)@.proposals.last().kind == proposal.kind
                    &&& final(self)@.proposals.last().vote_period_end == now + old(self)@.vote_period
                    &&& final(self)@.proposals.last().vote_yes == 0
                    &&& final(self)@.proposals.last().vote_no == 0
                    &&& final(self)@.proposals.last().votes@.len() == 0
                },
                Err(e) => {
                    &&& submission_error(old(self)@, proposal, deposit) == Some(e)
                    &&& final(self)@ == old(self)@
                },
            },
    {
        if deposit < self.bond {
            return Err(DaoError::InsufficientDeposit);
        }
        if proposal.description.as_str().unicode_len() >= MAX_DESCRIPTION_LENGTH {
            return Err(DaoError::DescriptionTooLong);
        }
        if let ProposalKind::ChangePolicy { policy } = &proposal.kind {
            if let Err(e) = validate_policy(policy) {
                return Err(e);
            }
        }
        let id = self.proposals.len() as u64;
        let p = Proposal {
            status: ProposalStatus::Vote,
            proposer: caller,
            target: proposal.target,
            description: proposal.description,
            kind: proposal.kind,
            vote_period_end: now + self.vote_period,
            vote_yes: 0,
            vote_no: 0,
            votes: Vec::new(),
        };
        let ghost before = self.proposals@;
        self.proposals.push(p);
        proof {
            assert(self.proposals@.drop_last() =~= before);
            assert(voters_of(p.votes@) =~= Seq::<Seq<char>>::empty());
            assert forall|i: int| 0 <= i < self@.proposals.len() implies (#[trigger] self@.proposals[i]).wf()
                && kind_wf(self@.proposals[i].kind) by {
                if i < before.len() {
                    assert(self@.proposals[i] == before[i]);
                }
            }
        }
        Ok(id)
    }

    /// Rebuilds a store from its parts, as kept by a host between calls.
    /// Returns `None` when the parts break the store's invariant.
    pub fn restore(
        purpose: String,
        bond: u128,
        vote_period: u64,
        grace_period: u64,
        policy: Vec<PolicyItem>,
        council: Vec<String>,
        proposals: Vec<Proposal>,
    ) -> (r: Option<Self>)
        ensures
            r is Some <==> stored_view(purpose, bond, vote_period, grace_period, policy, council, proposals).wf(),
            r matches Some(d) ==> (d.wf() && d@ == stored_view(
                purpose,
                bond,
                vote_period,
                grace_period,
                policy,
                council,
                proposals,
            )),
    {
        if !policy_usable(&policy) || !distinct_names(&council) {
            return None;
        }
        let mut i: usize = 0;
        while i < proposals.len()
            invariant
                i <= proposals.len(),
                forall|k: int| 0 <= k < i ==> (#[trigger] proposals@[k]).wf() && kind_wf(proposals@[k].kind),
            decreases proposals.len() - i,
        {
            if !proposal_consistent(&proposals[i]) {
                return None;
            }
            i = i + 1;
        }
        Some(SputnikDAO { purpose, bond, vote_period, grace_period, policy, council, proposals })
    }

    pub fn get_grace_period(&self) -> (r: u64)
        ensures
            r == self@.grace_period,
    {
        self.grace_period
    }

    pub fn get_policy(&self) -> (r: Vec<PolicyItem>)
        ensures
            r@ == self@.policy,
    {
        let r = self.policy.clone();
        assert(r@ =~= self.policy@);
        r
    }

    pub fn get_vote_period(&self) -> (r: u64)
        ensures
            r == self@.vote_period,
    {
        self.vote_period
    }

    pub fn get_bond(&self) -> (r: u128)
        ensures
            r == self@.bond,
    {
        self.bond
    }

    pub fn get_council(&self) -> (r: Vec<String>)
        ensures
            names(r@) == self@.council,
    {
        let r = self.council.clone();
        assert(names(r@) =~= names(self.council@));
        r
    }

    pub fn get_num_proposals(&self) -> (r: u64)
        ensures
            r == self@.proposals.len(),
    {
        self.proposals.len() as u64
    }

    pub fn get_purpose(&self) -> (r: String)
        ensures
            r@ == self@.purpose,
    {
        self.purpose.clone()
    }

    /// A copy of proposal `id`.
    pub fn get_proposal(&self, id: u64) -> (r: Result<Proposal, DaoError>)
        ensures
            id < self@.proposals.len() ==> (r matches Ok(p) && p.same_as(self@.proposals[id as int])),
            id >= self@.proposals.len() ==> r == Err::<Proposal, DaoError>(DaoError::ProposalNotFound),
    {
        if id < self.proposals.len() as u64 {
            Ok(self.proposals[id as usize].clone())
        } else {
            Err(DaoError::ProposalNotFound)
        }
    }

    /// Copies of up to `limit` proposals, starting at id `from_index`.
    pub fn get_proposals(&self, from_index: u64, limit: u64) -> (r: Vec<Proposal>)
        ensures
            r@.len() == if from_index >= self@.proposals.len() {
                0
            } else if from_index + limit > self@.proposals.len() {
                self@.proposals.len() - from_index
            } else {
                limit as int
            },
            forall|k: int| 0 <= k < r@.len() ==> (#[trigger] r@[k]).same_as(self@.proposals[from_index + k]),
    {
        let len = self.proposals.len() as u64;
        let end = if from_index >= len {
            from_index
        } else if limit > len - from_index {
            len
        } else {
            from_index + limit
        };
        let mut out: Vec<Proposal> = Vec::new();
        let mut i = from_index;
        while i < end
            invariant
                from_index <= i <= end,
                end == if from_index >= len {
                    from_index as int
                } else if limit > len - from_index {
                    len as int
                } else {
                    from_index + limit
                },
                len == self@.proposals.len(),
                len <= usize::MAX,
                out@.len() == i - from_index,
                forall|k: int| 0 <= k < out@.len() ==> (#[trigger] out@[k]).same_as(self@.proposals[from_index + k]),
            decreases end - i,
        {
            let ghost before = out@;
            let idx = i as usize;
            out.push(self.proposals[idx].clone());
            assert(out@[out@.len() - 1] == out@.last());
            assert forall|k: int| 0 <= k < out@.len() implies (#[trigger] out@[k]).same_as(self@.proposals[from_index + k]) by {
                if k < before.len() {
                    assert(out@[k] == before[k]);
                }
            }
            i = i + 1;
        }
        out
    }

    /// Closes proposal `id` at time `now`: its status is computed once more
    /// and, when terminal, stored with its effects applied. Returns the
    /// transfers owed.
    pub fn finalize(&mut self, id: u64, now: u64) -> (r: Result<Vec<Transfer>, DaoError>)
        requires
            old(self).wf(),
        ensures
            final(self).wf(),
            match r {
                Ok(t) => {
                    &&& finalize_error(old(self)@, id, now) is None
                    &&& final(self)@ == old(self)@.finalized(id as int, now as int)
                    &&& transfers_view(t@) == old(self)@.outcome_transfers(
                        old(self)@.proposals[id as int],
                        old(self)@.status_now(id as int, now as int),
                    )
                },
                Err(e) => {
                    &&& finalize_error(old(self)@, id, now) == Some(e)
                    &&& final(self)@ == old(self)@
                },
            },
    {
        if id >= self.proposals.len() as u64 {
            return Err(DaoError::ProposalNotFound);
        }
        let i = id as usize;
        if self.proposals[i].status.is_finalized() {
            return Err(DaoError::AlreadyFinalized);
        }
        let num_council = self.council.len() as u64;
        let status = self.proposals[i].vote_status(&self.policy, num_council, now);
        if !status.is_finalized() {
            return Err(DaoError::FinalizeCalledOnOpenProposal);
        }
        let ghost old_view = self@;
        let ghost p = self.proposals@[i as int];
        assert(old_view.proposals[i as int].wf());
        let proposer = self.proposals[i].proposer.clone();
        let target = self.proposals[i].target.clone();
        self.proposals[i].status = status;
        assert(self@ == old_view.with_proposal(i as int, Proposal { status, ..p }));
        let mut transfers: Vec<Transfer> = Vec::new();
        match status {
            ProposalStatus::Success => {
                transfers.push(Transfer { receiver: proposer, amount: self.bond });
                match &self.proposals[i].kind {
                    ProposalKind::NewCouncil => {
                        if !contains_name(&self.council, &target) {
                            let ghost before = self.council@;
                            self.council.push(target);
                            proof {
                                assert(names(self.council@) =~= names(before).push(p.target@));
                            }
                        }
                    },
                    ProposalKind::RemoveCouncil => {
                        self.council = without_name(&self.council, &target);
                    },
                    ProposalKind::Payout { amount } => {
                        transfers.push(Transfer { receiver: target, amount: *amount });
                    },
                    ProposalKind::ChangeVotePeriod { vote_period } => {
                        self.vote_period = *vote_period;
                    },
                    ProposalKind::ChangeBond { bond } => {
                        self.bond = *bond;
                    },
                    ProposalKind::ChangePolicy { policy } => {
                        let new_policy = policy.clone();
                        assert(new_policy@ == policy@);
                        self.policy = new_policy;
                    },
                    ProposalKind::ChangePurpose { purpose } => {
                        self.purpose = purpose.clone();
                    },
                }
            },
            ProposalStatus::Fail => {
                transfers.push(Transfer { receiver: proposer, amount: self.bond });
            },
            _ => {},
        }
        proof {
            assert(transfers_view(transfers@) =~= old_view.outcome_transfers(p, status));
            assert(self@ =~= old_view.finalized(i as int, now as int));
        }
        Ok(transfers)
    }

    /// Records `caller`'s vote on proposal `id` at time `now`. A vote that
    /// arrives after the window closed is not recorded: the proposal is
    /// finalized instead. A vote that leaves the proposal open restarts its
    /// window with the grace period; one that decides it finalizes it.
    /// Returns the transfers owed.
    pub fn vote(&mut self, id: u64, vote: Vote, caller: &String, now: u64) -> (r: Result<Vec<Transfer>, DaoError>)
        requires
            old(self).wf(),
            now + old(self)@.grace_period <= u64::MAX,
        ensures
            final(self).wf(),
            final(self)@.proposals.len() == old(self)@.proposals.len(),
            forall|k: int|
                0 <= k < old(self)@.proposals.len() && k != id ==> final(self)@.proposals[k] == old(self)@.proposals[k],
            id < old(self)@.proposals.len() ==> tally(final(self)@.proposals[id as int]) <= tally(
                old(self)@.proposals[id as int],
            ) + if r is Ok { 1int } else { 0int },
            r is Err <==> vote_error(old(self)@, id, caller@, now) is Some,
            r matches Err(e) ==> vote_error(old(self)@, id, caller@, now) == Some(e) && final(self)@ == old(self)@,
            r is Ok && now > old(self)@.proposals[id as int].vote_period_end ==> {
                let st = old(self)@.status_now(id as int, now as int);
                &&& st.spec_is_finalized()
                &&& final(self)@ == old(self)@.finalized(id as int, now as int)
                &&& transfers_view(r->Ok_0@) == old(self)@.outcome_transfers(old(self)@.proposals[id as int], st)
            },
            r is Ok && now <= old(self)@.proposals[id as int].vote_period_end ==> {
                let p = old(self)@.proposals[id as int];
                let q = final(self)@.proposals[id as int];
                let st = q.spec_vote_status(old(self)@.policy, old(self)@.council.len() as int, now as int);
                &&& q.votes@ == p.votes@.push(Ballot { voter: *caller, vote })
                &&& q.vote_yes == p.vote_yes + if vote is Yes { 1int } else { 0int }
                &&& q.vote_no == p.vote_no + if vote is No { 1int } else { 0int }
                &&& q.proposer == p.proposer
                &&& q.target == p.target
                &&& q.description == p.description
                &&& q.kind == p.kind
                &&& q.status == status_of(
                    old(self)@.policy,
                    old(self)@.council.len() as int,
                    p.spec_amount(),
                    q.vote_yes as int,
                    q.vote_no as int,
                    p.vote_period_end as int,
                    now as int,
                )
                &&& if q.status.spec_is_finalized() {
                    &&& q.vote_period_end == p.vote_period_end
                    &&& final(self)@ == old(self)@.with_proposal(id as int, q).apply_outcome(p, q.status)
                    &&& transfers_view(r->Ok_0@) == old(self)@.outcome_transfers(p, q.status)
                } else {
                    &&& q.vote_period_end == now + old(self)@.grace_period
                    &&& final(self)@ == old(self)@.with_proposal(id as int, q)
                    &&& r->Ok_0@.len() == 0
                }
            },
    {
        if !contains_name(&self.council, caller) {
            return Err(DaoError::NotCouncilMember);
        }
        if id >= self.proposals.len() as u64 {
            return Err(DaoError::ProposalNotFound);
        }
        let i = id as usize;
        if self.proposals[i].status != ProposalStatus::Vote {
            return Err(DaoError::AlreadyFinalized);
        }
        if now > self.proposals[i].vote_period_end {
            return self.finalize(id, now);
        }
        let ghost old_view = self@;
        assert(old_view.proposals[i as int].wf());
        if has_ballot(&self.proposals[i].votes, caller) {
            return Err(DaoError::AlreadyVoted);
        }
        self.proposals[i].record_vote(caller, vote);
        let num_council = self.council.len() as u64;
        let post_status = self.proposals[i].vote_status(&self.policy, num_council, now);
        if !post_status.is_finalized() {
            self.proposals[i].vote_period_end = now + self.grace_period;
            self.proposals[i].status = post_status;
            proof {
                assert(self@.proposals =~= old_view.proposals.update(i as int, self@.proposals[i as int]));
                assert(self@ == old_view.with_proposal(i as int, self@.proposals[i as int]));
            }
            Ok(Vec::new())
        } else {
            let ghost mid = self@;
            proof {
                assert(mid.proposals =~= old_view.proposals.update(i as int, mid.proposals[i as int]));
                assert(mid == old_view.with_proposal(i as int, mid.proposals[i as int]));
                assert forall|k: int| 0 <= k < mid.proposals.len() implies (#[trigger] mid.proposals[k]).wf()
                    && kind_wf(mid.proposals[k].kind) by {
                    if k != i {
                        assert(mid.proposals[k] == old_view.proposals[k]);
                    }
                }
            }
            let r = self.finalize(id, now);
            proof {
                let q = self@.proposals[i as int];
                assert(mid.proposals.update(i as int, Proposal { status: post_status, ..mid.proposals[i as int] }) =~=
                    old_view.proposals.update(i as int, q));
            }
            r
        }
    }
}

/// Whether `who` has a ballot among `votes`.
fn has_ballot(votes: &Vec<Ballot>, who: &String) -> (r: bool)
    ensures
        r == voters_of(votes@).contains(who@),
{
    let mut i: usize = 0;
    while i < votes.len()
        invariant
            i <= votes.len(),
            forall|k: int| 0 <= k < i ==> (#[trigger] votes@[k]).voter@ != who@,
        decreases votes.len() - i,
    {
        if votes[i].voter == *who {
            assert(voters_of(votes@)[i as int] == who@);
            return true;
        }
        i = i + 1;
    }
    proof {
        if voters_of(votes@).contains(who@) {
            let k = choose|k: int| 0 <= k < voters_of(votes@).len() && voters_of(votes@)[k] == who@;
            assert(votes@[k].voter@ == who@);
        }
    }
    false
}

} // verus!
