use vstd::prelude::*;

verus! {

/// How many votes a policy tier asks for: a fixed count, or a fraction of
/// the council (`Ratio(numerator, denominator)`).
#[derive(Clone, Copy, Debug, PartialEq, Eq, Structural)]
pub enum NumOrRatio {
    Number(u64),
    Ratio(u64, u64),
}

/// Votes asked by `Ratio(l, r)` on a council of `n`: more than `l / r` of
/// the council, by floor division plus one, and never more than the council.
pub open spec fn ratio_votes(n: int, l: int, r: int) -> int {
    if n * l / r + 1 < n {
        n * l / r + 1
    } else {
        n
    }
}

impl NumOrRatio {
    /// A ratio needs a positive denominator.
    pub open spec fn wf(self) -> bool {
        match self {
            NumOrRatio::Number(_) => true,
            NumOrRatio::Ratio(_, r) => r > 0,
        }
    }

    pub open spec fn spec_num_votes(self, num_council: int) -> int {
        match self {
            NumOrRatio::Number(n) => n as int,
            NumOrRatio::Ratio(l, r) => ratio_votes(num_council, l as int, r as int),
        }
    }
}

/// A policy tier: the votes that approve a payout below `max_amount`.
#[derive(Clone, Copy, Debug, PartialEq, Eq, Structural)]
pub struct PolicyItem {
    pub max_amount: u128,
    pub votes: NumOrRatio,
}

impl PolicyItem {
    pub open spec fn spec_num_votes(self, num_council: int) -> int {
        self.votes.spec_num_votes(num_council)
    }

    /// Votes this tier requires on a council of `num_council` members.
    pub fn num_votes(&self, num_council: u64) -> (r: u64)
        requires
            self.votes.wf(),
        ensures
            r == self.spec_num_votes(num_council as int),
    {
        match self.votes {
            NumOrRatio::Number(num_votes) => num_votes,
            NumOrRatio::Ratio(l, r) => {
                let n = num_council as u128;
                assert(n * (l as u128) <= 0xffff_ffff_ffff_fffe_0000_0000_0000_0001u128) by (nonlinear_arith)
                    requires
                        n <= 0xffff_ffff_ffff_ffffu128,
                        l <= 0xffff_ffff_ffff_ffffu64,
                ;
                let prod = n * (l as u128);
                let q = prod / (r as u128);
                assert(q <= prod) by (nonlinear_arith)
                    requires
                        r > 0,
                        q == prod as int / r as int,
                        prod >= 0,
                ;
                if q + 1 < n {
                    (q + 1) as u64
                } else {
                    num_council
                }
            },
        }
    }
}

/// A policy is usable when it has a catch-all tier and every ratio in it has
/// a positive denominator.
pub open spec fn policy_wf(policy: Seq<PolicyItem>) -> bool {
    &&& policy.len() > 0
    &&& forall|i: int| 0 <= i < policy.len() ==> (#[trigger] policy[i]).votes.wf()
}

/// Tiers must be listed by strictly increasing `max_amount`.
pub open spec fn policy_sorted(policy: Seq<PolicyItem>) -> bool {
    forall|i: int| 1 <= i < policy.len() ==> policy[i - 1].max_amount < #[trigger] policy[i].max_amount
}

/// Index of the tier that governs `amount`: the first tier at or after
/// `from` whose `max_amount` exceeds it, else the last (catch-all) tier.
pub open spec fn tier_from(policy: Seq<PolicyItem>, amount: u128, from: int) -> int
    decreases policy.len() - from,
{
    if from >= policy.len() {
        policy.len() - 1
    } else if policy[from].max_amount > amount {
        from
    } else {
        tier_from(policy, amount, from + 1)
    }
}

/// Index of the tier that governs a proposal: by amount for a payout, the
/// catch-all tier for any other proposal.
pub open spec fn tier_index(policy: Seq<PolicyItem>, amount: Option<u128>) -> int {
    match amount {
        Some(a) => tier_from(policy, a, 0),
        None => policy.len() - 1,
    }
}

/// Votes needed to pass a proposal for `amount` on a council of `num_council`.
pub open spec fn required_votes(policy: Seq<PolicyItem>, num_council: int, amount: Option<u128>) -> int {
    policy[tier_index(policy, amount)].spec_num_votes(num_council)
}

/// Votes of the catch-all tier: enough to decide a proposal at once.
pub open spec fn max_votes(policy: Seq<PolicyItem>, num_council: int) -> int {
    policy[policy.len() - 1].spec_num_votes(num_council)
}

/// Looks up the tier that governs `amount` and returns its vote requirement.
pub fn vote_requirement(policy: &Vec<PolicyItem>, num_council: u64, amount: Option<u128>) -> (r: u64)
    requires
        policy_wf(policy@),
    ensures
        r == required_votes(policy@, num_council as int, amount),
{
    if let Some(a) = amount {
        let mut i: usize = 0;
        while i < policy.len()
            invariant
                policy_wf(policy@),
                0 <= i <= policy.len(),
                amount == Some(a),
                tier_from(policy@, a, i as int) == tier_from(policy@, a, 0),
            decreases policy.len() - i,
        {
            if policy[i].max_amount > a {
                assert(tier_from(policy@, a, i as int) == i);
                return policy[i].num_votes(num_council);
            }
            i = i + 1;
        }
        assert(tier_from(policy@, a, i as int) == policy.len() - 1);
    }
    policy[policy.len() - 1].num_votes(num_council)
}

} // verus!
