use sputnikdao::policy::vote_requirement;
use sputnikdao::{
    DaoError, NumOrRatio, PolicyItem, ProposalInput, ProposalKind, ProposalStatus, SputnikDAO,
    Transfer, Vote,
};

fn x() -> String {
    "x".to_string()
}
fn y() -> String {
    "y".to_string()
}
fn z() -> String {
    "z".to_string()
}

fn two_member_dao() -> SputnikDAO {
    SputnikDAO::new("purpose".to_string(), vec![x(), y()], 10, 1000, 10)
}

fn submit(dao: &mut SputnikDAO, target: String, kind: ProposalKind) -> u64 {
    let input = ProposalInput { target, description: "d".to_string(), kind };
    dao.add_proposal(input, z(), 0, 10).unwrap()
}

fn tiered_policy() -> Vec<PolicyItem> {
    vec![
        PolicyItem { max_amount: 100, votes: NumOrRatio::Number(1) },
        PolicyItem { max_amount: 1_000_000, votes: NumOrRatio::Ratio(1, 1) },
    ]
}

#[test]
fn ratio_rule_values() {
    let half = PolicyItem { max_amount: 0, votes: NumOrRatio::Ratio(1, 2) };
    assert_eq!(half.num_votes(1), 1);
    assert_eq!(half.num_votes(2), 2);
    assert_eq!(half.num_votes(3), 2);
    assert_eq!(half.num_votes(10), 6);
    let third = PolicyItem { max_amount: 0, votes: NumOrRatio::Ratio(1, 3) };
    assert_eq!(third.num_votes(7), 3);
    let all = PolicyItem { max_amount: 0, votes: NumOrRatio::Ratio(1, 1) };
    assert_eq!(all.num_votes(5), 5);
    let fixed = PolicyItem { max_amount: 0, votes: NumOrRatio::Number(4) };
    assert_eq!(fixed.num_votes(2), 4);
    let big = PolicyItem { max_amount: 0, votes: NumOrRatio::Ratio(u64::MAX, 1) };
    assert_eq!(big.num_votes(u64::MAX), u64::MAX);
}

#[test]
fn tier_lookup_by_amount() {
    let policy = tiered_policy();
    assert_eq!(vote_requirement(&policy, 2, Some(10)), 1);
    assert_eq!(vote_requirement(&policy, 2, Some(100)), 2);
    assert_eq!(vote_requirement(&policy, 2, Some(2_000_000)), 2);
    assert_eq!(vote_requirement(&policy, 2, None), 2);
}

#[test]
fn tally_stays_within_council() {
    let mut dao = two_member_dao();
    let id = submit(&mut dao, z(), ProposalKind::Payout { amount: 10 });
    dao.vote(id, Vote::No, &x(), 0).unwrap();
    assert_eq!(dao.vote(id, Vote::Yes, &x(), 0), Err(DaoError::AlreadyVoted));
    let p = dao.get_proposal(id).unwrap();
    assert_eq!(p.vote_yes + p.vote_no, 1);
    dao.vote(id, Vote::Yes, &y(), 0).unwrap();
    let p = dao.get_proposal(id).unwrap();
    assert_eq!(p.vote_yes + p.vote_no, 2);
    assert!(p.vote_yes + p.vote_no <= dao.get_council().len() as u64);
}

#[test]
fn finalize_twice_is_refused() {
    let mut dao = two_member_dao();
    let id = submit(&mut dao, z(), ProposalKind::NewCouncil);
    dao.finalize(id, 1001).unwrap();
    assert_eq!(dao.get_proposal(id).unwrap().status, ProposalStatus::Fail);
    assert_eq!(dao.finalize(id, 1002), Err(DaoError::AlreadyFinalized));
    assert_eq!(dao.get_council(), vec![x(), y()]);
}

#[test]
fn vote_on_closed_proposal_is_refused() {
    let mut dao = two_member_dao();
    let id = submit(&mut dao, z(), ProposalKind::NewCouncil);
    dao.vote(id, Vote::No, &x(), 0).unwrap();
    dao.vote(id, Vote::No, &y(), 0).unwrap();
    assert_eq!(dao.get_proposal(id).unwrap().status, ProposalStatus::Reject);
    assert_eq!(dao.vote(id, Vote::Yes, &x(), 0), Err(DaoError::AlreadyFinalized));
    assert_eq!(dao.get_proposal(id).unwrap().status, ProposalStatus::Reject);
}

#[test]
fn scenario_split_vote_fails() {
    let mut dao = two_member_dao();
    let id = submit(&mut dao, z(), ProposalKind::Payout { amount: 10 });
    assert_eq!(dao.vote(id, Vote::No, &x(), 0), Ok(vec![]));
    let transfers = dao.vote(id, Vote::Yes, &y(), 0).unwrap();
    let p = dao.get_proposal(id).unwrap();
    assert_eq!((p.vote_yes, p.vote_no), (1, 1));
    assert_eq!(p.status, ProposalStatus::Fail);
    assert_eq!(transfers, vec![Transfer { receiver: z(), amount: 10 }]);
}

#[test]
fn scenario_new_member_added() {
    let mut dao = two_member_dao();
    let id = submit(&mut dao, z(), ProposalKind::NewCouncil);
    assert_eq!(dao.vote(id, Vote::Yes, &x(), 0), Ok(vec![]));
    assert_eq!(dao.get_proposal(id).unwrap().status, ProposalStatus::Vote);
    let transfers = dao.vote(id, Vote::Yes, &y(), 0).unwrap();
    assert_eq!(dao.get_proposal(id).unwrap().status, ProposalStatus::Success);
    assert_eq!(dao.get_council(), vec![x(), y(), z()]);
    assert_eq!(transfers, vec![Transfer { receiver: z(), amount: 10 }]);
}

#[test]
fn scenario_delay_then_success() {
    let mut dao = two_member_dao();
    let id = submit(&mut dao, z(), ProposalKind::ChangePolicy { policy: tiered_policy() });
    dao.vote(id, Vote::Yes, &x(), 0).unwrap();
    dao.vote(id, Vote::Yes, &y(), 0).unwrap();
    assert_eq!(dao.get_proposal(id).unwrap().status, ProposalStatus::Success);

    let id = submit(&mut dao, z(), ProposalKind::Payout { amount: 10 });
    assert_eq!(dao.vote(id, Vote::Yes, &x(), 5), Ok(vec![]));
    let p = dao.get_proposal(id).unwrap();
    assert_eq!(p.status, ProposalStatus::Delay);
    assert_eq!(p.vote_period_end, 15);
    assert_eq!(dao.finalize(id, 15), Err(DaoError::FinalizeCalledOnOpenProposal));
    let transfers = dao.finalize(id, 16).unwrap();
    assert_eq!(dao.get_proposal(id).unwrap().status, ProposalStatus::Success);
    assert_eq!(
        transfers,
        vec![Transfer { receiver: z(), amount: 10 }, Transfer { receiver: z(), amount: 10 }]
    );
}

#[test]
fn scenario_unsorted_policy_refused() {
    let mut dao = two_member_dao();
    let policy = vec![
        PolicyItem { max_amount: 100, votes: NumOrRatio::Number(1) },
        PolicyItem { max_amount: 5, votes: NumOrRatio::Number(1) },
    ];
    let input = ProposalInput {
        target: z(),
        description: "policy".to_string(),
        kind: ProposalKind::ChangePolicy { policy },
    };
    assert_eq!(dao.add_proposal(input, z(), 0, 10), Err(DaoError::UnsortedPolicy));
    assert_eq!(dao.get_num_proposals(), 0);
}

#[test]
fn submission_errors() {
    let mut dao = two_member_dao();
    let input = ProposalInput { target: z(), description: "d".to_string(), kind: ProposalKind::NewCouncil };
    assert_eq!(dao.add_proposal(input, z(), 0, 9), Err(DaoError::InsufficientDeposit));
    let input = ProposalInput { target: z(), description: "a".repeat(280), kind: ProposalKind::NewCouncil };
    assert_eq!(dao.add_proposal(input, z(), 0, 10), Err(DaoError::DescriptionTooLong));
    let input = ProposalInput { target: z(), description: "é".repeat(279), kind: ProposalKind::NewCouncil };
    assert_eq!(dao.add_proposal(input, z(), 0, 10), Ok(0));
    let input = ProposalInput {
        target: z(),
        description: "d".to_string(),
        kind: ProposalKind::ChangePolicy { policy: vec![] },
    };
    assert_eq!(dao.add_proposal(input, z(), 0, 10), Err(DaoError::InvalidPolicy));
    let input = ProposalInput {
        target: z(),
        description: "d".to_string(),
        kind: ProposalKind::ChangePolicy {
            policy: vec![PolicyItem { max_amount: 1, votes: NumOrRatio::Ratio(1, 0) }],
        },
    };
    assert_eq!(dao.add_proposal(input, z(), 0, 10), Err(DaoError::InvalidPolicy));
    assert_eq!(dao.get_num_proposals(), 1);
}

#[test]
fn vote_and_finalize_errors() {
    let mut dao = two_member_dao();
    assert_eq!(dao.vote(0, Vote::Yes, &x(), 0), Err(DaoError::ProposalNotFound));
    assert_eq!(dao.finalize(0, 0), Err(DaoError::ProposalNotFound));
    assert!(dao.get_proposal(0).is_err());
    let id = submit(&mut dao, z(), ProposalKind::NewCouncil);
    assert_eq!(dao.vote(id, Vote::Yes, &z(), 0), Err(DaoError::NotCouncilMember));
    assert_eq!(dao.finalize(id, 0), Err(DaoError::FinalizeCalledOnOpenProposal));
    assert_eq!(dao.get_proposal(id).unwrap().status, ProposalStatus::Vote);
}

#[test]
fn late_vote_finalizes_instead() {
    let mut dao = two_member_dao();
    let id = submit(&mut dao, z(), ProposalKind::NewCouncil);
    let transfers = dao.vote(id, Vote::Yes, &x(), 1001).unwrap();
    let p = dao.get_proposal(id).unwrap();
    assert_eq!(p.status, ProposalStatus::Fail);
    assert_eq!(p.vote_yes, 0);
    assert_eq!(transfers, vec![Transfer { receiver: z(), amount: 10 }]);
}

#[test]
fn reject_forfeits_bond() {
    let mut dao = two_member_dao();
    let id = submit(&mut dao, z(), ProposalKind::Payout { amount: 50 });
    dao.vote(id, Vote::No, &x(), 0).unwrap();
    let transfers = dao.vote(id, Vote::No, &y(), 0).unwrap();
    assert_eq!(dao.get_proposal(id).unwrap().status, ProposalStatus::Reject);
    assert!(transfers.is_empty());
}

#[test]
fn settings_changes_apply_on_success() {
    let mut dao = two_member_dao();
    let kinds = vec![
        ProposalKind::ChangeBond { bond: 5 },
        ProposalKind::ChangeVotePeriod { vote_period: 77 },
        ProposalKind::ChangePurpose { purpose: "new purpose".to_string() },
        ProposalKind::RemoveCouncil,
    ];
    for kind in kinds {
        let id = submit(&mut dao, x(), kind);
        dao.vote(id, Vote::Yes, &x(), 0).unwrap();
        dao.vote(id, Vote::Yes, &y(), 0).unwrap();
        assert_eq!(dao.get_proposal(id).unwrap().status, ProposalStatus::Success);
    }
    assert_eq!(dao.get_bond(), 5);
    assert_eq!(dao.get_vote_period(), 77);
    assert_eq!(dao.get_purpose(), "new purpose");
    assert_eq!(dao.get_council(), vec![y()]);
}

#[test]
fn founding_council_is_deduplicated() {
    let dao = SputnikDAO::new("p".to_string(), vec![x(), y(), x()], 1, 2, 3);
    assert_eq!(dao.get_council(), vec![x(), y()]);
    assert_eq!(dao.get_num_proposals(), 0);
}

#[test]
fn proposal_pages_are_clamped() {
    let mut dao = two_member_dao();
    for _ in 0..3 {
        submit(&mut dao, z(), ProposalKind::NewCouncil);
    }
    assert_eq!(dao.get_proposals(0, 10).len(), 3);
    assert_eq!(dao.get_proposals(1, 1).len(), 1);
    assert_eq!(dao.get_proposals(2, u64::MAX).len(), 1);
    assert_eq!(dao.get_proposals(5, 1).len(), 0);
}

#[test]
fn status_is_finalized() {
    assert!(ProposalStatus::Success.is_finalized());
    assert!(ProposalStatus::Reject.is_finalized());
    assert!(ProposalStatus::Fail.is_finalized());
    assert!(!ProposalStatus::Vote.is_finalized());
    assert!(!ProposalStatus::Delay.is_finalized());
}
