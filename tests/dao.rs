use sputnikdao::blobs::compute_storage_bond;
use sputnikdao::bounties::Bounty;
use sputnikdao::policy::{
    required_votes_exec, threshold_met, Permission, Policy, RoleKind, RolePermission, Threshold,
    VotePolicy,
};
use sputnikdao::proposals::{ProposalInput, ProposalKind, ProposalStatus};
use sputnikdao::types::{Action, Config, DaoError, BASE_TOKEN};
use sputnikdao::Contract;

const ONE_NEAR: u128 = 1_000_000_000_000_000_000_000_000;
const EIGHT_DAYS: u64 = 1_000_000_000 * 24 * 60 * 60 * 8;

fn acc(name: &str) -> String {
    name.to_string()
}

fn transfer_input() -> ProposalInput {
    ProposalInput {
        description: "test".to_string(),
        kind: ProposalKind::Transfer {
            token_id: BASE_TOKEN.to_string(),
            receiver_id: acc("charlie"),
            amount: 100 * ONE_NEAR,
        },
    }
}

fn create_proposal(contract: &mut Contract, now: u64) -> u64 {
    contract.add_proposal(&acc("bob"), now, ONE_NEAR, transfer_input()).unwrap()
}

fn council_policy(members: &[&str], quorum: u64, threshold: Threshold) -> Policy {
    Policy {
        roles: vec![
            RolePermission {
                name: "all".to_string(),
                kind: RoleKind::Everyone,
                permissions: vec![Permission { kind: None, action: Some(Action::AddProposal) }],
            },
            RolePermission {
                name: "council".to_string(),
                kind: RoleKind::Group(members.iter().map(|m| m.to_string()).collect()),
                permissions: vec![Permission { kind: None, action: None }],
            },
        ],
        default_vote_policy: VotePolicy { quorum, threshold },
        vote_policies: vec![],
    }
}

fn bounty(max_claims: u32, deadline_duration: u64) -> Bounty {
    Bounty {
        description: "fix".to_string(),
        token: BASE_TOKEN.to_string(),
        amount: 5 * ONE_NEAR,
        max_claims,
        deadline_duration,
    }
}

fn contract_with_bounty(max_claims: u32, deadline_duration: u64) -> Contract {
    let mut c = Contract::new(Config::test_config(), None);
    let input = ProposalInput {
        description: "bounty".to_string(),
        kind: ProposalKind::AddBounty { bounty: bounty(max_claims, deadline_duration) },
    };
    let id = c.add_proposal(&acc("bob"), 0, ONE_NEAR, input).unwrap();
    c.act_proposal(&acc("bob"), 0, id, Action::VoteApprove).unwrap();
    assert_eq!(c.bounties.len(), 1);
    c
}

#[test]
fn test_basics() {
    let mut contract = Contract::new(Config::test_config(), None);
    let id = create_proposal(&mut contract, 0);
    assert_eq!(contract.get_proposal(id).unwrap().description, "test");
    contract.act_proposal(&acc("bob"), 0, id, Action::RemoveProposal).unwrap();
    assert_eq!(contract.get_proposals(0, 10).len(), 0);

    let id = create_proposal(&mut contract, 0);
    contract.act_proposal(&acc("bob"), 0, id, Action::VoteApprove).unwrap();
    assert_eq!(contract.get_proposal(id).unwrap().status, ProposalStatus::Approved);

    let id = create_proposal(&mut contract, 0);
    // proposal expired, finalize.
    contract.act_proposal(&acc("bob"), EIGHT_DAYS, id, Action::Finalize).unwrap();
    assert_eq!(contract.get_proposal(id).unwrap().status, ProposalStatus::Expired);
}

#[test]
fn test_vote_expired_proposal() {
    let mut contract = Contract::new(Config::test_config(), None);
    let id = create_proposal(&mut contract, 0);
    let r = contract.act_proposal(&acc("bob"), EIGHT_DAYS, id, Action::VoteApprove);
    assert_eq!(r.unwrap_err(), DaoError::AlreadyTerminal);
    assert_eq!(contract.get_proposal(id).unwrap().status, ProposalStatus::InProgress);
}

#[test]
fn approve_executes_transfer_once() {
    let mut c = Contract::new(Config::test_config(), None);
    let id = create_proposal(&mut c, 0);
    assert_eq!(c.locked_amount, ONE_NEAR);
    let out = c.act_proposal(&acc("bob"), 10, id, Action::VoteApprove).unwrap();
    assert_eq!(out.len(), 2);
    assert_eq!(out[0].receiver_id, "charlie");
    assert_eq!(out[0].amount, 100 * ONE_NEAR);
    assert_eq!(out[1].receiver_id, "bob");
    assert_eq!(out[1].amount, ONE_NEAR);
    assert_eq!(c.locked_amount, 0);
    let again = c.act_proposal(&acc("alice"), 20, id, Action::VoteApprove);
    assert_eq!(again.unwrap_err(), DaoError::AlreadyTerminal);
    assert_eq!(c.get_proposal(id).unwrap().status, ProposalStatus::Approved);
}

#[test]
fn finalize_then_vote_is_terminal() {
    let mut c = Contract::new(Config::test_config(), None);
    let id = create_proposal(&mut c, 0);
    let early = c.act_proposal(&acc("bob"), 5, id, Action::Finalize);
    assert_eq!(early.unwrap_err(), DaoError::PermissionDenied);
    let out = c.act_proposal(&acc("alice"), EIGHT_DAYS, id, Action::Finalize).unwrap();
    assert_eq!(out.len(), 1);
    assert_eq!(out[0].receiver_id, "bob");
    assert_eq!(c.get_proposal(id).unwrap().status, ProposalStatus::Expired);
    assert_eq!(c.locked_amount, 0);
    let r = c.act_proposal(&acc("bob"), EIGHT_DAYS + 1, id, Action::VoteApprove);
    assert_eq!(r.unwrap_err(), DaoError::AlreadyTerminal);
}

#[test]
fn second_vote_is_rejected() {
    let policy = council_policy(&["alice", "bob", "carol"], 0, Threshold::Ratio(1, 2));
    let mut c = Contract::new(Config::test_config(), Some(policy));
    let id = create_proposal(&mut c, 0);
    let out = c.act_proposal(&acc("alice"), 1, id, Action::VoteApprove).unwrap();
    assert!(out.is_empty());
    let r = c.act_proposal(&acc("alice"), 2, id, Action::VoteApprove);
    assert_eq!(r.unwrap_err(), DaoError::AlreadyVoted);
    let p = c.get_proposal(id).unwrap();
    assert_eq!(p.votes.len(), 1);
    assert_eq!(p.status, ProposalStatus::InProgress);
    c.act_proposal(&acc("bob"), 3, id, Action::VoteApprove).unwrap();
    assert_eq!(c.get_proposal(id).unwrap().status, ProposalStatus::Approved);
}

#[test]
fn outsider_cannot_vote() {
    let policy = council_policy(&["alice"], 0, Threshold::Ratio(1, 2));
    let mut c = Contract::new(Config::test_config(), Some(policy));
    let id = create_proposal(&mut c, 0);
    let r = c.act_proposal(&acc("mallory"), 1, id, Action::VoteApprove);
    assert_eq!(r.unwrap_err(), DaoError::PermissionDenied);
    let r = c.act_proposal(&acc("mallory"), 1, id, Action::RemoveProposal);
    assert_eq!(r.unwrap_err(), DaoError::PermissionDenied);
    let r = c.act_proposal(&acc("bob"), 1, id, Action::AddProposal);
    assert_eq!(r.unwrap_err(), DaoError::PermissionDenied);
    let r = c.act_proposal(&acc("alice"), 1, 7, Action::VoteApprove);
    assert_eq!(r.unwrap_err(), DaoError::NotFound);
}

#[test]
fn vote_reject_refunds_and_vote_remove_forfeits() {
    let policy = council_policy(&["alice"], 0, Threshold::Ratio(1, 2));
    let mut c = Contract::new(Config::test_config(), Some(policy));
    let a = create_proposal(&mut c, 0);
    let b = create_proposal(&mut c, 0);
    assert_eq!(c.locked_amount, 2 * ONE_NEAR);
    let out = c.act_proposal(&acc("alice"), 1, a, Action::VoteReject).unwrap();
    assert_eq!(out.len(), 1);
    assert_eq!(out[0].amount, ONE_NEAR);
    assert_eq!(c.get_proposal(a).unwrap().status, ProposalStatus::Rejected);
    let out = c.act_proposal(&acc("alice"), 1, b, Action::VoteRemove).unwrap();
    assert!(out.is_empty());
    assert_eq!(c.get_proposal(b).unwrap().status, ProposalStatus::Removed);
    assert_eq!(c.locked_amount, 0);
}

#[test]
fn proposal_needs_bond() {
    let mut c = Contract::new(Config::test_config(), None);
    let r = c.add_proposal(&acc("bob"), 0, ONE_NEAR - 1, transfer_input());
    assert_eq!(r.unwrap_err(), DaoError::InsufficientDeposit);
    assert_eq!(c.last_proposal_id, 0);
    assert_eq!(c.locked_amount, 0);
}

#[test]
fn add_member_proposal() {
    let policy = council_policy(&["alice"], 0, Threshold::Ratio(1, 2));
    let mut c = Contract::new(Config::test_config(), Some(policy));
    let input = ProposalInput {
        description: "grow".to_string(),
        kind: ProposalKind::AddMemberToRole { member_id: acc("bob"), role: "council".to_string() },
    };
    let id = c.add_proposal(&acc("alice"), 0, ONE_NEAR, input).unwrap();
    c.act_proposal(&acc("alice"), 1, id, Action::VoteApprove).unwrap();
    assert!(c.policy.can_act(&acc("bob"), sputnikdao::policy::KindLabel::Transfer, Action::VoteApprove));
    assert_eq!(c.policy.council_size_of(sputnikdao::policy::KindLabel::Transfer), 2);
}

#[test]
fn failed_payload_leaves_proposal_open() {
    let policy = council_policy(&["alice"], 0, Threshold::Ratio(1, 2));
    let mut c = Contract::new(Config::test_config(), Some(policy));
    let input = ProposalInput {
        description: "grow".to_string(),
        kind: ProposalKind::AddMemberToRole { member_id: acc("bob"), role: "nobody".to_string() },
    };
    let id = c.add_proposal(&acc("alice"), 0, ONE_NEAR, input).unwrap();
    let r = c.act_proposal(&acc("alice"), 1, id, Action::VoteApprove);
    assert_eq!(r.unwrap_err(), DaoError::NotFound);
    let p = c.get_proposal(id).unwrap();
    assert_eq!(p.status, ProposalStatus::InProgress);
    assert!(p.votes.is_empty());
    assert_eq!(c.locked_amount, ONE_NEAR);
}

#[test]
fn threshold_formulas() {
    let half = VotePolicy { quorum: 0, threshold: Threshold::Ratio(1, 2) };
    assert_eq!(required_votes_exec(half, 3), 2);
    assert_eq!(required_votes_exec(half, 4), 3);
    assert_eq!(required_votes_exec(half, 1), 1);
    assert_eq!(required_votes_exec(half, 0), 0);
    let quorum = VotePolicy { quorum: 5, threshold: Threshold::Ratio(1, 2) };
    assert_eq!(required_votes_exec(quorum, 4), 5);
    let fixed = VotePolicy { quorum: 0, threshold: Threshold::Weight(3) };
    assert_eq!(required_votes_exec(fixed, 100), 3);
    assert!(threshold_met(fixed, 100, 3));
    assert!(!threshold_met(fixed, 100, 2));
}

#[test]
fn listing_pages() {
    let mut c = Contract::new(Config::test_config(), None);
    for _ in 0..5 {
        create_proposal(&mut c, 0);
    }
    c.act_proposal(&acc("bob"), 0, 1, Action::RemoveProposal).unwrap();
    assert_eq!(c.get_proposals(0, 10).len(), 4);
    assert_eq!(c.get_proposals(0, 2).len(), 1);
    assert_eq!(c.get_proposals(3, 10).len(), 2);
    assert_eq!(c.get_proposals(9, 10).len(), 0);
    assert!(c.get_proposal(5).is_none());
}

#[test]
fn blob_store_and_remove() {
    let mut c = Contract::new(Config::test_config(), None);
    let content = vec![7u8; 100];
    let hash = vec![1u8; 32];
    let cost: u128 = 10_000_000_000_000_000_000;
    let bond = (100 + 32) * cost;
    assert_eq!(compute_storage_bond(100, cost), Some(bond));
    let h = c.store_blob(&acc("alice"), content.clone(), hash.clone(), bond, cost).unwrap();
    assert_eq!(h, hash);
    assert_eq!(c.locked_amount, bond);
    let r = c.remove_blob(&acc("bob"), &hash);
    assert_eq!(r.unwrap_err(), DaoError::NotOwner);
    let t = c.remove_blob(&acc("alice"), &hash).unwrap();
    assert_eq!(t.receiver_id, "alice");
    assert_eq!(t.amount, bond);
    assert_eq!(c.locked_amount, 0);
    assert!(c.blobs.is_empty());
    let r = c.remove_blob(&acc("alice"), &hash);
    assert_eq!(r.unwrap_err(), DaoError::NotFound);
}

#[test]
fn blob_round_trip_restores_ledger() {
    let mut c = Contract::new(Config::test_config(), None);
    create_proposal(&mut c, 0);
    let before = c.locked_amount;
    let hash = vec![9u8; 32];
    c.store_blob(&acc("alice"), vec![1, 2, 3], hash.clone(), 1000, 10).unwrap();
    let stored = c.locked_amount;
    assert_eq!(stored, before + 350);
    c.remove_blob(&acc("alice"), &hash).unwrap();
    assert_eq!(c.locked_amount, before);
    c.store_blob(&acc("alice"), vec![1, 2, 3], hash.clone(), 1000, 10).unwrap();
    assert_eq!(c.locked_amount, stored);
}

#[test]
fn blob_duplicate_and_deposit() {
    let mut c = Contract::new(Config::test_config(), None);
    let hash = vec![3u8; 32];
    let r = c.store_blob(&acc("alice"), vec![0; 8], hash.clone(), 399, 10);
    assert_eq!(r.unwrap_err(), DaoError::InsufficientDeposit);
    assert_eq!(c.locked_amount, 0);
    c.store_blob(&acc("alice"), vec![0; 8], hash.clone(), 400, 10).unwrap();
    let r = c.store_blob(&acc("bob"), vec![0; 8], hash.clone(), 400, 10);
    assert_eq!(r.unwrap_err(), DaoError::AlreadyExists);
    assert_eq!(c.locked_amount, 400);
    assert_eq!(c.blobs.len(), 1);
    assert_eq!(c.blobs[0].owner, "alice");
    let r = c.store_blob(&acc("bob"), vec![0; 8], vec![4u8; 32], u128::MAX, u128::MAX);
    assert_eq!(r.unwrap_err(), DaoError::InsufficientDeposit);
}

#[test]
fn bounty_claim_limit() {
    let mut c = contract_with_bounty(1, 100);
    c.claim_bounty(&acc("alice"), 10, 0).unwrap();
    assert_eq!(c.get_active_claims(0, 10), 1);
    let r = c.claim_bounty(&acc("bob"), 50, 0);
    assert_eq!(r.unwrap_err(), DaoError::ClaimLimitReached);
    assert_eq!(c.get_active_claims(0, 111), 0);
    c.claim_bounty(&acc("bob"), 111, 0).unwrap();
    assert_eq!(c.get_active_claims(0, 111), 1);
    assert_eq!(c.get_bounty_claims(&acc("bob")).len(), 1);
    let r = c.claim_bounty(&acc("bob"), 111, 4);
    assert_eq!(r.unwrap_err(), DaoError::NotFound);
}

#[test]
fn bounty_completion() {
    let mut c = contract_with_bounty(2, 100);
    c.claim_bounty(&acc("alice"), 10, 0).unwrap();
    c.claim_bounty(&acc("bob"), 10, 0).unwrap();
    let r = c.bounty_done(&acc("carol"), 20, 0);
    assert_eq!(r.unwrap_err(), DaoError::NotClaimer);
    let t = c.bounty_done(&acc("alice"), 20, 0).unwrap();
    assert_eq!(t.receiver_id, "alice");
    assert_eq!(t.amount, 5 * ONE_NEAR);
    assert_eq!(c.get_active_claims(0, 20), 1);
    let r = c.bounty_done(&acc("bob"), 200, 0);
    assert_eq!(r.unwrap_err(), DaoError::DeadlineExceeded);
    let r = c.bounty_done(&acc("bob"), 20, 3);
    assert_eq!(r.unwrap_err(), DaoError::NotFound);
}

#[test]
fn remove_member_proposal() {
    let policy = council_policy(&["alice", "bob"], 0, Threshold::Weight(1));
    let mut c = Contract::new(Config::test_config(), Some(policy));
    let input = ProposalInput {
        description: "shrink".to_string(),
        kind: ProposalKind::RemoveMemberFromRole {
            member_id: acc("bob"),
            role: "council".to_string(),
        },
    };
    let id = c.add_proposal(&acc("alice"), 0, ONE_NEAR, input).unwrap();
    c.act_proposal(&acc("alice"), 1, id, Action::VoteApprove).unwrap();
    assert_eq!(c.get_proposal(id).unwrap().status, ProposalStatus::Approved);
    assert!(!c.policy.can_act(&acc("bob"), sputnikdao::policy::KindLabel::Transfer, Action::VoteApprove));
    assert_eq!(c.policy.council_size_of(sputnikdao::policy::KindLabel::Transfer), 1);
}

#[test]
fn change_policy_and_config_proposals() {
    let mut c = Contract::new(Config::test_config(), None);
    let input = ProposalInput {
        description: "council".to_string(),
        kind: ProposalKind::ChangePolicy { policy: council_policy(&["alice"], 0, Threshold::Weight(1)) },
    };
    let id = c.add_proposal(&acc("bob"), 0, ONE_NEAR, input).unwrap();
    c.act_proposal(&acc("bob"), 1, id, Action::VoteApprove).unwrap();
    assert_eq!(c.policy.roles.len(), 2);
    assert!(!c.policy.can_act(&acc("bob"), sputnikdao::policy::KindLabel::Transfer, Action::VoteApprove));

    let mut config = Config::test_config();
    config.proposal_bond = 2 * ONE_NEAR;
    config.name = "Renamed".to_string();
    let input = ProposalInput {
        description: "config".to_string(),
        kind: ProposalKind::ChangeConfig { config },
    };
    let id = c.add_proposal(&acc("bob"), 2, ONE_NEAR, input).unwrap();
    let r = c.act_proposal(&acc("bob"), 3, id, Action::VoteApprove);
    assert_eq!(r.unwrap_err(), DaoError::PermissionDenied);
    c.act_proposal(&acc("alice"), 3, id, Action::VoteApprove).unwrap();
    assert_eq!(c.config.name, "Renamed");
    assert_eq!(c.config.proposal_bond, 2 * ONE_NEAR);
    let r = c.add_proposal(&acc("bob"), 4, ONE_NEAR, transfer_input());
    assert_eq!(r.unwrap_err(), DaoError::InsufficientDeposit);
}

#[test]
fn new_claim_completes_after_earlier_one_expired() {
    let mut c = contract_with_bounty(1, 100);
    c.claim_bounty(&acc("alice"), 10, 0).unwrap();
    let r = c.bounty_done(&acc("alice"), 111, 0);
    assert_eq!(r.unwrap_err(), DaoError::DeadlineExceeded);
    c.claim_bounty(&acc("alice"), 111, 0).unwrap();
    let t = c.bounty_done(&acc("alice"), 111, 0).unwrap();
    assert_eq!(t.receiver_id, "alice");
    assert_eq!(t.amount, 5 * ONE_NEAR);
    assert!(!c.bounty_claims[0].completed);
    assert!(c.bounty_claims[1].completed);
    assert_eq!(c.get_active_claims(0, 111), 0);
    let r = c.bounty_done(&acc("alice"), 120, 0);
    assert_eq!(r.unwrap_err(), DaoError::DeadlineExceeded);
}

#[test]
fn ids_exhausted() {
    let mut c = Contract::new(Config::test_config(), None);
    c.last_proposal_id = u64::MAX;
    let r = c.add_proposal(&acc("bob"), 0, ONE_NEAR, transfer_input());
    assert_eq!(r.unwrap_err(), DaoError::IdsExhausted);
    assert_eq!(c.locked_amount, 0);

    let mut c = Contract::new(Config::test_config(), None);
    let input = ProposalInput {
        description: "bounty".to_string(),
        kind: ProposalKind::AddBounty { bounty: bounty(1, 100) },
    };
    let id = c.add_proposal(&acc("bob"), 0, ONE_NEAR, input).unwrap();
    c.last_bounty_id = u64::MAX;
    let r = c.act_proposal(&acc("bob"), 0, id, Action::VoteApprove);
    assert_eq!(r.unwrap_err(), DaoError::IdsExhausted);
    assert_eq!(c.get_proposal(id).unwrap().status, ProposalStatus::InProgress);
    let out = c.act_proposal(&acc("bob"), 0, id, Action::VoteReject).unwrap();
    assert_eq!(out.len(), 1);
}
