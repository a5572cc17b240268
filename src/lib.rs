use vstd::prelude::*;

pub mod blobs;
pub mod bounties;
pub mod policy;
pub mod proposals;
pub mod types;

use crate::blobs::{blob_bonds, distinct_hashes, Blob};
use crate::bounties::{Bounty, BountyClaim};
use crate::policy::{Permission, Policy, RoleKind, RolePermission, Threshold, VotePolicy};
use crate::proposals::{distinct_voters, proposal_bonds, Proposal};
use crate::types::Config;

verus! {

/// State of the organization: its policy, proposals, bounties, stored blobs and
/// the funds held against bonds.
#[derive(Debug)]
pub struct Contract {
    pub config: Config,
    pub policy: Policy,
    /// Id that the next proposal gets.
    pub last_proposal_id: u64,
    /// Proposals by id: the proposal with id `i` is at position `i`.
    pub proposals: Vec<Proposal>,
    /// Id that the next bounty gets.
    pub last_bounty_id: u64,
    /// Bounties by id, as for proposals.
    pub bounties: Vec<Bounty>,
    /// Every claim made on a bounty, in the order made.
    pub bounty_claims: Vec<BountyClaim>,
    pub blobs: Vec<Blob>,
    /// Funds reserved against bonds.
    pub locked_amount: u128,
}

/// The policy of an organization created without one: everyone may do
/// everything, and more than half of an empty council, that is any single vote,
/// resolves a proposal.
pub open spec fn is_default_policy(p: Policy) -> bool {
    &&& p.roles@.len() == 1
    &&& p.roles@[0].kind matches RoleKind::Everyone
    &&& p.roles@[0].permissions@ == seq![Permission { kind: None, action: None }]
    &&& p.default_vote_policy == (VotePolicy { quorum: 0, threshold: Threshold::Ratio(1, 2) })
    &&& p.vote_policies@.len() == 0
}

impl Policy {
    pub fn default_policy() -> (r: Policy)
        ensures
            is_default_policy(r),
    {
        let mut roles: Vec<RolePermission> = Vec::new();
        let mut permissions: Vec<Permission> = Vec::new();
        permissions.push(Permission { kind: None, action: None });
        roles.push(
            RolePermission { name: String::from_str("all"), kind: RoleKind::Everyone, permissions },
        );
        Policy {
            roles,
            default_vote_policy: VotePolicy { quorum: 0, threshold: Threshold::Ratio(1, 2) },
            vote_policies: Vec::new(),
        }
    }
}

impl Contract {
    /// The invariant that every operation keeps.
    pub open spec fn wf(&self) -> bool {
        &&& self.last_proposal_id as int == self.proposals@.len()
        &&& self.last_bounty_id as int == self.bounties@.len()
        &&& forall|i: int|
            0 <= i < self.proposals@.len() ==> distinct_voters(
                #[trigger] self.proposals@[i].votes@,
            )
        &&& forall|i: int|
            0 <= i < self.bounty_claims@.len() ==> (#[trigger] self.bounty_claims@[i]).bounty_id
                < self.last_bounty_id
        &&& distinct_hashes(self.blobs@)
        &&& self.locked_amount as int == self.locked_spec()
    }

    /// Sum of the bonds currently held: those of proposals in progress and of
    /// stored blobs.
    pub open spec fn locked_spec(&self) -> int {
        proposal_bonds(self.proposals@) + blob_bonds(self.blobs@)
    }

    pub open spec fn same_except_blobs(&self, other: Contract) -> bool {
        &&& self.config == other.config
        &&& self.policy == other.policy
        &&& self.last_proposal_id == other.last_proposal_id
        &&& self.proposals == other.proposals
        &&& self.last_bounty_id == other.last_bounty_id
        &&& self.bounties == other.bounties
        &&& self.bounty_claims == other.bounty_claims
    }

    /// A fresh organization with the given policy, or the default one.
    pub fn new(config: Config, policy: Option<Policy>) -> (r: Contract)
        ensures
            r.wf(),
            r.config == config,
            policy matches Some(p) ==> r.policy == p,
            policy is None ==> is_default_policy(r.policy),
            r.proposals@.len() == 0,
            r.bounties@.len() == 0,
            r.bounty_claims@.len() == 0,
            r.blobs@.len() == 0,
            r.locked_amount == 0,
    {
        let policy = match policy {
            Some(p) => p,
            None => Policy::default_policy(),
        };
        Contract {
            config,
            policy,
            last_proposal_id: 0,
            proposals: Vec::new(),
            last_bounty_id: 0,
            bounties: Vec::new(),
            bounty_claims: Vec::new(),
            blobs: Vec::new(),
            locked_amount: 0,
        }
    }
}

} // verus!
