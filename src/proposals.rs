use vstd::prelude::*;

use crate::bounties::Bounty;
use crate::policy::{
    can_act_spec, find_group_role, first_group_role, has_group_role, member_added, member_removed,
    KindLabel,
};
use crate::policy::{same_policy, Policy};
use crate::types::{same_config, Action, Config, DaoError, Transfer, BASE_TOKEN};
use crate::Contract;

verus! {

#[derive(Debug, Clone, Copy, PartialEq, Eq, Structural)]
pub enum ProposalStatus {
    InProgress,
    Approved,
    Rejected,
    Removed,
    Expired,
}

#[derive(Debug, Clone, Copy, PartialEq, Eq, Structural)]
pub enum Vote {
    Approve,
    Reject,
    Remove,
}

/// What a proposal does once approved.
#[derive(Debug)]
pub enum ProposalKind {
    Transfer { token_id: String, receiver_id: String, amount: u128 },
    AddMemberToRole { member_id: String, role: String },
    RemoveMemberFromRole { member_id: String, role: String },
    ChangePolicy { policy: Policy },
    ChangeConfig { config: Config },
    AddBounty { bounty: Bounty },
}

impl ProposalKind {
    pub open spec fn label_spec(&self) -> KindLabel {
        match self {
            ProposalKind::Transfer { .. } => KindLabel::Transfer,
            ProposalKind::AddMemberToRole { .. } => KindLabel::AddMemberToRole,
            ProposalKind::RemoveMemberFromRole { .. } => KindLabel::RemoveMemberFromRole,
            ProposalKind::ChangePolicy { .. } => KindLabel::ChangePolicy,
            ProposalKind::ChangeConfig { .. } => KindLabel::ChangeConfig,
            ProposalKind::AddBounty { .. } => KindLabel::AddBounty,
        }
    }

    pub fn label(&self) -> (r: KindLabel)
        ensures
            r == self.label_spec(),
    {
        match self {
            ProposalKind::Transfer { .. } => KindLabel::Transfer,
            ProposalKind::AddMemberToRole { .. } => KindLabel::AddMemberToRole,
            ProposalKind::RemoveMemberFromRole { .. } => KindLabel::RemoveMemberFromRole,
            ProposalKind::ChangePolicy { .. } => KindLabel::ChangePolicy,
            ProposalKind::ChangeConfig { .. } => KindLabel::ChangeConfig,
            ProposalKind::AddBounty { .. } => KindLabel::AddBounty,
        }
    }
}

#[derive(Debug)]
pub struct ProposalInput {
    pub description: String,
    pub kind: ProposalKind,
}

#[derive(Debug)]
pub struct VoteRecord {
    pub account: String,
    pub vote: Vote,
}

#[derive(Debug)]
pub struct Proposal {
    pub proposer: String,
    pub description: String,
    pub kind: ProposalKind,
    pub status: ProposalStatus,
    /// The vote ledger: one entry per account that voted.
    pub votes: Vec<VoteRecord>,
    pub submission_time: u64,
    /// Deposit held while the proposal is in progress.
    pub bond: u128,
}

pub open spec fn count_votes(votes: Seq<VoteRecord>, v: Vote) -> int
    decreases votes.len(),
{
    if votes.len() == 0 {
        0
    } else {
        count_votes(votes.drop_last(), v) + if votes.last().vote == v {
            1int
        } else {
            0int
        }
    }
}

pub open spec fn has_voted(votes: Seq<VoteRecord>, account: Seq<char>) -> bool {
    exists|i: int| 0 <= i < votes.len() && (#[trigger] votes[i]).account@ == account
}

pub open spec fn distinct_voters(votes: Seq<VoteRecord>) -> bool {
    forall|i: int, j: int|
        0 <= i < votes.len() && 0 <= j < votes.len() && i != j ==> (#[trigger] votes[i]).account@
            != (#[trigger] votes[j]).account@
}

pub open spec fn is_terminal(s: ProposalStatus) -> bool {
    s != ProposalStatus::InProgress
}

/// The statuses that a proposal may move between in one step.
pub open spec fn status_step(from: ProposalStatus, to: ProposalStatus) -> bool {
    from == to || from == ProposalStatus::InProgress
}

/// Bond that a proposal holds: its deposit while in progress, nothing afterwards.
pub open spec fn held_bond(p: Proposal) -> int {
    if p.status == ProposalStatus::InProgress {
        p.bond as int
    } else {
        0
    }
}

pub open spec fn proposal_bonds(ps: Seq<Proposal>) -> int
    decreases ps.len(),
{
    if ps.len() == 0 {
        0
    } else {
        proposal_bonds(ps.drop_last()) + held_bond(ps.last())
    }
}

pub proof fn lemma_proposal_bonds_nonneg(ps: Seq<Proposal>)
    ensures
        proposal_bonds(ps) >= 0,
    decreases ps.len(),
{
    if ps.len() > 0 {
        lemma_proposal_bonds_nonneg(ps.drop_last());
    }
}

/// Replacing one proposal changes the total by the difference of their held bonds.
pub proof fn lemma_proposal_bonds_update(ps: Seq<Proposal>, i: int, p: Proposal)
    requires
        0 <= i < ps.len(),
    ensures
        proposal_bonds(ps.update(i, p)) == proposal_bonds(ps) - held_bond(ps[i]) + held_bond(p),
    decreases ps.len(),
{
    if i == ps.len() - 1 {
        assert(ps.update(i, p).drop_last() =~= ps.drop_last());
    } else {
        lemma_proposal_bonds_update(ps.drop_last(), i, p);
        assert(ps.update(i, p).drop_last() =~= ps.drop_last().update(i, p));
    }
}

pub proof fn lemma_held_bond_le_total(ps: Seq<Proposal>, i: int)
    requires
        0 <= i < ps.len(),
    ensures
        held_bond(ps[i]) <= proposal_bonds(ps),
    decreases ps.len(),
{
    lemma_proposal_bonds_nonneg(ps.drop_last());
    if i < ps.len() - 1 {
        lemma_held_bond_le_total(ps.drop_last(), i);
    }
}

/// Number of votes of the given kind in the ledger.
pub fn tally(votes: &Vec<VoteRecord>, v: Vote) -> (r: u64)
    ensures
        r as int == count_votes(votes@, v),
{
    let mut n: u64 = 0;
    let mut i: usize = 0;
    while i < votes.len()
        invariant
            i <= votes@.len(),
            n as int == count_votes(votes@.subrange(0, i as int), v),
            n <= i,
        decreases votes@.len() - i,
    {
        assert(votes@.subrange(0, i + 1).drop_last() =~= votes@.subrange(0, i as int));
        if votes[i].vote == v {
            n = n + 1;
        }
        i += 1;
    }
    assert(votes@.subrange(0, i as int) =~= votes@);
    n
}

/// Whether the account has an entry in the ledger.
pub fn voted(votes: &Vec<VoteRecord>, account: &String) -> (r: bool)
    ensures
        r == has_voted(votes@, account@),
{
    let mut i: usize = 0;
    while i < votes.len()
        invariant
            i <= votes@.len(),
            forall|j: int| 0 <= j < i ==> (#[trigger] votes@[j]).account@ != account@,
        decreases votes@.len() - i,
    {
        if votes[i].account == *account {
            assert(votes@[i as int].account@ == account@);
            return true;
        }
        i += 1;
    }
    false
}

pub open spec fn is_vote(action: Action) -> bool {
    action == Action::VoteApprove || action == Action::VoteReject || action == Action::VoteRemove
}

pub open spec fn vote_of(action: Action) -> Vote {
    if action == Action::VoteApprove {
        Vote::Approve
    } else if action == Action::VoteReject {
        Vote::Reject
    } else {
        Vote::Remove
    }
}

/// Status that a proposal takes when votes of the kind reach the threshold.
pub open spec fn resolved_status(v: Vote) -> ProposalStatus {
    match v {
        Vote::Approve => ProposalStatus::Approved,
        Vote::Reject => ProposalStatus::Rejected,
        Vote::Remove => ProposalStatus::Removed,
    }
}

/// The voting period of the proposal is over at time `now`.
pub open spec fn voting_closed(p: Proposal, period: u64, now: u64) -> bool {
    now as int > p.submission_time as int + period as int
}

/// `q` is `p` with one more ledger entry and possibly another status.
pub open spec fn vote_recorded(p: Proposal, q: Proposal, account: Seq<char>, v: Vote) -> bool {
    &&& q.votes@.len() == p.votes@.len() + 1
    &&& q.votes@.drop_last() == p.votes@
    &&& q.votes@.last().account@ == account
    &&& q.votes@.last().vote == v
    &&& q.proposer == p.proposer
    &&& q.description == p.description
    &&& q.kind == p.kind
    &&& q.submission_time == p.submission_time
    &&& q.bond == p.bond
}

/// The transfer that gives a proposal's bond back to its proposer.
pub open spec fn is_refund(t: Transfer, p: Proposal) -> bool {
    t.receiver_id@ == p.proposer@ && t.amount == p.bond && t.token_id@ == BASE_TOKEN@
}

/// The transfer that an approved proposal of this kind pays out, if any.
pub open spec fn is_payment(t: Transfer, kind: ProposalKind) -> bool {
    match kind {
        ProposalKind::Transfer { token_id, receiver_id, amount } => t.token_id@ == token_id@
            && t.receiver_id@ == receiver_id@ && t.amount == amount,
        _ => false,
    }
}

/// The transfers that resolving `p` with status `s` makes; a proposal removed
/// by vote forfeits its bond.
pub open spec fn resolution_transfers(
    ts: Seq<Transfer>,
    p: Proposal,
    s: ProposalStatus,
    forfeit: bool,
) -> bool {
    if forfeit {
        ts.len() == 0
    } else if s == ProposalStatus::Approved && p.kind is Transfer {
        ts.len() == 2 && is_payment(ts[0], p.kind) && is_refund(ts[1], p)
    } else {
        ts.len() == 1 && is_refund(ts[0], p)
    }
}

impl Contract {
    /// Everything but the proposals, the ledger, the policy, the configuration
    /// and the bounties is as in `self`.
    pub open spec fn same_outside_proposals(&self, after: Contract) -> bool {
        &&& after.last_proposal_id == self.last_proposal_id
        &&& after.bounty_claims == self.bounty_claims
        &&& after.blobs == self.blobs
    }

    /// The proposals other than `id` are unchanged.
    pub open spec fn others_unchanged(&self, after: Contract, id: int) -> bool {
        &&& after.proposals@.len() == self.proposals@.len()
        &&& forall|j: int|
            0 <= j < self.proposals@.len() && j != id ==> #[trigger] after.proposals@[j]
                == self.proposals@[j]
    }

    pub open spec fn payload_ready(&self, kind: ProposalKind) -> bool {
        match kind {
            ProposalKind::AddMemberToRole { member_id, role } => has_group_role(
                self.policy.roles@,
                role@,
            ),
            ProposalKind::RemoveMemberFromRole { member_id, role } => has_group_role(
                self.policy.roles@,
                role@,
            ),
            ProposalKind::AddBounty { .. } => self.last_bounty_id < u64::MAX,
            _ => true,
        }
    }

    /// The error with which approving a proposal of this kind fails when its
    /// effect cannot be carried out.
    pub open spec fn payload_error(kind: ProposalKind) -> DaoError {
        match kind {
            ProposalKind::AddBounty { .. } => DaoError::IdsExhausted,
            _ => DaoError::NotFound,
        }
    }

    /// `after` has the effect of approving a proposal of this kind on the
    /// policy and the bounties.
    pub open spec fn payload_applied(&self, after: Contract, kind: ProposalKind) -> bool {
        match kind {
            ProposalKind::Transfer { .. } => {
                &&& after.policy == self.policy
                &&& after.config == self.config
                &&& after.bounties == self.bounties
                &&& after.last_bounty_id == self.last_bounty_id
            },
            ProposalKind::ChangePolicy { policy } => {
                &&& same_policy(after.policy, policy)
                &&& after.config == self.config
                &&& after.bounties == self.bounties
                &&& after.last_bounty_id == self.last_bounty_id
            },
            ProposalKind::ChangeConfig { config } => {
                &&& same_config(after.config, config)
                &&& after.policy == self.policy
                &&& after.bounties == self.bounties
                &&& after.last_bounty_id == self.last_bounty_id
            },
            ProposalKind::AddMemberToRole { member_id, role } => {
                &&& exists|k: int|
                    first_group_role(self.policy.roles@, role@, k) && member_added(
                        self.policy,
                        after.policy,
                        k,
                        member_id@,
                    )
                &&& after.config == self.config
                &&& after.bounties == self.bounties
                &&& after.last_bounty_id == self.last_bounty_id
            },
            ProposalKind::RemoveMemberFromRole { member_id, role } => {
                &&& exists|k: int|
                    first_group_role(self.policy.roles@, role@, k) && member_removed(
                        self.policy,
                        after.policy,
                        k,
                        member_id@,
                    )
                &&& after.config == self.config
                &&& after.bounties == self.bounties
                &&& after.last_bounty_id == self.last_bounty_id
            },
            ProposalKind::AddBounty { bounty } => {
                &&& after.policy == self.policy
                &&& after.config == self.config
                &&& after.last_bounty_id == self.last_bounty_id + 1
                &&& after.bounties@.len() == self.bounties@.len() + 1
                &&& after.bounties@.drop_last() == self.bounties@
                &&& after.bounties@.last().description@ == bounty.description@
                &&& after.bounties@.last().token@ == bounty.token@
                &&& after.bounties@.last().amount == bounty.amount
                &&& after.bounties@.last().max_claims == bounty.max_claims
                &&& after.bounties@.last().deadline_duration == bounty.deadline_duration
            },
        }
    }

    /// Submits a proposal from `caller` at time `now`, holding the attached
    /// `deposit` as its bond. Returns the new proposal's id.
    pub fn add_proposal(
        &mut self,
        caller: &String,
        now: u64,
        deposit: u128,
        proposal: ProposalInput,
    ) -> (r: Result<u64, DaoError>)
        requires
            old(self).wf(),
        ensures
            final(self).wf(),
            ({
                let allowed = can_act_spec(
                    old(self).policy.roles@,
                    caller@,
                    proposal.kind.label_spec(),
                    Action::AddProposal,
                );
                let enough = deposit >= old(self).config.proposal_bond;
                let fits = old(self).locked_amount + deposit <= u128::MAX;
                let has_id = old(self).last_proposal_id < u64::MAX;
                &&& !allowed ==> r == Err::<u64, DaoError>(DaoError::PermissionDenied)
                &&& allowed && !enough ==> r == Err::<u64, DaoError>(
                    DaoError::InsufficientDeposit,
                )
                &&& allowed && enough && !fits ==> r == Err::<u64, DaoError>(
                    DaoError::LedgerInvariantViolation,
                )
                &&& allowed && enough && fits && !has_id ==> r == Err::<u64, DaoError>(
                    DaoError::IdsExhausted,
                )
                &&& r is Ok <==> allowed && enough && fits && has_id
            }),
            r matches Ok(id) ==> {
                let q = final(self).proposals@.last();
                &&& id == old(self).last_proposal_id
                &&& final(self).proposals@.drop_last() == old(self).proposals@
                &&& final(self).proposals@.len() == old(self).proposals@.len() + 1
                &&& q.proposer@ == caller@
                &&& q.description == proposal.description
                &&& q.kind == proposal.kind
                &&& q.status == ProposalStatus::InProgress
                &&& q.votes@.len() == 0
                &&& q.submission_time == now
                &&& q.bond == deposit
                &&& final(self).locked_amount == old(self).locked_amount + deposit
                &&& final(self).policy == old(self).policy
                &&& final(self).bounties == old(self).bounties
                &&& final(self).config == old(self).config
                &&& final(self).last_bounty_id == old(self).last_bounty_id
                &&& final(self).bounty_claims == old(self).bounty_claims
                &&& final(self).blobs == old(self).blobs
            },
            r is Err ==> *final(self) == *old(self),
    {
        let label = proposal.kind.label();
        if !self.policy.can_act(caller, label, Action::AddProposal) {
            return Err(DaoError::PermissionDenied);
        }
        if deposit < self.config.proposal_bond {
            return Err(DaoError::InsufficientDeposit);
        }
        let locked = match self.locked_amount.checked_add(deposit) {
            Some(l) => l,
            None => {
                return Err(DaoError::LedgerInvariantViolation);
            },
        };
        if self.last_proposal_id == u64::MAX {
            return Err(DaoError::IdsExhausted);
        }
        let id = self.last_proposal_id;
        let ghost old_proposals = self.proposals@;
        self.proposals.push(
            Proposal {
                proposer: caller.clone(),
                description: proposal.description,
                kind: proposal.kind,
                status: ProposalStatus::InProgress,
                votes: Vec::new(),
                submission_time: now,
                bond: deposit,
            },
        );
        self.last_proposal_id = id + 1;
        self.locked_amount = locked;
        proof {
            assert(self.proposals@.drop_last() =~= old_proposals);
            assert forall|i: int| 0 <= i < self.proposals@.len() implies distinct_voters(
                #[trigger] self.proposals@[i].votes@,
            ) by {
                if i < old_proposals.len() {
                    assert(self.proposals@[i] == old_proposals[i]);
                }
            }
        }
        Ok(id)
    }
}

fn refund(p: &Proposal) -> (t: Transfer)
    ensures
        is_refund(t, *p),
{
    Transfer { token_id: BASE_TOKEN.to_string(), receiver_id: p.proposer.clone(), amount: p.bond }
}

impl Contract {
    /// Gives the proposal at `idx` the terminal status `s` and releases its bond
    /// from the ledger.
    fn close_proposal(&mut self, idx: usize, s: ProposalStatus)
        requires
            old(self).wf(),
            idx < old(self).proposals@.len(),
            old(self).proposals@[idx as int].status == ProposalStatus::InProgress,
            s != ProposalStatus::InProgress,
        ensures
            final(self).wf(),
            final(self).proposals@ == old(self).proposals@.update(
                idx as int,
                Proposal { status: s, ..old(self).proposals@[idx as int] },
            ),
            final(self).locked_amount == old(self).locked_amount - old(
                self,
            ).proposals@[idx as int].bond,
            final(self).same_outside_proposals(*old(self)),
            final(self).policy == old(self).policy,
            final(self).config == old(self).config,
            final(self).bounties == old(self).bounties,
            final(self).last_bounty_id == old(self).last_bounty_id,
    {
        let ghost old_ps = self.proposals@;
        let mut p = self.proposals.remove(idx);
        let ghost p0 = p;
        p.status = s;
        let bond = p.bond;
        self.proposals.insert(idx, p);
        proof {
            assert(self.proposals@ =~= old_ps.update(idx as int, p));
            assert(p == Proposal { status: s, ..p0 });
            lemma_proposal_bonds_update(old_ps, idx as int, p);
            lemma_held_bond_le_total(old_ps, idx as int);
            crate::blobs::lemma_blob_bonds_nonneg(self.blobs@);
            assert forall|i: int| 0 <= i < self.proposals@.len() implies distinct_voters(
                #[trigger] self.proposals@[i].votes@,
            ) by {
                assert(distinct_voters(old_ps[i].votes@));
            }
        }
        self.locked_amount = self.locked_amount - bond;
    }

    /// Adds `caller`'s vote to the ledger of the proposal at `idx`.
    fn record_vote(&mut self, idx: usize, caller: &String, v: Vote)
        requires
            old(self).wf(),
            idx < old(self).proposals@.len(),
            !has_voted(old(self).proposals@[idx as int].votes@, caller@),
        ensures
            final(self).wf(),
            old(self).others_unchanged(*final(self), idx as int),
            vote_recorded(
                old(self).proposals@[idx as int],
                final(self).proposals@[idx as int],
                caller@,
                v,
            ),
            final(self).proposals@[idx as int].status == old(
                self,
            ).proposals@[idx as int].status,
            final(self).locked_amount == old(self).locked_amount,
            final(self).same_outside_proposals(*old(self)),
            final(self).policy == old(self).policy,
            final(self).config == old(self).config,
            final(self).bounties == old(self).bounties,
            final(self).last_bounty_id == old(self).last_bounty_id,
    {
        let ghost old_ps = self.proposals@;
        let mut p = self.proposals.remove(idx);
        let ghost p0 = p;
        p.votes.push(VoteRecord { account: caller.clone(), vote: v });
        self.proposals.insert(idx, p);
        proof {
            assert(self.proposals@ =~= old_ps.update(idx as int, p));
            assert(p.votes@.drop_last() =~= p0.votes@);
            assert(held_bond(p) == held_bond(p0));
            lemma_proposal_bonds_update(old_ps, idx as int, p);
            assert(distinct_voters(p0.votes@));
            assert(distinct_voters(p.votes@)) by {
                assert forall|i: int, j: int|
                    0 <= i < p.votes@.len() && 0 <= j < p.votes@.len() && i != j implies (
                    #[trigger] p.votes@[i]).account@ != (#[trigger] p.votes@[j]).account@ by {
                    if i == p0.votes@.len() {
                        assert(p.votes@[j] == p0.votes@[j]);
                    } else if j == p0.votes@.len() {
                        assert(p.votes@[i] == p0.votes@[i]);
                    } else {
                        assert(p.votes@[i] == p0.votes@[i]);
                        assert(p.votes@[j] == p0.votes@[j]);
                    }
                }
            }
            assert forall|i: int| 0 <= i < self.proposals@.len() implies distinct_voters(
                #[trigger] self.proposals@[i].votes@,
            ) by {
                if i != idx {
                    assert(distinct_voters(old_ps[i].votes@));
                }
            }
        }
    }
}

impl Contract {
    /// Carries out what the approved proposal at `idx` does; returns the
    /// payment it makes, if any.
    fn execute_payload(&mut self, idx: usize) -> (r: Vec<Transfer>)
        requires
            old(self).wf(),
            idx < old(self).proposals@.len(),
            old(self).payload_ready(old(self).proposals@[idx as int].kind),
        ensures
            final(self).wf(),
            old(self).payload_applied(*final(self), old(self).proposals@[idx as int].kind),
            final(self).proposals == old(self).proposals,
            final(self).locked_amount == old(self).locked_amount,
            final(self).same_outside_proposals(*old(self)),
            old(self).proposals@[idx as int].kind is Transfer ==> r@.len() == 1 && is_payment(
                r@[0],
                old(self).proposals@[idx as int].kind,
            ),
            !(old(self).proposals@[idx as int].kind is Transfer) ==> r@.len() == 0,
    {
        let mut out: Vec<Transfer> = Vec::new();
        match &self.proposals[idx].kind {
            ProposalKind::Transfer { token_id, receiver_id, amount } => {
                out.push(
                    Transfer {
                        token_id: token_id.clone(),
                        receiver_id: receiver_id.clone(),
                        amount: *amount,
                    },
                );
            },
            ProposalKind::AddMemberToRole { member_id, role } => {
                match find_group_role(&self.policy.roles, role) {
                    Some(k) => {
                        self.policy.add_member_at(k, member_id);
                    },
                    None => {},
                }
            },
            ProposalKind::RemoveMemberFromRole { member_id, role } => {
                match find_group_role(&self.policy.roles, role) {
                    Some(k) => {
                        self.policy.remove_member_at(k, member_id);
                    },
                    None => {},
                }
            },
            ProposalKind::ChangePolicy { policy } => {
                self.policy = policy.duplicate();
            },
            ProposalKind::ChangeConfig { config } => {
                self.config = config.duplicate();
            },
            ProposalKind::AddBounty { bounty } => {
                let b = bounty.duplicate();
                let ghost old_bounties = self.bounties@;
                self.bounties.push(b);
                self.last_bounty_id = self.last_bounty_id + 1;
                proof {
                    assert(self.bounties@.drop_last() =~= old_bounties);
                }
            },
        }
        out
    }

    /// Performs `action` on proposal `id` for `caller` at time `now`. Returns
    /// the transfers that the host is to settle.
    pub fn act_proposal(&mut self, caller: &String, now: u64, id: u64, action: Action) -> (r:
        Result<Vec<Transfer>, DaoError>)
        requires
            old(self).wf(),
        ensures
            final(self).wf(),
            r is Err ==> *final(self) == *old(self),
            final(self).proposals@.len() == old(self).proposals@.len(),
            forall|j: int|
                0 <= j < old(self).proposals@.len() ==> status_step(
                    #[trigger] old(self).proposals@[j].status,
                    final(self).proposals@[j].status,
                ),
            id >= old(self).last_proposal_id ==> r == Err::<Vec<Transfer>, DaoError>(
                DaoError::NotFound,
            ),
            id < old(self).last_proposal_id ==> old(self).act_outcome(
                *final(self),
                caller@,
                now,
                id as int,
                action,
                r,
            ),
    {
        if id >= self.last_proposal_id {
            return Err(DaoError::NotFound);
        }
        let n: usize = self.proposals.len();
        assert(id < n);
        let idx = id as usize;
        if self.proposals[idx].status != ProposalStatus::InProgress {
            return Err(DaoError::AlreadyTerminal);
        }
        let label = self.proposals[idx].kind.label();
        let closed = now as u128 > self.proposals[idx].submission_time as u128
            + self.config.proposal_period as u128;
        match action {
            Action::AddProposal => Err(DaoError::PermissionDenied),
            Action::RemoveProposal => {
                if !(self.proposals[idx].proposer == *caller || self.policy.can_act(
                    caller,
                    label,
                    action,
                )) {
                    return Err(DaoError::PermissionDenied);
                }
                let t = refund(&self.proposals[idx]);
                self.close_proposal(idx, ProposalStatus::Removed);
                let mut out: Vec<Transfer> = Vec::new();
                out.push(t);
                Ok(out)
            },
            Action::Finalize => {
                if !closed {
                    return Err(DaoError::PermissionDenied);
                }
                let t = refund(&self.proposals[idx]);
                self.close_proposal(idx, ProposalStatus::Expired);
                let mut out: Vec<Transfer> = Vec::new();
                out.push(t);
                Ok(out)
            },
            _ => {
                if closed {
                    return Err(DaoError::AlreadyTerminal);
                }
                if !self.policy.can_act(caller, label, action) {
                    return Err(DaoError::PermissionDenied);
                }
                if voted(&self.proposals[idx].votes, caller) {
                    return Err(DaoError::AlreadyVoted);
                }
                let v = match action {
                    Action::VoteApprove => Vote::Approve,
                    Action::VoteReject => Vote::Reject,
                    _ => Vote::Remove,
                };
                let count = tally(&self.proposals[idx].votes, v) as u128 + 1;
                let needed = self.policy.threshold(label);
                if count < needed as u128 {
                    self.record_vote(idx, caller, v);
                    return Ok(Vec::new());
                }
                match v {
                    Vote::Approve => {
                        let ready = match &self.proposals[idx].kind {
                            ProposalKind::AddMemberToRole { role, .. } => find_group_role(
                                &self.policy.roles,
                                role,
                            ).is_some(),
                            ProposalKind::RemoveMemberFromRole { role, .. } => find_group_role(
                                &self.policy.roles,
                                role,
                            ).is_some(),
                            ProposalKind::AddBounty { .. } => self.last_bounty_id < u64::MAX,
                            _ => true,
                        };
                        if !ready {
                            return match &self.proposals[idx].kind {
                                ProposalKind::AddBounty { .. } => Err(DaoError::IdsExhausted),
                                _ => Err(DaoError::NotFound),
                            };
                        }
                        let t = refund(&self.proposals[idx]);
                        self.record_vote(idx, caller, v);
                        self.close_proposal(idx, ProposalStatus::Approved);
                        let mut out = self.execute_payload(idx);
                        out.push(t);
                        Ok(out)
                    },
                    Vote::Reject => {
                        let t = refund(&self.proposals[idx]);
                        self.record_vote(idx, caller, v);
                        self.close_proposal(idx, ProposalStatus::Rejected);
                        let mut out: Vec<Transfer> = Vec::new();
                        out.push(t);
                        Ok(out)
                    },
                    Vote::Remove => {
                        self.record_vote(idx, caller, v);
                        self.close_proposal(idx, ProposalStatus::Removed);
                        Ok(Vec::new())
                    },
                }
            },
        }
    }

    /// What `act_proposal` does on an existing proposal `id`.
    pub open spec fn act_outcome(
        &self,
        after: Contract,
        caller: Seq<char>,
        now: u64,
        id: int,
        action: Action,
        r: Result<Vec<Transfer>, DaoError>,
    ) -> bool {
        let p = self.proposals@[id];
        let label = p.kind.label_spec();
        let allowed = can_act_spec(self.policy.roles@, caller, label, action);
        let closed = voting_closed(p, self.config.proposal_period, now);
        let q = after.proposals@[id];
        if p.status != ProposalStatus::InProgress {
            r == Err::<Vec<Transfer>, DaoError>(DaoError::AlreadyTerminal)
        } else if action == Action::AddProposal {
            r == Err::<Vec<Transfer>, DaoError>(DaoError::PermissionDenied)
        } else if action == Action::RemoveProposal && !(p.proposer@ == caller || allowed) {
            r == Err::<Vec<Transfer>, DaoError>(DaoError::PermissionDenied)
        } else if action == Action::Finalize && !closed {
            r == Err::<Vec<Transfer>, DaoError>(DaoError::PermissionDenied)
        } else if action == Action::RemoveProposal || action == Action::Finalize {
            let s = if action == Action::Finalize {
                ProposalStatus::Expired
            } else {
                ProposalStatus::Removed
            };
            &&& r is Ok
            &&& resolution_transfers(r->Ok_0@, p, s, false)
            &&& after.proposals@ == self.proposals@.update(id, Proposal { status: s, ..p })
            &&& after.locked_amount == self.locked_amount - p.bond
            &&& after.same_outside_proposals(*self)
            &&& after.policy == self.policy
            &&& after.config == self.config
            &&& after.bounties == self.bounties
        } else if closed {
            r == Err::<Vec<Transfer>, DaoError>(DaoError::AlreadyTerminal)
        } else if !allowed {
            r == Err::<Vec<Transfer>, DaoError>(DaoError::PermissionDenied)
        } else if has_voted(p.votes@, caller) {
            r == Err::<Vec<Transfer>, DaoError>(DaoError::AlreadyVoted)
        } else {
            let v = vote_of(action);
            let resolves = count_votes(p.votes@, v) + 1 >= self.policy.threshold_spec(label);
            let s = resolved_status(v);
            if !resolves {
                &&& r is Ok
                &&& r->Ok_0@.len() == 0
                &&& self.others_unchanged(after, id)
                &&& vote_recorded(p, q, caller, v)
                &&& q.status == ProposalStatus::InProgress
                &&& after.locked_amount == self.locked_amount
                &&& after.same_outside_proposals(*self)
                &&& after.policy == self.policy
                &&& after.config == self.config
                &&& after.bounties == self.bounties
            } else if v == Vote::Approve && !self.payload_ready(p.kind) {
                r == Err::<Vec<Transfer>, DaoError>(Contract::payload_error(p.kind))
            } else {
                &&& r is Ok
                &&& resolution_transfers(r->Ok_0@, p, s, v == Vote::Remove)
                &&& self.others_unchanged(after, id)
                &&& vote_recorded(p, q, caller, v)
                &&& q.status == s
                &&& after.locked_amount == self.locked_amount - p.bond
                &&& after.same_outside_proposals(*self)
                &&& if v == Vote::Approve {
                    self.payload_applied(after, p.kind)
                } else {
                    after.policy == self.policy && after.config == self.config && after.bounties
                        == self.bounties
                }
            }
        }
    }
}

/// Ids in `[from, to)` of the proposals that listings show: all but the removed.
pub open spec fn listed(ps: Seq<Proposal>, from: int, to: int) -> Seq<int>
    decreases to - from,
{
    if to <= from {
        Seq::empty()
    } else {
        let rest = listed(ps, from, to - 1);
        if ps[to - 1].status == ProposalStatus::Removed {
            rest
        } else {
            rest.push(to - 1)
        }
    }
}

impl Contract {
    /// The proposal with the given id.
    pub fn get_proposal(&self, id: u64) -> (r: Option<&Proposal>)
        requires
            self.wf(),
        ensures
            id < self.last_proposal_id ==> r == Some(&self.proposals@[id as int]),
            id >= self.last_proposal_id ==> r.is_none(),
    {
        if id >= self.last_proposal_id {
            return None;
        }
        let n: usize = self.proposals.len();
        assert(id < n);
        Some(&self.proposals[id as usize])
    }

    /// The proposals with ids from `from_index` on, at most `limit` ids, leaving
    /// out removed ones.
    pub fn get_proposals(&self, from_index: u64, limit: u64) -> (r: Vec<&Proposal>)
        requires
            self.wf(),
        ensures
            ({
                let to = if from_index as int + limit as int > self.proposals@.len() {
                    self.proposals@.len() as int
                } else {
                    from_index as int + limit as int
                };
                let ids = listed(self.proposals@, from_index as int, to);
                &&& r@.len() == ids.len()
                &&& forall|i: int| 0 <= i < ids.len() ==> r@[i] == &self.proposals@[ids[i]]
            }),
    {
        let n: usize = self.proposals.len();
        let to: u64 = if from_index as u128 + limit as u128 > n as u128 {
            n as u64
        } else {
            from_index + limit
        };
        let mut out: Vec<&Proposal> = Vec::new();
        let mut i: u64 = from_index;
        if to <= from_index {
            return out;
        }
        while i < to
            invariant
                from_index <= i <= to,
                to <= n,
                n == self.proposals@.len(),
                out@.len() == listed(self.proposals@, from_index as int, i as int).len(),
                forall|j: int|
                    0 <= j < out@.len() ==> out@[j] == &self.proposals@[listed(
                        self.proposals@,
                        from_index as int,
                        i as int,
                    )[j]],
            decreases to - i,
        {
            let p = &self.proposals[i as usize];
            if p.status != ProposalStatus::Removed {
                out.push(p);
            }
            i += 1;
        }
        out
    }
}

/// A status that has left `InProgress` never changes again.
pub proof fn lemma_terminal_is_final(from: ProposalStatus, to: ProposalStatus)
    requires
        status_step(from, to),
        is_terminal(from),
    ensures
        to == from,
{
}

/// An account that has voted on a proposal cannot vote on it again: the call
/// fails with `AlreadyVoted`, and the tally and the ledger stay as they were.
pub proof fn lemma_second_vote_rejected(
    c: Contract,
    after: Contract,
    caller: Seq<char>,
    now: u64,
    id: int,
    action: Action,
    r: Result<Vec<Transfer>, DaoError>,
)
    requires
        c.wf(),
        0 <= id < c.proposals@.len(),
        is_vote(action),
        has_voted(c.proposals@[id].votes@, caller),
        c.act_outcome(after, caller, now, id, action, r),
        r is Err ==> after == c,
    ensures
        r is Err,
        after.proposals@[id].votes@ == c.proposals@[id].votes@,
        forall|v: Vote|
            count_votes(#[trigger] after.proposals@[id].votes@, v) == count_votes(
                c.proposals@[id].votes@,
                v,
            ),
        c.proposals@[id].status == ProposalStatus::InProgress && !voting_closed(
            c.proposals@[id],
            c.config.proposal_period,
            now,
        ) && can_act_spec(c.policy.roles@, caller, c.proposals@[id].kind.label_spec(), action)
            ==> r == Err::<Vec<Transfer>, DaoError>(DaoError::AlreadyVoted),
{
}

} // verus!
