use vstd::prelude::*;

use crate::types::{DaoError, Transfer};
use crate::Contract;

verus! {

/// A task whose completion is paid with `amount` of `token`.
#[derive(Debug)]
pub struct Bounty {
    pub description: String,
    pub token: String,
    pub amount: u128,
    /// How many claims may be active at once.
    pub max_claims: u32,
    /// Time a claimer has to complete the bounty.
    pub deadline_duration: u64,
}

impl Bounty {
    /// A copy with the same fields.
    pub fn duplicate(&self) -> (r: Bounty)
        ensures
            r.description@ == self.description@,
            r.token@ == self.token@,
            r.amount == self.amount,
            r.max_claims == self.max_claims,
            r.deadline_duration == self.deadline_duration,
    {
        Bounty {
            description: self.description.clone(),
            token: self.token.clone(),
            amount: self.amount,
            max_claims: self.max_claims,
            deadline_duration: self.deadline_duration,
        }
    }
}

} // verus!

verus! {

/// An account's claim on a bounty.
#[derive(Debug)]
pub struct BountyClaim {
    pub bounty_id: u64,
    pub claimer: String,
    pub start_time: u64,
    /// `start_time` plus the bounty's deadline duration.
    pub deadline: u128,
    pub completed: bool,
}

} // verus!

verus! {

/// A claim holds a slot of its bounty until it is completed or its deadline passes.
pub open spec fn claim_active(c: BountyClaim, now: u64) -> bool {
    !c.completed && now as int <= c.deadline as int
}

pub open spec fn active_count(claims: Seq<BountyClaim>, bounty_id: u64, now: u64) -> int
    decreases claims.len(),
{
    if claims.len() == 0 {
        0
    } else {
        active_count(claims.drop_last(), bounty_id, now) + if claims.last().bounty_id == bounty_id
            && claim_active(claims.last(), now) {
            1int
        } else {
            0int
        }
    }
}

/// `k` is the first claim of `claimer` on the bounty that is still active at `now`.
pub open spec fn first_live_claim(
    claims: Seq<BountyClaim>,
    bounty_id: u64,
    claimer: Seq<char>,
    now: u64,
    k: int,
) -> bool {
    &&& 0 <= k < claims.len()
    &&& is_live_claim(claims[k], bounty_id, claimer, now)
    &&& forall|j: int|
        0 <= j < k ==> !is_live_claim(#[trigger] claims[j], bounty_id, claimer, now)
}

/// A claim of `claimer` on the bounty, neither completed nor past its deadline.
pub open spec fn is_live_claim(c: BountyClaim, bounty_id: u64, claimer: Seq<char>, now: u64) -> bool {
    is_open_claim(c, bounty_id, claimer) && claim_active(c, now)
}

pub open spec fn has_live_claim(
    claims: Seq<BountyClaim>,
    bounty_id: u64,
    claimer: Seq<char>,
    now: u64,
) -> bool {
    exists|k: int|
        0 <= k < claims.len() && is_live_claim(#[trigger] claims[k], bounty_id, claimer, now)
}

pub open spec fn is_open_claim(c: BountyClaim, bounty_id: u64, claimer: Seq<char>) -> bool {
    c.bounty_id == bounty_id && c.claimer@ == claimer && !c.completed
}

pub open spec fn has_open_claim(claims: Seq<BountyClaim>, bounty_id: u64, claimer: Seq<char>) -> bool {
    exists|k: int| 0 <= k < claims.len() && is_open_claim(#[trigger] claims[k], bounty_id, claimer)
}

pub proof fn lemma_active_count_nonneg(claims: Seq<BountyClaim>, bounty_id: u64, now: u64)
    ensures
        0 <= active_count(claims, bounty_id, now),
    decreases claims.len(),
{
    if claims.len() > 0 {
        lemma_active_count_nonneg(claims.drop_last(), bounty_id, now);
    }
}

/// Marking one claim completed does not add an active claim to any bounty.
pub proof fn lemma_active_count_complete(
    claims: Seq<BountyClaim>,
    k: int,
    c: BountyClaim,
    bounty_id: u64,
    now: u64,
)
    requires
        0 <= k < claims.len(),
        c.completed,
    ensures
        active_count(claims.update(k, c), bounty_id, now) <= active_count(claims, bounty_id, now),
    decreases claims.len(),
{
    if k == claims.len() - 1 {
        assert(claims.update(k, c).drop_last() =~= claims.drop_last());
    } else {
        lemma_active_count_complete(claims.drop_last(), k, c, bounty_id, now);
        assert(claims.update(k, c).drop_last() =~= claims.drop_last().update(k, c));
    }
}

/// Claims only ever leave the active set as time goes on: the number of active
/// claims on a bounty at a later time is at most that at an earlier one.
pub proof fn lemma_active_count_monotone(
    claims: Seq<BountyClaim>,
    bounty_id: u64,
    earlier: u64,
    later: u64,
)
    requires
        earlier <= later,
    ensures
        active_count(claims, bounty_id, later) <= active_count(claims, bounty_id, earlier),
    decreases claims.len(),
{
    if claims.len() > 0 {
        lemma_active_count_monotone(claims.drop_last(), bounty_id, earlier, later);
    }
}

/// Positions among the first `to` claims of those made by `account`.
pub open spec fn claims_of(claims: Seq<BountyClaim>, account: Seq<char>, to: int) -> Seq<int>
    decreases to,
{
    if to <= 0 {
        Seq::empty()
    } else {
        let rest = claims_of(claims, account, to - 1);
        if claims[to - 1].claimer@ == account {
            rest.push(to - 1)
        } else {
            rest
        }
    }
}

/// Number of claims on `bounty_id` that are active at time `now`.
pub fn count_active(claims: &Vec<BountyClaim>, bounty_id: u64, now: u64) -> (r: u64)
    ensures
        r as int == active_count(claims@, bounty_id, now),
{
    let mut n: u64 = 0;
    let mut i: usize = 0;
    while i < claims.len()
        invariant
            i <= claims@.len(),
            n as int == active_count(claims@.subrange(0, i as int), bounty_id, now),
            n <= i,
        decreases claims@.len() - i,
    {
        assert(claims@.subrange(0, i + 1).drop_last() =~= claims@.subrange(0, i as int));
        let c = &claims[i];
        if c.bounty_id == bounty_id && !c.completed && now as u128 <= c.deadline {
            n = n + 1;
        }
        i += 1;
    }
    assert(claims@.subrange(0, i as int) =~= claims@);
    n
}

fn has_open(claims: &Vec<BountyClaim>, bounty_id: u64, claimer: &String) -> (r: bool)
    ensures
        r == has_open_claim(claims@, bounty_id, claimer@),
{
    let mut i: usize = 0;
    while i < claims.len()
        invariant
            i <= claims@.len(),
            forall|j: int|
                0 <= j < i ==> !is_open_claim(#[trigger] claims@[j], bounty_id, claimer@),
        decreases claims@.len() - i,
    {
        let c = &claims[i];
        if c.bounty_id == bounty_id && !c.completed && c.claimer == *claimer {
            return true;
        }
        i += 1;
    }
    false
}

fn find_live_claim(claims: &Vec<BountyClaim>, bounty_id: u64, claimer: &String, now: u64) -> (r:
    Option<usize>)
    ensures
        r.is_none() == !has_live_claim(claims@, bounty_id, claimer@, now),
        r matches Some(k) ==> first_live_claim(claims@, bounty_id, claimer@, now, k as int),
{
    let mut i: usize = 0;
    while i < claims.len()
        invariant
            i <= claims@.len(),
            forall|j: int|
                0 <= j < i ==> !is_live_claim(#[trigger] claims@[j], bounty_id, claimer@, now),
        decreases claims@.len() - i,
    {
        let c = &claims[i];
        if c.bounty_id == bounty_id && !c.completed && c.claimer == *claimer && now as u128
            <= c.deadline {
            return Some(i);
        }
        i += 1;
    }
    None
}

impl Contract {
    /// Everything but the claims is as in `self`.
    pub open spec fn same_except_claims(&self, after: Contract) -> bool {
        &&& after.config == self.config
        &&& after.policy == self.policy
        &&& after.last_proposal_id == self.last_proposal_id
        &&& after.proposals == self.proposals
        &&& after.last_bounty_id == self.last_bounty_id
        &&& after.bounties == self.bounties
        &&& after.blobs == self.blobs
        &&& after.locked_amount == self.locked_amount
    }

    /// What `claim_bounty` does.
    pub open spec fn claim_outcome(
        &self,
        after: Contract,
        caller: Seq<char>,
        now: u64,
        id: u64,
        r: Result<(), DaoError>,
    ) -> bool {
        &&& id >= self.last_bounty_id ==> r == Err::<(), DaoError>(DaoError::NotFound)
        &&& id < self.last_bounty_id ==> {
            let b = self.bounties@[id as int];
            let active = active_count(self.bounty_claims@, id, now);
            &&& active >= b.max_claims ==> r == Err::<(), DaoError>(DaoError::ClaimLimitReached)
            &&& active < b.max_claims ==> r is Ok
        }
        &&& r is Ok ==> {
            let b = self.bounties@[id as int];
            let c = after.bounty_claims@.last();
            &&& after.bounty_claims@.len() == self.bounty_claims@.len() + 1
            &&& after.bounty_claims@.drop_last() == self.bounty_claims@
            &&& c.bounty_id == id
            &&& c.claimer@ == caller
            &&& c.start_time == now
            &&& c.deadline == now as int + b.deadline_duration as int
            &&& !c.completed
            &&& active_count(after.bounty_claims@, id, now) == active_count(
                self.bounty_claims@,
                id,
                now,
            ) + 1
            &&& active_count(after.bounty_claims@, id, now) <= b.max_claims
            &&& after.same_except_claims(*self)
        }
        &&& r is Err ==> after == *self
    }

    /// `caller` claims bounty `id` at time `now`, if one of its slots is free.
    pub fn claim_bounty(&mut self, caller: &String, now: u64, id: u64) -> (r: Result<(), DaoError>)
        requires
            old(self).wf(),
        ensures
            final(self).wf(),
            old(self).claim_outcome(*final(self), caller@, now, id, r),
    {
        if id >= self.last_bounty_id {
            return Err(DaoError::NotFound);
        }
        let n: usize = self.bounties.len();
        assert(id < n);
        let idx = id as usize;
        let max_claims = self.bounties[idx].max_claims;
        let duration = self.bounties[idx].deadline_duration;
        if count_active(&self.bounty_claims, id, now) >= max_claims as u64 {
            return Err(DaoError::ClaimLimitReached);
        }
        let ghost old_claims = self.bounty_claims@;
        self.bounty_claims.push(
            BountyClaim {
                bounty_id: id,
                claimer: caller.clone(),
                start_time: now,
                deadline: now as u128 + duration as u128,
                completed: false,
            },
        );
        proof {
            assert(self.bounty_claims@.drop_last() =~= old_claims);
        }
        Ok(())
    }

    /// `caller` completes its earliest claim on bounty `id` that is still active
    /// at time `now`, and is paid the reward. Claims past their deadline are
    /// abandoned: they cannot be completed, and they no longer hold a slot.
    pub fn bounty_done(&mut self, caller: &String, now: u64, id: u64) -> (r: Result<
        Transfer,
        DaoError,
    >)
        requires
            old(self).wf(),
        ensures
            final(self).wf(),
            id >= old(self).last_bounty_id ==> r == Err::<Transfer, DaoError>(
                DaoError::NotFound,
            ),
            id < old(self).last_bounty_id && !has_open_claim(
                old(self).bounty_claims@,
                id,
                caller@,
            ) ==> r == Err::<Transfer, DaoError>(DaoError::NotClaimer),
            id < old(self).last_bounty_id && has_open_claim(old(self).bounty_claims@, id, caller@)
                && !has_live_claim(old(self).bounty_claims@, id, caller@, now) ==> r == Err::<
                Transfer,
                DaoError,
            >(DaoError::DeadlineExceeded),
            forall|k: int|
                id < old(self).last_bounty_id && #[trigger] first_live_claim(
                    old(self).bounty_claims@,
                    id,
                    caller@,
                    now,
                    k,
                ) ==> {
                    let c = old(self).bounty_claims@[k];
                    let b = old(self).bounties@[id as int];
                    &&& r is Ok
                    &&& r->Ok_0.receiver_id@ == caller@
                    &&& r->Ok_0.token_id@ == b.token@
                    &&& r->Ok_0.amount == b.amount
                    &&& final(self).bounty_claims@ == old(self).bounty_claims@.update(
                        k,
                        BountyClaim { completed: true, ..c },
                    )
                    &&& final(self).same_except_claims(*old(self))
                },
            r is Err ==> *final(self) == *old(self),
    {
        if id >= self.last_bounty_id {
            return Err(DaoError::NotFound);
        }
        let k = match find_live_claim(&self.bounty_claims, id, caller, now) {
            Some(k) => k,
            None => {
                if has_open(&self.bounty_claims, id, caller) {
                    return Err(DaoError::DeadlineExceeded);
                }
                return Err(DaoError::NotClaimer);
            },
        };
        let n: usize = self.bounties.len();
        assert(id < n);
        let b = &self.bounties[id as usize];
        let t = Transfer { token_id: b.token.clone(), receiver_id: caller.clone(), amount: b.amount };
        let ghost old_claims = self.bounty_claims@;
        let mut c = self.bounty_claims.remove(k);
        c.completed = true;
        self.bounty_claims.insert(k, c);
        proof {
            assert(self.bounty_claims@ =~= old_claims.update(k as int, c));
            assert forall|i: int| 0 <= i < self.bounty_claims@.len() implies (
            #[trigger] self.bounty_claims@[i]).bounty_id < self.last_bounty_id by {
                assert(old_claims[i].bounty_id < self.last_bounty_id);
            }
        }
        Ok(t)
    }

    /// Number of claims on bounty `id` active at time `now`.
    pub fn get_active_claims(&self, id: u64, now: u64) -> (r: u64)
        ensures
            r as int == active_count(self.bounty_claims@, id, now),
    {
        count_active(&self.bounty_claims, id, now)
    }

    /// The claims that `account` has made, in the order made.
    pub fn get_bounty_claims(&self, account: &String) -> (r: Vec<&BountyClaim>)
        ensures
            ({
                let ids = claims_of(self.bounty_claims@, account@, self.bounty_claims@.len() as int);
                &&& r@.len() == ids.len()
                &&& forall|i: int| 0 <= i < ids.len() ==> r@[i] == &self.bounty_claims@[ids[i]]
            }),
    {
        let mut out: Vec<&BountyClaim> = Vec::new();
        let mut i: usize = 0;
        while i < self.bounty_claims.len()
            invariant
                i <= self.bounty_claims@.len(),
                out@.len() == claims_of(self.bounty_claims@, account@, i as int).len(),
                forall|j: int|
                    0 <= j < out@.len() ==> out@[j] == &self.bounty_claims@[claims_of(
                        self.bounty_claims@,
                        account@,
                        i as int,
                    )[j]],
            decreases self.bounty_claims@.len() - i,
        {
            let c = &self.bounty_claims[i];
            if c.claimer == *account {
                out.push(c);
            }
            i += 1;
        }
        out
    }
}

/// With one slot per bounty: a first claim succeeds, a second one before the
/// first claim's deadline fails with `ClaimLimitReached` and changes nothing, and
/// once that deadline has passed with the claim uncompleted a new claim succeeds.
pub proof fn lemma_single_slot(
    s0: Contract,
    s1: Contract,
    s2: Contract,
    s3: Contract,
    first: Seq<char>,
    second: Seq<char>,
    id: u64,
    t0: u64,
    t1: u64,
    t2: u64,
    r1: Result<(), DaoError>,
    r2: Result<(), DaoError>,
    r3: Result<(), DaoError>,
)
    requires
        s0.wf(),
        id < s0.last_bounty_id,
        s0.bounties@[id as int].max_claims == 1,
        active_count(s0.bounty_claims@, id, t0) == 0,
        t0 <= t1,
        t1 as int <= t0 as int + s0.bounties@[id as int].deadline_duration as int,
        t2 as int > t0 as int + s0.bounties@[id as int].deadline_duration as int,
        s0.claim_outcome(s1, first, t0, id, r1),
        s1.claim_outcome(s2, second, t1, id, r2),
        s2.claim_outcome(s3, second, t2, id, r3),
    ensures
        r1 is Ok,
        r2 == Err::<(), DaoError>(DaoError::ClaimLimitReached),
        s2 == s1,
        r3 is Ok,
{
    lemma_active_count_monotone(s0.bounty_claims@, id, t0, t1);
    lemma_active_count_monotone(s0.bounty_claims@, id, t0, t2);
    lemma_active_count_nonneg(s0.bounty_claims@, id, t1);
    lemma_active_count_nonneg(s0.bounty_claims@, id, t2);
    assert(s1.bounty_claims@.drop_last() == s0.bounty_claims@);
    assert(active_count(s1.bounty_claims@, id, t1) == active_count(s0.bounty_claims@, id, t1) + 1);
    assert(active_count(s1.bounty_claims@, id, t2) == active_count(s0.bounty_claims@, id, t2));
    assert(s1.bounties == s0.bounties);
    assert(s1.last_bounty_id == s0.last_bounty_id);
}

} // verus!
