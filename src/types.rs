use vstd::prelude::*;

verus! {

/// Failures that an operation can report; a failed call changes nothing.
#[derive(Debug, Clone, Copy, PartialEq, Eq, Structural)]
pub enum DaoError {
    NotFound,
    PermissionDenied,
    AlreadyTerminal,
    AlreadyVoted,
    AlreadyExists,
    InsufficientDeposit,
    ClaimLimitReached,
    DeadlineExceeded,
    NotOwner,
    NotClaimer,
    LedgerInvariantViolation,
    /// No id is left for a new proposal or bounty.
    IdsExhausted,
}

} // verus!

verus! {

/// Token id of the chain's native token.
pub const BASE_TOKEN: &'static str = "";

/// A day in nanoseconds, the unit of block timestamps.
pub const ONE_DAY: u64 = 86_400_000_000_000;

/// What an account asks to do with a proposal.
#[derive(Debug, Clone, Copy, PartialEq, Eq, Structural)]
pub enum Action {
    AddProposal,
    RemoveProposal,
    VoteApprove,
    VoteReject,
    VoteRemove,
    Finalize,
}

/// Organization settings and the economic parameters of proposals.
#[derive(Debug)]
pub struct Config {
    pub name: String,
    pub symbol: String,
    pub icon: Option<String>,
    pub reference: Option<String>,
    pub reference_hash: Option<Vec<u8>>,
    pub decimals: u8,
    /// Deposit that a proposer attaches and gets back on resolution.
    pub proposal_bond: u128,
    /// How long a proposal stays open for votes.
    pub proposal_period: u64,
}

impl Config {
    pub fn test_config() -> (r: Config)
        ensures
            r.proposal_bond == 1_000_000_000_000_000_000_000_000u128,
            r.proposal_period == 7 * ONE_DAY,
            r.decimals == 24,
    {
        Config {
            name: String::from_str("Test"),
            symbol: String::from_str("TEST"),
            icon: None,
            reference: None,
            reference_hash: None,
            decimals: 24,
            proposal_bond: 1_000_000_000_000_000_000_000_000u128,
            proposal_period: 7 * ONE_DAY,
        }
    }
}

/// Two configurations with the same settings.
pub open spec fn same_config(a: Config, b: Config) -> bool {
    &&& a.name@ == b.name@
    &&& a.symbol@ == b.symbol@
    &&& match (a.icon, b.icon) {
        (None, None) => true,
        (Some(x), Some(y)) => x@ == y@,
        _ => false,
    }
    &&& match (a.reference, b.reference) {
        (None, None) => true,
        (Some(x), Some(y)) => x@ == y@,
        _ => false,
    }
    &&& match (a.reference_hash, b.reference_hash) {
        (None, None) => true,
        (Some(x), Some(y)) => x@ == y@,
        _ => false,
    }
    &&& a.decimals == b.decimals
    &&& a.proposal_bond == b.proposal_bond
    &&& a.proposal_period == b.proposal_period
}

fn copy_text(s: &Option<String>) -> (r: Option<String>)
    ensures
        match (r, *s) {
            (None, None) => true,
            (Some(x), Some(y)) => x@ == y@,
            _ => false,
        },
{
    match s {
        None => None,
        Some(t) => Some(t.clone()),
    }
}

fn copy_bytes(v: &Vec<u8>) -> (r: Vec<u8>)
    ensures
        r@ == v@,
{
    let mut r: Vec<u8> = Vec::new();
    let mut i: usize = 0;
    while i < v.len()
        invariant
            i <= v@.len(),
            r@ == v@.subrange(0, i as int),
        decreases v@.len() - i,
    {
        r.push(v[i]);
        i += 1;
        assert(r@ =~= v@.subrange(0, i as int));
    }
    assert(v@.subrange(0, i as int) =~= v@);
    r
}

impl Config {
    pub fn duplicate(&self) -> (r: Config)
        ensures
            same_config(r, *self),
    {
        let reference_hash = match &self.reference_hash {
            None => None,
            Some(h) => Some(copy_bytes(h)),
        };
        Config {
            name: self.name.clone(),
            symbol: self.symbol.clone(),
            icon: copy_text(&self.icon),
            reference: copy_text(&self.reference),
            reference_hash,
            decimals: self.decimals,
            proposal_bond: self.proposal_bond,
            proposal_period: self.proposal_period,
        }
    }
}

/// A value transfer that the host is asked to settle.
#[derive(Debug)]
pub struct Transfer {
    pub token_id: String,
    pub receiver_id: String,
    pub amount: u128,
}

} // verus!
