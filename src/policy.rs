use vstd::prelude::*;

use crate::types::Action;

verus! {

/// The closed set of proposal kinds, without their parameters.
#[derive(Debug, Clone, Copy, PartialEq, Eq, Structural)]
pub enum KindLabel {
    Transfer,
    ChangeConfig,
    ChangePolicy,
    AddMemberToRole,
    RemoveMemberFromRole,
    AddBounty,
}

/// A permission: a proposal kind and an action, `None` standing for any.
#[derive(Debug, Clone, Copy, PartialEq, Eq, Structural)]
pub struct Permission {
    pub kind: Option<KindLabel>,
    pub action: Option<Action>,
}

/// Who belongs to a role.
#[derive(Debug)]
pub enum RoleKind {
    Everyone,
    Group(Vec<String>),
}

#[derive(Debug)]
pub struct RolePermission {
    pub name: String,
    pub kind: RoleKind,
    pub permissions: Vec<Permission>,
}

/// How much approval a proposal needs.
#[derive(Debug, Clone, Copy, PartialEq, Eq, Structural)]
pub enum Threshold {
    /// More than `numerator / denominator` of the council.
    Ratio(u64, u64),
    /// A fixed number of votes.
    Weight(u64),
}

#[derive(Debug, Clone, Copy, PartialEq, Eq, Structural)]
pub struct VotePolicy {
    /// Votes needed whatever the threshold gives.
    pub quorum: u64,
    pub threshold: Threshold,
}

#[derive(Debug, Clone, Copy, PartialEq, Eq, Structural)]
pub struct KindVotePolicy {
    pub kind: KindLabel,
    pub policy: VotePolicy,
}

#[derive(Debug)]
pub struct Policy {
    pub roles: Vec<RolePermission>,
    pub default_vote_policy: VotePolicy,
    /// Overrides of the default vote policy; the first entry for a kind wins.
    pub vote_policies: Vec<KindVotePolicy>,
}

pub open spec fn permission_matches(p: Permission, kind: KindLabel, action: Action) -> bool {
    (match p.kind {
        None => true,
        Some(k) => k == kind,
    }) && (match p.action {
        None => true,
        Some(a) => a == action,
    })
}

pub open spec fn grants(perms: Seq<Permission>, kind: KindLabel, action: Action) -> bool {
    exists|i: int| 0 <= i < perms.len() && #[trigger] permission_matches(perms[i], kind, action)
}

pub open spec fn is_member(role: RolePermission, account: Seq<char>) -> bool {
    match role.kind {
        RoleKind::Everyone => true,
        RoleKind::Group(members) => group_has(members@, account),
    }
}

pub open spec fn group_has(members: Seq<String>, account: Seq<char>) -> bool {
    exists|i: int| 0 <= i < members.len() && (#[trigger] members[i])@ == account
}

pub open spec fn role_allows(
    role: RolePermission,
    account: Seq<char>,
    kind: KindLabel,
    action: Action,
) -> bool {
    is_member(role, account) && grants(role.permissions@, kind, action)
}

/// Some role that the account belongs to grants the action on the kind.
pub open spec fn can_act_spec(
    roles: Seq<RolePermission>,
    account: Seq<char>,
    kind: KindLabel,
    action: Action,
) -> bool {
    exists|i: int| 0 <= i < roles.len() && #[trigger] role_allows(roles[i], account, kind, action)
}

/// Number of members that a role adds to the council of a kind: the members of a
/// group that may approve proposals of that kind.
pub open spec fn council_weight(role: RolePermission, kind: KindLabel) -> int {
    match role.kind {
        RoleKind::Everyone => 0,
        RoleKind::Group(members) => if grants(role.permissions@, kind, Action::VoteApprove) {
            members@.len() as int
        } else {
            0
        },
    }
}

/// Size of the council of a kind, capped at `u64::MAX`.
pub open spec fn council_size(roles: Seq<RolePermission>, kind: KindLabel) -> int
    decreases roles.len(),
{
    if roles.len() == 0 {
        0
    } else {
        let s = council_size(roles.drop_last(), kind) + council_weight(roles.last(), kind);
        if s > u64::MAX {
            u64::MAX as int
        } else {
            s
        }
    }
}

/// Votes that a policy requires out of a council of `total`.
pub open spec fn required_votes(vp: VotePolicy, total: int) -> int {
    let t = match vp.threshold {
        Threshold::Weight(w) => w as int,
        Threshold::Ratio(n, d) => if d == 0 {
            total
        } else {
            let r = (n as int) * total / (d as int) + 1;
            if r < total {
                r
            } else {
                total
            }
        },
    };
    if (vp.quorum as int) > t {
        vp.quorum as int
    } else {
        t
    }
}

/// The vote policy of a kind among overrides, falling back on the default.
pub open spec fn find_vote_policy(
    overrides: Seq<KindVotePolicy>,
    kind: KindLabel,
    default: VotePolicy,
) -> VotePolicy
    decreases overrides.len(),
{
    if overrides.len() == 0 {
        default
    } else if overrides[0].kind == kind {
        overrides[0].policy
    } else {
        find_vote_policy(overrides.drop_first(), kind, default)
    }
}

impl Policy {
    pub open spec fn vote_policy_spec(&self, kind: KindLabel) -> VotePolicy {
        find_vote_policy(self.vote_policies@, kind, self.default_vote_policy)
    }

    /// Votes that a proposal of the kind needs to be resolved.
    pub open spec fn threshold_spec(&self, kind: KindLabel) -> int {
        required_votes(self.vote_policy_spec(kind), council_size(self.roles@, kind))
    }
}


fn permission_matches_exec(p: &Permission, kind: KindLabel, action: Action) -> (r: bool)
    ensures
        r == permission_matches(*p, kind, action),
{
    let kind_ok = match p.kind {
        None => true,
        Some(k) => k == kind,
    };
    let action_ok = match p.action {
        None => true,
        Some(a) => a == action,
    };
    kind_ok && action_ok
}

fn permits(perms: &Vec<Permission>, kind: KindLabel, action: Action) -> (r: bool)
    ensures
        r == grants(perms@, kind, action),
{
    let mut i: usize = 0;
    while i < perms.len()
        invariant
            i <= perms@.len(),
            forall|j: int| 0 <= j < i ==> !permission_matches(#[trigger] perms@[j], kind, action),
        decreases perms@.len() - i,
    {
        if permission_matches_exec(&perms[i], kind, action) {
            return true;
        }
        i += 1;
    }
    false
}

fn group_contains(members: &Vec<String>, account: &String) -> (r: bool)
    ensures
        r == group_has(members@, account@),
{
    let mut i: usize = 0;
    while i < members.len()
        invariant
            i <= members@.len(),
            forall|j: int| 0 <= j < i ==> (#[trigger] members@[j])@ != account@,
        decreases members@.len() - i,
    {
        if members[i] == *account {
            assert(members@[i as int]@ == account@);
            return true;
        }
        i += 1;
    }
    false
}

fn has_member(role: &RolePermission, account: &String) -> (r: bool)
    ensures
        r == is_member(*role, account@),
{
    match &role.kind {
        RoleKind::Everyone => true,
        RoleKind::Group(members) => group_contains(members, account),
    }
}

fn council_weight_exec(role: &RolePermission, kind: KindLabel) -> (r: u64)
    ensures
        r as int == council_weight(*role, kind),
{
    match &role.kind {
        RoleKind::Everyone => 0,
        RoleKind::Group(members) => {
            if permits(&role.permissions, kind, Action::VoteApprove) {
                members.len() as u64
            } else {
                0
            }
        },
    }
}

impl Policy {
    /// Whether some role of the account grants it the action on the kind.
    pub fn can_act(&self, account: &String, kind: KindLabel, action: Action) -> (r: bool)
        ensures
            r == can_act_spec(self.roles@, account@, kind, action),
    {
        let mut i: usize = 0;
        while i < self.roles.len()
            invariant
                i <= self.roles@.len(),
                forall|j: int|
                    0 <= j < i ==> !role_allows(#[trigger] self.roles@[j], account@, kind, action),
            decreases self.roles@.len() - i,
        {
            let role = &self.roles[i];
            if has_member(role, account) && permits(&role.permissions, kind, action) {
                assert(role_allows(self.roles@[i as int], account@, kind, action));
                return true;
            }
            i += 1;
        }
        false
    }

    /// Size of the council that votes on the kind.
    pub fn council_size_of(&self, kind: KindLabel) -> (r: u64)
        ensures
            r as int == council_size(self.roles@, kind),
    {
        let mut total: u64 = 0;
        let mut i: usize = 0;
        while i < self.roles.len()
            invariant
                i <= self.roles@.len(),
                total as int == council_size(self.roles@.subrange(0, i as int), kind),
            decreases self.roles@.len() - i,
        {
            let w = council_weight_exec(&self.roles[i], kind);
            assert(self.roles@.subrange(0, i + 1).drop_last() =~= self.roles@.subrange(0, i as int));
            total = total.saturating_add(w);
            i += 1;
        }
        assert(self.roles@.subrange(0, i as int) =~= self.roles@);
        total
    }

    /// The vote policy that applies to the kind.
    pub fn vote_policy(&self, kind: KindLabel) -> (r: VotePolicy)
        ensures
            r == self.vote_policy_spec(kind),
    {
        let n = self.vote_policies.len();
        let mut i: usize = 0;
        assert(self.vote_policies@.subrange(0, n as int) =~= self.vote_policies@);
        while i < n
            invariant
                n == self.vote_policies@.len(),
                i <= n,
                find_vote_policy(self.vote_policies@, kind, self.default_vote_policy)
                    == find_vote_policy(
                    self.vote_policies@.subrange(i as int, n as int),
                    kind,
                    self.default_vote_policy,
                ),
            decreases n - i,
        {
            assert(self.vote_policies@.subrange(i as int, n as int).drop_first()
                =~= self.vote_policies@.subrange(i + 1, n as int));
            if self.vote_policies[i].kind == kind {
                return self.vote_policies[i].policy;
            }
            i += 1;
        }
        self.default_vote_policy
    }

    /// Votes that a proposal of the kind needs to be resolved.
    pub fn threshold(&self, kind: KindLabel) -> (r: u64)
        ensures
            r as int == self.threshold_spec(kind),
    {
        let total = self.council_size_of(kind);
        required_votes_exec(self.vote_policy(kind), total)
    }
}

proof fn lemma_ratio_bound(n: int, total: int, d: int)
    requires
        0 <= n <= u64::MAX,
        0 <= total <= u64::MAX,
        1 <= d,
    ensures
        n * total <= u64::MAX * u64::MAX,
        n * total / d <= n * total,
{
    assert(n * total <= u64::MAX * u64::MAX) by (nonlinear_arith)
        requires
            0 <= n <= u64::MAX,
            0 <= total <= u64::MAX,
    ;
    assert(n * total / d <= n * total) by (nonlinear_arith)
        requires
            0 <= n * total,
            1 <= d,
    ;
}

/// Votes that a policy requires out of a council of `total`.
pub fn required_votes_exec(vp: VotePolicy, total: u64) -> (r: u64)
    ensures
        r as int == required_votes(vp, total as int),
{
    let t: u64 = match vp.threshold {
        Threshold::Weight(w) => w,
        Threshold::Ratio(n, d) => {
            if d == 0 {
                total
            } else {
                proof {
                    lemma_ratio_bound(n as int, total as int, d as int);
                }
                let prod: u128 = (n as u128) * (total as u128);
                let q: u128 = prod / (d as u128) + 1;
                if q < total as u128 {
                    q as u64
                } else {
                    total
                }
            }
        },
    };
    if vp.quorum > t {
        vp.quorum
    } else {
        t
    }
}

/// Whether `votes` reach what the policy requires out of a council of `total`.
pub fn threshold_met(vp: VotePolicy, total: u64, votes: u64) -> (r: bool)
    ensures
        r == (votes as int >= required_votes(vp, total as int)),
{
    votes >= required_votes_exec(vp, total)
}

/// `k` is the first role that is a group named `name`.
pub open spec fn first_group_role(roles: Seq<RolePermission>, name: Seq<char>, k: int) -> bool {
    &&& 0 <= k < roles.len()
    &&& roles[k].name@ == name
    &&& roles[k].kind is Group
    &&& forall|j: int|
        0 <= j < k ==> !((#[trigger] roles[j]).name@ == name && roles[j].kind is Group)
}

pub open spec fn has_group_role(roles: Seq<RolePermission>, name: Seq<char>) -> bool {
    exists|k: int| 0 <= k < roles.len() && (#[trigger] roles[k]).name@ == name && roles[k].kind is Group
}

/// Position of the first group role named `name`, if any.
pub fn find_group_role(roles: &Vec<RolePermission>, name: &String) -> (r: Option<usize>)
    ensures
        r.is_none() == !has_group_role(roles@, name@),
        r matches Some(k) ==> first_group_role(roles@, name@, k as int),
{
    let mut i: usize = 0;
    while i < roles.len()
        invariant
            i <= roles@.len(),
            forall|j: int|
                0 <= j < i ==> !((#[trigger] roles@[j]).name@ == name@ && roles@[j].kind is Group),
        decreases roles@.len() - i,
    {
        let is_group = match &roles[i].kind {
            RoleKind::Group(_) => true,
            RoleKind::Everyone => false,
        };
        if is_group && roles[i].name == *name {
            return Some(i);
        }
        i += 1;
    }
    None
}

/// `after` is `before` with `member` in the group role at `k`: appended unless
/// it was there already.
pub open spec fn member_added(before: Policy, after: Policy, k: int, member: Seq<char>) -> bool {
    &&& after.default_vote_policy == before.default_vote_policy
    &&& after.vote_policies == before.vote_policies
    &&& after.roles@.len() == before.roles@.len()
    &&& forall|j: int|
        0 <= j < before.roles@.len() && j != k ==> #[trigger] after.roles@[j] == before.roles@[j]
    &&& after.roles@[k].name == before.roles@[k].name
    &&& after.roles@[k].permissions == before.roles@[k].permissions
    &&& after.roles@[k].kind is Group
    &&& ({
        let m0 = before.roles@[k].kind->Group_0@;
        let m1 = after.roles@[k].kind->Group_0@;
        if group_has(m0, member) {
            m1 == m0
        } else {
            m1.drop_last() == m0 && m1.last()@ == member
        }
    })
}

impl Policy {
    /// Adds `member` to the group role at `k`, unless it is in it already.
    pub fn add_member_at(&mut self, k: usize, member: &String)
        requires
            k < old(self).roles@.len(),
            old(self).roles@[k as int].kind is Group,
        ensures
            member_added(*old(self), *final(self), k as int, member@),
    {
        let ghost old_roles = self.roles@;
        let mut role = self.roles.remove(k);
        let ghost old_role = role;
        let mut members = match role.kind {
            RoleKind::Group(m) => m,
            RoleKind::Everyone => Vec::new(),
        };
        let ghost before = members@;
        if !group_contains(&members, member) {
            members.push(member.clone());
            proof {
                assert(members@.drop_last() =~= before);
            }
        }
        role.kind = RoleKind::Group(members);
        self.roles.insert(k, role);
        proof {
            assert(self.roles@ =~= old_roles.update(k as int, role));
        }
    }
}

/// `i` is the first position of `member` in `members`.
pub open spec fn first_member(members: Seq<String>, member: Seq<char>, i: int) -> bool {
    &&& 0 <= i < members.len()
    &&& members[i]@ == member
    &&& forall|j: int| 0 <= j < i ==> (#[trigger] members[j])@ != member
}

/// `after` is `before` with `member` taken out of the group role at `k`, if it
/// was in it.
pub open spec fn member_removed(before: Policy, after: Policy, k: int, member: Seq<char>) -> bool {
    &&& after.default_vote_policy == before.default_vote_policy
    &&& after.vote_policies == before.vote_policies
    &&& after.roles@.len() == before.roles@.len()
    &&& forall|j: int|
        0 <= j < before.roles@.len() && j != k ==> #[trigger] after.roles@[j] == before.roles@[j]
    &&& after.roles@[k].name == before.roles@[k].name
    &&& after.roles@[k].permissions == before.roles@[k].permissions
    &&& after.roles@[k].kind is Group
    &&& ({
        let m0 = before.roles@[k].kind->Group_0@;
        let m1 = after.roles@[k].kind->Group_0@;
        if group_has(m0, member) {
            exists|i: int| first_member(m0, member, i) && m1 == m0.remove(i)
        } else {
            m1 == m0
        }
    })
}

fn position_of(members: &Vec<String>, member: &String) -> (r: Option<usize>)
    ensures
        r.is_none() == !group_has(members@, member@),
        r matches Some(i) ==> first_member(members@, member@, i as int),
{
    let mut i: usize = 0;
    while i < members.len()
        invariant
            i <= members@.len(),
            forall|j: int| 0 <= j < i ==> (#[trigger] members@[j])@ != member@,
        decreases members@.len() - i,
    {
        if members[i] == *member {
            return Some(i);
        }
        i += 1;
    }
    None
}

impl Policy {
    /// Takes `member` out of the group role at `k`.
    pub fn remove_member_at(&mut self, k: usize, member: &String)
        requires
            k < old(self).roles@.len(),
            old(self).roles@[k as int].kind is Group,
        ensures
            member_removed(*old(self), *final(self), k as int, member@),
    {
        let ghost old_roles = self.roles@;
        let mut role = self.roles.remove(k);
        let mut members = match role.kind {
            RoleKind::Group(m) => m,
            RoleKind::Everyone => Vec::new(),
        };
        let ghost before = members@;
        match position_of(&members, member) {
            Some(i) => {
                members.remove(i);
                assert(first_member(before, member@, i as int) && members@ == before.remove(
                    i as int,
                ));
            },
            None => {},
        }
        role.kind = RoleKind::Group(members);
        self.roles.insert(k, role);
        proof {
            assert(self.roles@ =~= old_roles.update(k as int, role));
        }
    }
}

/// Two roles with the same name, members and permissions.
pub open spec fn same_role(a: RolePermission, b: RolePermission) -> bool {
    &&& a.name@ == b.name@
    &&& a.permissions@ == b.permissions@
    &&& match (a.kind, b.kind) {
        (RoleKind::Everyone, RoleKind::Everyone) => true,
        (RoleKind::Group(x), RoleKind::Group(y)) => x@.len() == y@.len() && forall|i: int|
            0 <= i < x@.len() ==> (#[trigger] x@[i])@ == y@[i]@,
        _ => false,
    }
}

/// Two policies that decide every question alike.
pub open spec fn same_policy(a: Policy, b: Policy) -> bool {
    &&& a.default_vote_policy == b.default_vote_policy
    &&& a.vote_policies@ == b.vote_policies@
    &&& a.roles@.len() == b.roles@.len()
    &&& forall|i: int| 0 <= i < a.roles@.len() ==> same_role(#[trigger] a.roles@[i], b.roles@[i])
}

fn copy_strings(v: &Vec<String>) -> (r: Vec<String>)
    ensures
        r@.len() == v@.len(),
        forall|i: int| 0 <= i < v@.len() ==> (#[trigger] r@[i])@ == v@[i]@,
{
    let mut r: Vec<String> = Vec::new();
    let mut i: usize = 0;
    while i < v.len()
        invariant
            i <= v@.len(),
            r@.len() == i,
            forall|j: int| 0 <= j < i ==> (#[trigger] r@[j])@ == v@[j]@,
        decreases v@.len() - i,
    {
        r.push(v[i].clone());
        i += 1;
    }
    r
}

fn copy_permissions(v: &Vec<Permission>) -> (r: Vec<Permission>)
    ensures
        r@ == v@,
{
    let mut r: Vec<Permission> = Vec::new();
    let mut i: usize = 0;
    while i < v.len()
        invariant
            i <= v@.len(),
            r@ == v@.subrange(0, i as int),
        decreases v@.len() - i,
    {
        r.push(v[i]);
        i += 1;
        assert(r@ =~= v@.subrange(0, i as int));
    }
    assert(v@.subrange(0, i as int) =~= v@);
    r
}

fn copy_vote_policies(v: &Vec<KindVotePolicy>) -> (r: Vec<KindVotePolicy>)
    ensures
        r@ == v@,
{
    let mut r: Vec<KindVotePolicy> = Vec::new();
    let mut i: usize = 0;
    while i < v.len()
        invariant
            i <= v@.len(),
            r@ == v@.subrange(0, i as int),
        decreases v@.len() - i,
    {
        r.push(v[i]);
        i += 1;
        assert(r@ =~= v@.subrange(0, i as int));
    }
    assert(v@.subrange(0, i as int) =~= v@);
    r
}

impl RolePermission {
    pub fn duplicate(&self) -> (r: RolePermission)
        ensures
            same_role(r, *self),
    {
        let kind = match &self.kind {
            RoleKind::Everyone => RoleKind::Everyone,
            RoleKind::Group(m) => RoleKind::Group(copy_strings(m)),
        };
        RolePermission {
            name: self.name.clone(),
            kind,
            permissions: copy_permissions(&self.permissions),
        }
    }
}

impl Policy {
    pub fn duplicate(&self) -> (r: Policy)
        ensures
            same_policy(r, *self),
    {
        let mut roles: Vec<RolePermission> = Vec::new();
        let mut i: usize = 0;
        while i < self.roles.len()
            invariant
                i <= self.roles@.len(),
                roles@.len() == i,
                forall|j: int| 0 <= j < i ==> same_role(#[trigger] roles@[j], self.roles@[j]),
            decreases self.roles@.len() - i,
        {
            roles.push(self.roles[i].duplicate());
            i += 1;
        }
        Policy {
            roles,
            default_vote_policy: self.default_vote_policy,
            vote_policies: copy_vote_policies(&self.vote_policies),
        }
    }
}

} // verus!
