use vstd::prelude::*;

use crate::types::{DaoError, Transfer, BASE_TOKEN};
use crate::Contract;

verus! {

/// Bytes that a stored entry occupies besides its content: the digest key.
pub const HASH_OVERHEAD: u128 = 32;

/// Content stored under its digest, with the bond its owner paid for it.
#[derive(Debug)]
pub struct Blob {
    pub hash: Vec<u8>,
    pub owner: String,
    pub content: Vec<u8>,
    /// Fixed when stored, refunded unchanged on removal.
    pub bond: u128,
}

/// Deposit that storing `len` bytes costs at `byte_cost` per byte.
pub open spec fn storage_bond(len: int, byte_cost: int) -> int {
    (len + HASH_OVERHEAD) * byte_cost
}

pub open spec fn blob_bonds(bs: Seq<Blob>) -> int
    decreases bs.len(),
{
    if bs.len() == 0 {
        0
    } else {
        blob_bonds(bs.drop_last()) + bs.last().bond
    }
}

pub open spec fn has_hash(bs: Seq<Blob>, hash: Seq<u8>) -> bool {
    exists|k: int| 0 <= k < bs.len() && (#[trigger] bs[k]).hash@ == hash
}

pub open spec fn distinct_hashes(bs: Seq<Blob>) -> bool {
    forall|i: int, j: int|
        0 <= i < bs.len() && 0 <= j < bs.len() && i != j ==> (#[trigger] bs[i]).hash@
            != (#[trigger] bs[j]).hash@
}

pub proof fn lemma_blob_bonds_nonneg(bs: Seq<Blob>)
    ensures
        blob_bonds(bs) >= 0,
    decreases bs.len(),
{
    if bs.len() > 0 {
        lemma_blob_bonds_nonneg(bs.drop_last());
    }
}

/// Taking one entry out lowers the total by exactly its bond.
pub proof fn lemma_blob_bonds_remove(bs: Seq<Blob>, i: int)
    requires
        0 <= i < bs.len(),
    ensures
        blob_bonds(bs.remove(i)) == blob_bonds(bs) - bs[i].bond,
    decreases bs.len(),
{
    if i == bs.len() - 1 {
        assert(bs.remove(i) =~= bs.drop_last());
    } else {
        lemma_blob_bonds_remove(bs.drop_last(), i);
        assert(bs.remove(i).drop_last() =~= bs.drop_last().remove(i));
    }
}

fn bytes_equal(a: &Vec<u8>, b: &Vec<u8>) -> (r: bool)
    ensures
        r == (a@ == b@),
{
    if a.len() != b.len() {
        return false;
    }
    let mut i: usize = 0;
    while i < a.len()
        invariant
            a@.len() == b@.len(),
            i <= a@.len(),
            forall|j: int| 0 <= j < i ==> a@[j] == b@[j],
        decreases a@.len() - i,
    {
        if a[i] != b[i] {
            return false;
        }
        i += 1;
    }
    assert(a@ =~= b@);
    true
}

/// Position of the entry stored under `hash`, if any.
fn find_blob(bs: &Vec<Blob>, hash: &Vec<u8>) -> (r: Option<usize>)
    ensures
        r.is_none() == !has_hash(bs@, hash@),
        r matches Some(k) ==> k < bs@.len() && bs@[k as int].hash@ == hash@,
{
    let mut i: usize = 0;
    while i < bs.len()
        invariant
            i <= bs@.len(),
            forall|j: int| 0 <= j < i ==> (#[trigger] bs@[j]).hash@ != hash@,
        decreases bs@.len() - i,
    {
        if bytes_equal(&bs[i].hash, hash) {
            return Some(i);
        }
        i += 1;
    }
    None
}

/// Bond for `len` bytes, or `None` where it exceeds `u128::MAX`.
pub fn compute_storage_bond(len: usize, byte_cost: u128) -> (r: Option<u128>)
    ensures
        r matches Some(b) ==> b as int == storage_bond(len as int, byte_cost as int),
        r.is_none() ==> storage_bond(len as int, byte_cost as int) > u128::MAX,
{
    let size: u128 = len as u128 + HASH_OVERHEAD;
    size.checked_mul(byte_cost)
}

impl Contract {
    /// `after` is this state with `content` stored under `hash` for `caller`.
    pub open spec fn blob_stored(
        &self,
        after: Contract,
        caller: Seq<char>,
        content: Seq<u8>,
        hash: Seq<u8>,
        byte_cost: int,
    ) -> bool {
        let bond = storage_bond(content.len() as int, byte_cost);
        &&& after.blobs@.len() == self.blobs@.len() + 1
        &&& after.blobs@.drop_last() == self.blobs@
        &&& after.blobs@.last().hash@ == hash
        &&& after.blobs@.last().owner@ == caller
        &&& after.blobs@.last().content@ == content
        &&& after.blobs@.last().bond == bond
        &&& after.locked_amount == self.locked_amount + bond
        &&& after.same_except_blobs(*self)
    }

    /// `after` is this state with the entry under `hash` taken out.
    pub open spec fn blob_removed(&self, after: Contract, hash: Seq<u8>) -> bool {
        exists|k: int|
            0 <= k < self.blobs@.len() && (#[trigger] self.blobs@[k]).hash@ == hash
                && after.blobs@ == self.blobs@.remove(k) && after.locked_amount
                == self.locked_amount - self.blobs@[k].bond && after.same_except_blobs(*self)
    }

    /// What `store_blob` does.
    pub open spec fn store_outcome(
        &self,
        after: Contract,
        caller: Seq<char>,
        content: Seq<u8>,
        hash: Seq<u8>,
        deposit: u128,
        byte_cost: u128,
        r: Result<Vec<u8>, DaoError>,
    ) -> bool {
        let bond = storage_bond(content.len() as int, byte_cost as int);
        let taken = has_hash(self.blobs@, hash);
        &&& taken ==> r == Err::<Vec<u8>, DaoError>(DaoError::AlreadyExists)
        &&& !taken && (deposit as int) < bond ==> r == Err::<Vec<u8>, DaoError>(
            DaoError::InsufficientDeposit,
        )
        &&& !taken && bond <= deposit && self.locked_amount + bond > u128::MAX ==> r == Err::<
            Vec<u8>,
            DaoError,
        >(DaoError::LedgerInvariantViolation)
        &&& r is Ok <==> (!taken && bond <= deposit && self.locked_amount + bond <= u128::MAX)
        &&& r matches Ok(h) ==> h@ == hash && self.blob_stored(
            after,
            caller,
            content,
            hash,
            byte_cost as int,
        )
        &&& r is Err ==> after == *self
    }

    /// What `remove_blob` does.
    pub open spec fn remove_outcome(
        &self,
        after: Contract,
        caller: Seq<char>,
        hash: Seq<u8>,
        r: Result<Transfer, DaoError>,
    ) -> bool {
        &&& !has_hash(self.blobs@, hash) ==> r == Err::<Transfer, DaoError>(DaoError::NotFound)
        &&& forall|k: int|
            0 <= k < self.blobs@.len() && (#[trigger] self.blobs@[k]).hash@ == hash ==> {
                if self.blobs@[k].owner@ != caller {
                    r == Err::<Transfer, DaoError>(DaoError::NotOwner)
                } else {
                    &&& r is Ok
                    &&& after.blobs@ == self.blobs@.remove(k)
                    &&& r->Ok_0.receiver_id@ == caller
                    &&& r->Ok_0.token_id@ == BASE_TOKEN@
                    &&& r->Ok_0.amount == self.blobs@[k].bond
                }
            }
        &&& r is Ok ==> self.blob_removed(after, hash)
        &&& r is Err ==> after == *self
    }

    /// Stores `content` under its digest `hash` for `caller`, bonding
    /// `storage_bond(len, byte_cost)` out of the attached `deposit`.
    pub fn store_blob(
        &mut self,
        caller: &String,
        content: Vec<u8>,
        hash: Vec<u8>,
        deposit: u128,
        byte_cost: u128,
    ) -> (r: Result<Vec<u8>, DaoError>)
        requires
            old(self).wf(),
        ensures
            final(self).wf(),
            old(self).store_outcome(
                *final(self),
                caller@,
                content@,
                hash@,
                deposit,
                byte_cost,
                r,
            ),
    {
        if find_blob(&self.blobs, &hash).is_some() {
            return Err(DaoError::AlreadyExists);
        }
        let bond = match compute_storage_bond(content.len(), byte_cost) {
            Some(b) => b,
            None => {
                return Err(DaoError::InsufficientDeposit);
            },
        };
        if deposit < bond {
            return Err(DaoError::InsufficientDeposit);
        }
        let locked = match self.locked_amount.checked_add(bond) {
            Some(l) => l,
            None => {
                return Err(DaoError::LedgerInvariantViolation);
            },
        };
        let key = hash.clone();
        let ghost old_blobs = self.blobs@;
        self.blobs.push(Blob { hash, owner: caller.clone(), content, bond });
        self.locked_amount = locked;
        proof {
            assert(self.blobs@.drop_last() =~= old_blobs);
        }
        Ok(key)
    }

    /// Removes the entry stored under `hash`, which only its owner may do, and
    /// hands its bond back to the owner.
    pub fn remove_blob(&mut self, caller: &String, hash: &Vec<u8>) -> (r: Result<
        Transfer,
        DaoError,
    >)
        requires
            old(self).wf(),
        ensures
            final(self).wf(),
            old(self).remove_outcome(*final(self), caller@, hash@, r),
    {
        let k = match find_blob(&self.blobs, hash) {
            Some(k) => k,
            None => {
                return Err(DaoError::NotFound);
            },
        };
        if self.blobs[k].owner != *caller {
            return Err(DaoError::NotOwner);
        }
        proof {
            lemma_blob_bonds_remove(self.blobs@, k as int);
            crate::proposals::lemma_proposal_bonds_nonneg(self.proposals@);
            lemma_blob_bonds_nonneg(self.blobs@.remove(k as int));
        }
        let blob = self.blobs.remove(k);
        self.locked_amount = self.locked_amount - blob.bond;
        Ok(Transfer { token_id: BASE_TOKEN.to_string(), receiver_id: blob.owner, amount: blob.bond })
    }
}

/// Storing content with a deposit of exactly its bond succeeds, returns the
/// digest and raises the locked amount by that bond, provided the digest is new
/// and the sum fits in `u128`. Removal by another account then fails with
/// `NotOwner` and changes nothing; removal by the owner refunds the bond and
/// brings the locked amount back to its value before the store.
pub proof fn lemma_exact_deposit_store_remove(
    s0: Contract,
    s1: Contract,
    s2: Contract,
    s3: Contract,
    owner: Seq<char>,
    other: Seq<char>,
    content: Seq<u8>,
    hash: Seq<u8>,
    deposit: u128,
    byte_cost: u128,
    r1: Result<Vec<u8>, DaoError>,
    r2: Result<Transfer, DaoError>,
    r3: Result<Transfer, DaoError>,
)
    requires
        s1.wf(),
        !has_hash(s0.blobs@, hash),
        deposit == storage_bond(content.len() as int, byte_cost as int),
        s0.locked_amount + deposit <= u128::MAX,
        other != owner,
        s0.store_outcome(s1, owner, content, hash, deposit, byte_cost, r1),
        s1.remove_outcome(s2, other, hash, r2),
        s2.remove_outcome(s3, owner, hash, r3),
    ensures
        r1 matches Ok(h) && h@ == hash,
        s1.locked_amount == s0.locked_amount + deposit,
        r2 == Err::<Transfer, DaoError>(DaoError::NotOwner),
        s2 == s1,
        r3 matches Ok(t) && t.receiver_id@ == owner && t.amount == deposit,
        s3.locked_amount == s0.locked_amount,
        s3.blobs@ == s0.blobs@,
{
    let last = s1.blobs@.len() - 1;
    assert(s1.blobs@[last].hash@ == hash);
    assert(s1.blobs@[last].owner@ == owner);
    assert(s2 == s1);
    let k = choose|k: int|
        0 <= k < s2.blobs@.len() && (#[trigger] s2.blobs@[k]).hash@ == hash && s3.blobs@
            == s2.blobs@.remove(k) && s3.locked_amount == s2.locked_amount - s2.blobs@[k].bond
            && s3.same_except_blobs(s2);
    assert(k == last);
    assert(s1.blobs@.remove(k) =~= s1.blobs@.drop_last());
}

/// Storing content, removing it and storing it again: removal leaves the blobs
/// and the locked amount exactly as before the first store, with no bond left
/// over, and the second store locks what the first one did.
pub proof fn lemma_blob_round_trip(
    s0: Contract,
    s1: Contract,
    s2: Contract,
    s3: Contract,
    caller: Seq<char>,
    content: Seq<u8>,
    hash: Seq<u8>,
    byte_cost: int,
)
    requires
        s1.wf(),
        s0.blob_stored(s1, caller, content, hash, byte_cost),
        s1.blob_removed(s2, hash),
        s2.blob_stored(s3, caller, content, hash, byte_cost),
    ensures
        s2.blobs@ == s0.blobs@,
        s2.locked_amount == s0.locked_amount,
        blob_bonds(s2.blobs@) == blob_bonds(s0.blobs@),
        s3.locked_amount == s1.locked_amount,
{
    let k = choose|k: int|
        0 <= k < s1.blobs@.len() && (#[trigger] s1.blobs@[k]).hash@ == hash && s2.blobs@
            == s1.blobs@.remove(k) && s2.locked_amount == s1.locked_amount - s1.blobs@[k].bond
            && s2.same_except_blobs(s1);
    let last = s1.blobs@.len() - 1;
    assert(s1.blobs@[last].hash@ == hash);
    assert(k == last);
    assert(s1.blobs@.remove(k) =~= s1.blobs@.drop_last());
}

/// Once content is stored, its digest is recorded among the blobs; by the
/// contract of `store_blob`, a second store under that digest before removal
/// therefore fails with `AlreadyExists` and changes nothing.
pub proof fn lemma_stored_hash_taken(
    s0: Contract,
    s1: Contract,
    caller: Seq<char>,
    content: Seq<u8>,
    hash: Seq<u8>,
    byte_cost: int,
)
    requires
        s0.blob_stored(s1, caller, content, hash, byte_cost),
    ensures
        has_hash(s1.blobs@, hash),
{
    let last = s1.blobs@.len() - 1;
    assert(s1.blobs@[last].hash@ == hash);
}

} // verus!
