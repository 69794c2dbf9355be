//! Account identifiers and the small list operations the rest of the crate
//! needs on them.

use vstd::prelude::*;

verus! {

/// A 32-byte identifier of an account: a pool, a claim, a member or a validator.
///
/// Two identifiers are equal exactly when all their bytes are equal.
#[derive(Clone, Copy, Debug)]
pub struct AccountId {
    pub bytes: [u8; 32],
}

impl PartialEq for AccountId {
    fn eq(&self, other: &AccountId) -> (r: bool) {
        let mut i: usize = 0;
        while i < 32
            invariant
                i <= 32,
                forall|j: int| 0 <= j < i ==> self.bytes[j] == other.bytes[j],
            decreases 32 - i,
        {
            if self.bytes[i] != other.bytes[i] {
                return false;
            }
            i = i + 1;
        }
        assert(self.bytes =~= other.bytes);
        true
    }
}

impl Eq for AccountId {

}

impl vstd::std_specs::cmp::PartialEqSpecImpl for AccountId {
    open spec fn obeys_eq_spec() -> bool {
        true
    }

    open spec fn eq_spec(&self, other: &AccountId) -> bool {
        *self == *other
    }
}

impl AccountId {
    /// Wraps 32 raw bytes.
    pub fn new(bytes: [u8; 32]) -> (id: AccountId)
        ensures
            id.bytes == bytes,
    {
        AccountId { bytes }
    }

    /// The identifier whose bytes are all zero.
    pub fn zero() -> (id: AccountId)
        ensures
            id.is_zero(),
    {
        AccountId { bytes: [0u8; 32] }
    }

    /// Holds of the one identifier whose bytes are all zero.
    pub open spec fn is_zero(self) -> bool {
        forall|i: int| 0 <= i < 32 ==> self.bytes[i] == 0u8
    }

    /// The 32 bytes of the identifier.
    pub fn to_bytes(&self) -> (bytes: [u8; 32])
        ensures
            bytes == self.bytes,
    {
        self.bytes
    }
}

/// Tells whether `id` occurs in `list`.
pub fn contains_id(list: &Vec<AccountId>, id: &AccountId) -> (found: bool)
    ensures
        found == list@.contains(*id),
{
    let mut i: usize = 0;
    while i < list.len()
        invariant
            i <= list.len(),
            forall|j: int| 0 <= j < i ==> list@[j] != *id,
        decreases list.len() - i,
    {
        if list[i] == *id {
            return true;
        }
        i = i + 1;
    }
    false
}

/// The position of the first occurrence of `id` in `list`, if there is one.
pub fn position_of(list: &Vec<AccountId>, id: &AccountId) -> (pos: Option<usize>)
    ensures
        match pos {
            Some(p) => {
                &&& p < list.len()
                &&& list@[p as int] == *id
                &&& forall|j: int| 0 <= j < p ==> list@[j] != *id
            },
            None => !list@.contains(*id),
        },
        list@.index_of_first(*id) == match pos {
            Some(p) => Some(p as int),
            None => None,
        },
{
    let mut i: usize = 0;
    while i < list.len()
        invariant
            i <= list.len(),
            forall|j: int| 0 <= j < i ==> list@[j] != *id,
        decreases list.len() - i,
    {
        if list[i] == *id {
            proof {
                list@.index_of_first_ensures(*id);
                assert(list@[i as int] == *id);
            }
            return Some(i);
        }
        i = i + 1;
    }
    proof {
        list@.index_of_first_ensures(*id);
    }
    None
}

/// Removes the first occurrence of `id` from `list`; a list without `id` is left as it is.
pub fn remove_id(list: &mut Vec<AccountId>, id: &AccountId)
    ensures
        final(list)@ == old(list)@.remove_value(*id),
{
    match position_of(list, id) {
        Some(p) => {
            list.remove(p);
        },
        None => {},
    }
}

/// A fresh list holding the same identifiers in the same order.
pub fn copy_ids(list: &Vec<AccountId>) -> (copy: Vec<AccountId>)
    ensures
        copy@ == list@,
{
    let mut copy: Vec<AccountId> = Vec::new();
    let mut i: usize = 0;
    while i < list.len()
        invariant
            i <= list.len(),
            copy@ == list@.take(i as int),
        decreases list.len() - i,
    {
        copy.push(list[i]);
        assert(list@.take(i as int).push(list@[i as int]) =~= list@.take(i + 1));
        i = i + 1;
    }
    assert(list@.take(list.len() as int) =~= list@);
    copy
}

/// Removing the first occurrence of a value keeps a duplicate-free sequence
/// duplicate-free, removes the value altogether and keeps every other element.
pub proof fn lemma_remove_value_distinct(s: Seq<AccountId>, id: AccountId)
    requires
        s.no_duplicates(),
    ensures
        s.remove_value(id).no_duplicates(),
        !s.remove_value(id).contains(id),
        forall|x: AccountId| x != id ==> (s.remove_value(id).contains(x) <==> s.contains(x)),
        s.contains(id) ==> s.remove_value(id).len() == s.len() - 1,
        !s.contains(id) ==> s.remove_value(id) == s,
{
    s.index_of_first_ensures(id);
    match s.index_of_first(id) {
        Some(p) => {
            let r = s.remove(p);
            assert forall|i: int, j: int| 0 <= i < r.len() && 0 <= j < r.len() && i != j implies r[i]
                != r[j] by {
                let si = if i < p { i } else { i + 1 };
                let sj = if j < p { j } else { j + 1 };
                assert(r[i] == s[si] && r[j] == s[sj]);
            }
            assert forall|x: AccountId| x != id implies (r.contains(x) <==> s.contains(x)) by {
                if s.contains(x) {
                    let k = choose|k: int| 0 <= k < s.len() && s[k] == x;
                    let rk = if k < p { k } else { k - 1 };
                    assert(r[rk] == x);
                }
                if r.contains(x) {
                    let k = choose|k: int| 0 <= k < r.len() && r[k] == x;
                    let sk = if k < p { k } else { k + 1 };
                    assert(s[sk] == x);
                }
            }
            if r.contains(id) {
                let k = choose|k: int| 0 <= k < r.len() && r[k] == id;
                let sk = if k < p { k } else { k + 1 };
                assert(s[sk] == id && sk != p);
            }
        },
        None => {},
    }
}

} // verus!
