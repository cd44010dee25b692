//! The durable record of names: one name per account, the last one written.
use vstd::prelude::*;
use crate::codec::{AccountId, ACCOUNT_ID_LEN};

verus! {

/// A map from account to name. Each account appears at most once.
#[derive(Clone, Debug)]
pub struct Registry {
    accounts: Vec<AccountId>,
    names: Vec<Vec<u8>>,
}

/// Whether two accounts are the same, byte by byte.
fn same_account(a: &AccountId, b: &AccountId) -> (r: bool)
    ensures
        r == (a@ == b@),
{
    let mut i: usize = 0;
    while i < ACCOUNT_ID_LEN
        invariant
            0 <= i <= ACCOUNT_ID_LEN,
            a@.len() == ACCOUNT_ID_LEN,
            b@.len() == ACCOUNT_ID_LEN,
            a@.subrange(0, i as int) == b@.subrange(0, i as int),
        decreases ACCOUNT_ID_LEN - i,
    {
        if a[i] != b[i] {
            assert(a@[i as int] != b@[i as int]);
            return false;
        }
        i = i + 1;
        assert(a@.subrange(0, i as int) =~= b@.subrange(0, i as int));
    }
    assert(a@ =~= a@.subrange(0, ACCOUNT_ID_LEN as int));
    assert(b@ =~= b@.subrange(0, ACCOUNT_ID_LEN as int));
    true
}

impl Registry {
    /// Both lists are the same length and no account appears twice.
    pub closed spec fn wf(&self) -> bool {
        &&& self.accounts@.len() == self.names@.len()
        &&& forall|i: int, j: int|
            0 <= i < j < self.accounts@.len() ==> self.accounts@[i]@ != self.accounts@[j]@
    }

    /// Whether `account` is at position `i`.
    pub closed spec fn holds_at(&self, i: int, account: Seq<u8>) -> bool {
        0 <= i < self.accounts@.len() && self.accounts@[i]@ == account
    }

    /// The names, by account.
    pub closed spec fn view(&self) -> Map<Seq<u8>, Seq<u8>> {
        Map::new(
            |k: Seq<u8>| exists|i: int| self.holds_at(i, k),
            |k: Seq<u8>| self.names@[choose|i: int| self.holds_at(i, k)]@,
        )
    }

    proof fn lemma_view_at(&self, i: int)
        requires
            self.wf(),
            0 <= i < self.accounts@.len(),
        ensures
            self.view().contains_key(self.accounts@[i]@),
            self.view()[self.accounts@[i]@] == self.names@[i]@,
    {
        let k = self.accounts@[i]@;
        assert(self.holds_at(i, k));
        let j = choose|j: int| self.holds_at(j, k);
        assert(j == i) by {
            if j < i {
                assert(self.accounts@[j]@ != self.accounts@[i]@);
            } else if i < j {
                assert(self.accounts@[i]@ != self.accounts@[j]@);
            }
        }
    }

    pub fn new() -> (r: Registry)
        ensures
            r.wf(),
            r.view() == Map::<Seq<u8>, Seq<u8>>::empty(),
    {
        let r = Registry { accounts: Vec::new(), names: Vec::new() };
        assert(r.view() =~= Map::<Seq<u8>, Seq<u8>>::empty());
        r
    }

    /// Position of `account`, if it has a name.
    fn find(&self, account: &AccountId) -> (r: Option<usize>)
        requires
            self.wf(),
        ensures
            match r {
                Some(i) => self.holds_at(i as int, account@),
                None => forall|i: int| !self.holds_at(i, account@),
            },
    {
        let mut i: usize = 0;
        while i < self.accounts.len()
            invariant
                0 <= i <= self.accounts@.len(),
                forall|j: int| 0 <= j < i ==> !self.holds_at(j, account@),
            decreases self.accounts@.len() - i,
        {
            if same_account(&self.accounts[i], account) {
                return Some(i);
            }
            i = i + 1;
        }
        None
    }

    /// The name registered for `account`, if any.
    pub fn get(&self, account: &AccountId) -> (r: Option<Vec<u8>>)
        requires
            self.wf(),
        ensures
            match r {
                Some(n) => self.view().contains_key(account@) && n@ == self.view()[account@],
                None => !self.view().contains_key(account@),
            },
    {
        match self.find(account) {
            Some(i) => {
                proof { self.lemma_view_at(i as int); }
                Some(self.names[i].clone())
            },
            None => None,
        }
    }

    /// Records `name` for `account`, replacing any earlier name.
    pub fn insert(&mut self, account: AccountId, name: Vec<u8>)
        requires
            old(self).wf(),
        ensures
            final(self).wf(),
            final(self).view() == old(self).view().insert(account@, name@),
    {
        let ghost before = *self;
        match self.find(&account) {
            Some(i) => {
                self.names.set(i, name);
                proof {
                    let after = *self;
                    assert forall|k: Seq<u8>| #[trigger] after.view().contains_key(k)
                        <==> before.view().insert(account@, name@).contains_key(k) by {
                        if before.view().contains_key(k) {
                            let j = choose|j: int| before.holds_at(j, k);
                            assert(after.holds_at(j, k));
                        }
                        if after.view().contains_key(k) {
                            let j = choose|j: int| after.holds_at(j, k);
                            assert(before.holds_at(j, k));
                        }
                    }
                    assert forall|k: Seq<u8>| #[trigger] after.view().contains_key(k)
                        implies after.view()[k] == before.view().insert(account@, name@)[k] by {
                        let j = choose|j: int| after.holds_at(j, k);
                        after.lemma_view_at(j);
                        if j != i {
                            before.lemma_view_at(j);
                        }
                    }
                    assert(after.view() =~= before.view().insert(account@, name@));
                }
            },
            None => {
                self.accounts.push(account);
                self.names.push(name);
                proof {
                    let after = *self;
                    let n = before.accounts@.len() as int;
                    assert forall|i: int, j: int| 0 <= i < j < after.accounts@.len()
                        implies after.accounts@[i]@ != after.accounts@[j]@ by {
                        if j == n {
                            assert(!before.holds_at(i, account@));
                        }
                    }
                    assert(after.wf());
                    assert forall|k: Seq<u8>| #[trigger] after.view().contains_key(k)
                        <==> before.view().insert(account@, name@).contains_key(k) by {
                        if before.view().contains_key(k) {
                            let j = choose|j: int| before.holds_at(j, k);
                            assert(after.holds_at(j, k));
                        }
                        if k == account@ {
                            assert(after.holds_at(n, k));
                        }
                        if after.view().contains_key(k) && k != account@ {
                            let j = choose|j: int| after.holds_at(j, k);
                            assert(before.holds_at(j, k));
                        }
                    }
                    assert forall|k: Seq<u8>| #[trigger] after.view().contains_key(k)
                        implies after.view()[k] == before.view().insert(account@, name@)[k] by {
                        let j = choose|j: int| after.holds_at(j, k);
                        after.lemma_view_at(j);
                        if j != n {
                            before.lemma_view_at(j);
                        }
                    }
                    assert(after.view() =~= before.view().insert(account@, name@));
                }
            },
        }
    }
}

} // verus!
