//! The user data registry: one content pointer per account.
//!
//! Each account controls its own entry: an IPFS content identifier, a
//! data hash, an encryption public key, and a version counter that grows
//! by one on every update. Caller identity and the host clock are passed
//! in explicitly.

use vstd::prelude::*;

verus! {

/// One account's registered data pointer.
pub struct DataEntry {
    /// Content identifier of the account's encrypted data store.
    pub cid: String,
    /// Grows by one on each update, starting at 1.
    pub version: u64,
    /// Host timestamp of the last update.
    pub updated_at: u64,
    /// Hash of the data, for integrity verification.
    pub data_hash: String,
    /// Public key the data was encrypted for.
    pub public_key: String,
}

/// One account with its entry.
pub struct AccountEntry {
    pub account_id: String,
    pub entry: DataEntry,
}

/// The registry state: at most one entry per account.
pub struct DataRegistry {
    pub entries: Vec<AccountEntry>,
    pub total_users: u64,
}

impl Clone for DataEntry {
    fn clone(&self) -> (res: Self)
        ensures
            res == *self,
    {
        DataEntry {
            cid: self.cid.clone(),
            version: self.version,
            updated_at: self.updated_at,
            data_hash: self.data_hash.clone(),
            public_key: self.public_key.clone(),
        }
    }
}

/// Some entry in `s` belongs to `account`.
pub open spec fn has_account(s: Seq<AccountEntry>, account: Seq<char>) -> bool {
    exists|i: int| 0 <= i < s.len() && (#[trigger] s[i].account_id@) == account
}

/// No two entries in `s` share an account.
pub open spec fn accounts_unique(s: Seq<AccountEntry>) -> bool {
    forall|i: int, j: int|
        0 <= i < j < s.len() ==> (#[trigger] s[i].account_id@) != (#[trigger] s[j].account_id@)
}

impl DataRegistry {
    /// The registry invariant: accounts are unique, the user counter
    /// mirrors the number of entries, and every version is at least 1.
    pub open spec fn wf(self) -> bool {
        &&& accounts_unique(self.entries@)
        &&& self.total_users == self.entries@.len()
        &&& forall|i: int| 0 <= i < self.entries@.len() ==> (#[trigger] self.entries@[i].entry.version) >= 1
    }

    /// The entry of `account`; meaningful under `wf` and `has_account`.
    pub open spec fn spec_entry_of(self, account: Seq<char>) -> DataEntry {
        self.entries@[choose|i: int|
            0 <= i < self.entries@.len() && (#[trigger] self.entries@[i].account_id@)
                == account].entry
    }

    /// An empty registry.
    pub fn new() -> (r: DataRegistry)
        ensures
            r.wf(),
            r.entries@.len() == 0,
            r.total_users == 0,
    {
        DataRegistry { entries: Vec::new(), total_users: 0 }
    }

    /// Index of the entry of `account`, if any.
    fn find_account(&self, account: &String) -> (r: Option<usize>)
        ensures
            match r {
                Some(j) => j < self.entries@.len() && self.entries@[j as int].account_id@
                    == account@ && has_account(self.entries@, account@),
                None => !has_account(self.entries@, account@),
            },
    {
        let n = self.entries.len();
        let mut i: usize = 0;
        while i < n
            invariant
                n == self.entries@.len(),
                0 <= i <= n,
                forall|k: int| 0 <= k < i ==> (#[trigger] self.entries@[k].account_id@) != account@,
            decreases n - i,
        {
            if self.entries[i].account_id == *account {
                return Some(i);
            }
            i += 1;
        }
        None
    }

    /// Registers or updates the data pointer of `account_id` at host
    /// time `now`. A first registration creates the entry at version 1
    /// and counts a new user; an update replaces the pointer and raises
    /// the version by one.
    pub fn set_data(
        &mut self,
        account_id: String,
        now: u64,
        cid: String,
        data_hash: String,
        public_key: String,
    )
        requires
            old(self).wf(),
            // machine limits: the version and user counters have room
            old(self).total_users < u64::MAX,
            has_account(old(self).entries@, account_id@) ==> old(self).spec_entry_of(
                account_id@,
            ).version < u64::MAX,
        ensures
            final(self).wf(),
            final(self).entries@.len() == old(self).entries@.len() + (if has_account(
                old(self).entries@,
                account_id@,
            ) {
                0int
            } else {
                1int
            }),
            final(self).total_users == old(self).total_users + (if has_account(
                old(self).entries@,
                account_id@,
            ) {
                0int
            } else {
                1int
            }),
            has_account(final(self).entries@, account_id@),
            ({
                let e = final(self).spec_entry_of(account_id@);
                &&& e.cid == cid
                &&& e.data_hash == data_hash
                &&& e.public_key == public_key
                &&& e.updated_at == now
                &&& e.version == if has_account(old(self).entries@, account_id@) {
                    old(self).spec_entry_of(account_id@).version + 1
                } else {
                    1int
                }
            }),
            forall|i: int|
                0 <= i < old(self).entries@.len() && old(self).entries@[i].account_id@
                    != account_id@ ==> (#[trigger] final(self).entries@[i]) == old(self).entries@[i],
    {
        let ghost pre = *self;
        match self.find_account(&account_id) {
            Some(j) => {
                proof {
                    let w = choose|i: int|
                        0 <= i < pre.entries@.len() && (#[trigger] pre.entries@[i].account_id@)
                            == account_id@;
                    if w != j as int {
                        assert(false);
                    }
                }
                let v = self.entries[j].entry.version;
                self.entries[j].entry = DataEntry {
                    cid,
                    version: v + 1,
                    updated_at: now,
                    data_hash,
                    public_key,
                };
                proof {
                    assert(self.entries@[j as int].account_id@ == account_id@);
                    let w2 = choose|i: int|
                        0 <= i < self.entries@.len() && (#[trigger] self.entries@[i].account_id@)
                            == account_id@;
                    assert forall|i: int| 0 <= i < self.entries@.len() implies (
                    #[trigger] self.entries@[i].account_id@) == pre.entries@[i].account_id@ by {
                        if i != j as int {
                            assert(self.entries@[i] == pre.entries@[i]);
                        }
                    }
                    if w2 != j as int {
                        assert(false);
                    }
                }
            },
            None => {
                self.entries.push(
                    AccountEntry {
                        account_id,
                        entry: DataEntry {
                            cid,
                            version: 1,
                            updated_at: now,
                            data_hash,
                            public_key,
                        },
                    },
                );
                let t = self.total_users;
                self.total_users = t + 1;
                proof {
                    let n = pre.entries@.len() as int;
                    assert forall|i: int, j: int| 0 <= i < j < self.entries@.len() implies (
                    #[trigger] self.entries@[i].account_id@) != (
                    #[trigger] self.entries@[j].account_id@) by {
                        if j < n {
                            assert(pre.entries@[i].account_id@ != pre.entries@[j].account_id@);
                        } else {
                            if self.entries@[i].account_id@ == self.entries@[j].account_id@ {
                                assert(has_account(pre.entries@, self.entries@[j].account_id@));
                            }
                        }
                    }
                    let w2 = choose|i: int|
                        0 <= i < self.entries@.len() && (#[trigger] self.entries@[i].account_id@)
                            == account_id@;
                    assert(self.entries@[n].account_id@ == account_id@);
                    if w2 != n {
                        assert(false);
                    }
                }
            },
        }
    }

    /// The entry of `account_id`, if any.
    pub fn get_data(&self, account_id: String) -> (r: Option<DataEntry>)
        requires
            self.wf(),
        ensures
            r is Some <==> has_account(self.entries@, account_id@),
            r matches Some(e) ==> e == self.spec_entry_of(account_id@),
    {
        match self.find_account(&account_id) {
            Some(j) => {
                proof {
                    let w = choose|i: int|
                        0 <= i < self.entries@.len() && (#[trigger] self.entries@[i].account_id@)
                            == account_id@;
                    if w != j as int {
                        assert(false);
                    }
                }
                Some(self.entries[j].entry.clone())
            },
            None => None,
        }
    }

    /// The content identifier of `account_id`, if any.
    pub fn get_cid(&self, account_id: String) -> (r: Option<String>)
        requires
            self.wf(),
        ensures
            r is Some <==> has_account(self.entries@, account_id@),
            r matches Some(c) ==> c == self.spec_entry_of(account_id@).cid,
    {
        match self.get_data(account_id) {
            Some(e) => Some(e.cid),
            None => None,
        }
    }

    /// The encryption public key of `account_id`, if any.
    pub fn get_public_key(&self, account_id: String) -> (r: Option<String>)
        requires
            self.wf(),
        ensures
            r is Some <==> has_account(self.entries@, account_id@),
            r matches Some(k) ==> k == self.spec_entry_of(account_id@).public_key,
    {
        match self.get_data(account_id) {
            Some(e) => Some(e.public_key),
            None => None,
        }
    }

    /// Deletes the entry of `account_id`. Returns whether an entry
    /// existed. The order of the remaining entries is not pinned down.
    pub fn delete_data(&mut self, account_id: String) -> (r: bool)
        requires
            old(self).wf(),
        ensures
            final(self).wf(),
            r == has_account(old(self).entries@, account_id@),
            !has_account(final(self).entries@, account_id@),
            r ==> final(self).entries@.len() == old(self).entries@.len() - 1 && final(self).total_users == old(self).total_users - 1,
            !r ==> *final(self) == *old(self),
            forall|a: Seq<char>|
                a != account_id@ ==> (has_account(final(self).entries@, a) == has_account(
                    old(self).entries@,
                    a,
                )),
            forall|a: Seq<char>|
                a != account_id@ && has_account(old(self).entries@, a) ==> final(self).spec_entry_of(a) == old(self).spec_entry_of(a),
    {
        let ghost pre = *self;
        match self.find_account(&account_id) {
            Some(j) => {
                self.entries.swap_remove(j);
                let t = self.total_users;
                self.total_users = t - 1;
                proof {
                    lemma_swap_remove_keeps_others(pre.entries@, self.entries@, j as int);
                }
                true
            },
            None => false,
        }
    }

    /// Whether `account_id` has a registered entry.
    pub fn has_data(&self, account_id: String) -> (r: bool)
        ensures
            r == has_account(self.entries@, account_id@),
    {
        self.find_account(&account_id).is_some()
    }

    /// The number of accounts with a registered entry.
    pub fn get_total_users(&self) -> (r: u64)
        ensures
            r == self.total_users,
    {
        self.total_users
    }

    /// The version of the entry of `account_id`, 0 if there is none.
    pub fn get_version(&self, account_id: String) -> (r: u64)
        requires
            self.wf(),
        ensures
            has_account(self.entries@, account_id@) ==> r == self.spec_entry_of(
                account_id@,
            ).version,
            !has_account(self.entries@, account_id@) ==> r == 0,
    {
        match self.get_data(account_id) {
            Some(e) => e.version,
            None => 0,
        }
    }
}

/// After swap-removing the entry at `j`, every other account keeps its
/// entry, the removed account is gone, and uniqueness is preserved.
proof fn lemma_swap_remove_keeps_others(pre: Seq<AccountEntry>, post: Seq<AccountEntry>, j: int)
    requires
        accounts_unique(pre),
        0 <= j < pre.len(),
        post == pre.update(j, pre.last()).drop_last(),
    ensures
        accounts_unique(post),
        !has_account(post, pre[j].account_id@),
        forall|a: Seq<char>|
            a != pre[j].account_id@ ==> (has_account(post, a) == has_account(pre, a)),
        forall|a: Seq<char>|
            a != pre[j].account_id@ && has_account(pre, a) ==> post[choose|i: int|
                0 <= i < post.len() && (#[trigger] post[i].account_id@) == a].entry == pre[choose|
                i: int,
            | 0 <= i < pre.len() && (#[trigger] pre[i].account_id@) == a].entry,
{
    let n = pre.len() as int;
    assert forall|i: int, k: int| 0 <= i < k < post.len() implies (#[trigger] post[i].account_id@)
        != (#[trigger] post[k].account_id@) by {
        if i == j {
            if j == n - 1 {
            } else {
                assert(post[i] == pre[n - 1]);
                assert(post[k] == pre[k]);
            }
        } else if k == j {
            assert(post[k] == pre[n - 1]);
            assert(post[i] == pre[i]);
        } else {
            assert(post[i] == pre[i]);
            assert(post[k] == pre[k]);
        }
    }
    assert forall|i: int| 0 <= i < post.len() implies (#[trigger] post[i].account_id@) != pre[
        j
    ].account_id@ by {
        if i == j {
            assert(post[i] == pre[n - 1]);
        } else {
            assert(post[i] == pre[i]);
        }
    }
    assert forall|a: Seq<char>| a != pre[j].account_id@ implies (has_account(post, a)
        == has_account(pre, a)) by {
        if has_account(pre, a) {
            let w = choose|i: int| 0 <= i < pre.len() && (#[trigger] pre[i].account_id@) == a;
            if w == n - 1 {
                if j == n - 1 {
                } else {
                    assert(post[j].account_id@ == a);
                }
            } else {
                assert(post[w].account_id@ == a);
            }
        }
        if has_account(post, a) {
            let w = choose|i: int| 0 <= i < post.len() && (#[trigger] post[i].account_id@) == a;
            if w == j {
                assert(pre[n - 1].account_id@ == a);
            } else {
                assert(pre[w].account_id@ == a);
            }
        }
    }
    assert forall|a: Seq<char>| a != pre[j].account_id@ && has_account(pre, a) implies post[choose|
        i: int,
    | 0 <= i < post.len() && (#[trigger] post[i].account_id@) == a].entry == pre[choose|i: int|
        0 <= i < pre.len() && (#[trigger] pre[i].account_id@) == a].entry by {
        let wpre = choose|i: int| 0 <= i < pre.len() && (#[trigger] pre[i].account_id@) == a;
        assert(has_account(post, a));
        let wpost = choose|i: int| 0 <= i < post.len() && (#[trigger] post[i].account_id@) == a;
        let orig = if wpost == j {
            n - 1
        } else {
            wpost
        };
        assert(post[wpost] == pre[orig]);
        assert(pre[orig].account_id@ == a);
        if orig != wpre {
            assert(false);
        }
    }
}

} // verus!
