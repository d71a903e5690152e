//! The in-memory registry of banned user identifiers: a duplicate-free
//! table with exact set semantics, shared between request workers behind a
//! reader-writer lock so a completed ban is visible to every later check.
use vstd::prelude::*;
use vstd::assert_by_contradiction;
use vstd::rwlock::RwLock;
use vstd::rwlock::RwLockPredicate;
use crate::identifiers::UserUuid;

verus! {

/// The table behind the registry: every banned identifier, held once. Its
/// view is the set of banned identifiers.
pub struct BanTable {
    entries: Vec<UserUuid>,
}

impl View for BanTable {
    type V = Set<UserUuid>;

    closed spec fn view(&self) -> Set<UserUuid> {
        Set::new(|u: UserUuid| self.entries@.contains(u))
    }
}

impl BanTable {
    /// Each identifier is held at most once.
    pub closed spec fn wf(&self) -> bool {
        forall|i: int, j: int|
            0 <= i < j < self.entries@.len() ==> self.entries@[i] != self.entries@[j]
    }

    /// An empty table: nobody is banned.
    pub fn new() -> (t: BanTable)
        ensures
            t.wf(),
            t@ == Set::<UserUuid>::empty(),
    {
        let t = BanTable { entries: Vec::new() };
        proof {
            assert(t@ =~= Set::<UserUuid>::empty());
        }
        t
    }

    /// Whether `user` is banned right now.
    pub fn is_banned(&self, user: &UserUuid) -> (b: bool)
        ensures
            b == self@.contains(*user),
    {
        let mut i: usize = 0;
        while i < self.entries.len()
            invariant
                i <= self.entries@.len(),
                forall|j: int| 0 <= j < i ==> self.entries@[j] != *user,
            decreases self.entries@.len() - i,
        {
            if self.entries[i] == *user {
                return true;
            }
            i = i + 1;
        }
        proof {
            assert_by_contradiction!(!self.entries@.contains(*user), {
                let j = choose|j: int|
                    0 <= j < self.entries@.len() && self.entries@[j] == *user;
            });
        }
        false
    }

    /// Bans `user`: afterwards the table holds exactly the old set plus
    /// `user`. Banning twice changes nothing.
    pub fn ban(&mut self, user: UserUuid)
        requires
            old(self).wf(),
        ensures
            final(self).wf(),
            final(self)@ == old(self)@.insert(user),
    {
        if self.is_banned(&user) {
            proof {
                assert(self@ =~= old(self)@.insert(user));
            }
            return ;
        }
        self.entries.push(user);
        proof {
            assert forall|v: UserUuid| self@.contains(v) <==> old(self)@.insert(
                user,
            ).contains(v) by {
                if v == user {
                    assert(self.entries@[self.entries@.len() - 1] == user);
                } else {
                    if old(self).entries@.contains(v) {
                        let j = choose|j: int|
                            0 <= j < old(self).entries@.len() && old(self).entries@[j] == v;
                        assert(self.entries@[j] == v);
                    }
                    if self.entries@.contains(v) {
                        let j = choose|j: int|
                            0 <= j < self.entries@.len() && self.entries@[j] == v;
                        assert(old(self).entries@[j] == v);
                    }
                }
            }
            assert(self@ =~= old(self)@.insert(user));
        }
    }

    /// Unbans `user`: afterwards the table holds exactly the old set less
    /// `user`. Unbanning someone not banned changes nothing.
    pub fn unban(&mut self, user: &UserUuid)
        requires
            old(self).wf(),
        ensures
            final(self).wf(),
            final(self)@ == old(self)@.remove(*user),
    {
        let mut i: usize = 0;
        while i < self.entries.len()
            invariant
                self == old(self),
                old(self).wf(),
                i <= self.entries@.len(),
                forall|j: int| 0 <= j < i ==> self.entries@[j] != *user,
            decreases self.entries@.len() - i,
        {
            if self.entries[i] == *user {
                let ghost pre: Seq<UserUuid> = self.entries@;
                self.entries.remove(i);
                proof {
                    assert(old(self).entries@ == pre);
                    lemma_remove_once(pre, i as int, *user);
                    assert(self@ =~= old(self)@.remove(*user));
                }
                return ;
            }
            i = i + 1;
        }
        proof {
            assert_by_contradiction!(!self.entries@.contains(*user), {
                let j = choose|j: int|
                    0 <= j < self.entries@.len() && self.entries@[j] == *user;
            });
            assert(self@ =~= old(self)@.remove(*user));
        }
    }
}

/// Removing the only occurrence of a value from a duplicate-free sequence
/// keeps it duplicate-free and takes exactly that value out of the contents.
proof fn lemma_remove_once(s: Seq<UserUuid>, at: int, user: UserUuid)
    requires
        0 <= at < s.len(),
        s[at] == user,
        forall|i: int, j: int| 0 <= i < j < s.len() ==> s[i] != s[j],
    ensures
        forall|i: int, j: int|
            0 <= i < j < s.remove(at).len() ==> s.remove(at)[i] != s.remove(at)[j],
        forall|v: UserUuid|
            #[trigger] s.remove(at).contains(v) <==> (s.contains(v) && v != user),
{
    let r = s.remove(at);
    assert forall|v: UserUuid| #[trigger] r.contains(v) implies (s.contains(v) && v != user) by {
        let j = choose|j: int| 0 <= j < r.len() && r[j] == v;
        if j < at {
            assert(s[j] == v);
        } else {
            assert(s[j + 1] == v);
        }
    }
    assert forall|v: UserUuid| (s.contains(v) && v != user) implies #[trigger] r.contains(v) by {
        let j = choose|j: int| 0 <= j < s.len() && s[j] == v;
        if j < at {
            assert(r[j] == v);
        } else {
            assert(r[j - 1] == v);
        }
    }
}

/// Ties the lock to the table's invariant: whatever a worker puts back must
/// still be duplicate-free.
pub struct BanTableWf {}

impl RwLockPredicate<BanTable> for BanTableWf {
    open spec fn inv(self, v: BanTable) -> bool {
        v.wf()
    }
}

/// The registry the server shares between workers. Every operation takes the
/// lock, so a `ban_user` that has returned happened before every later
/// `is_banned`, and concurrent calls never corrupt the table.
pub struct BannedSet {
    pub(crate) lock: RwLock<BanTable, BanTableWf>,
}

impl BannedSet {
    /// A fresh registry with nobody banned; after a restart the persisted
    /// ban flags are the authority until callers re-ban from them.
    pub fn new() -> BannedSet {
        BannedSet { lock: RwLock::new(BanTable::new(), Ghost(BanTableWf {  })) }
    }

    /// Bans `user` in the shared table. The exact effect on the contents is
    /// `BanTable::ban`, applied to the table as it is when the write lock is
    /// granted.
    pub fn ban_user(&self, user: UserUuid) {
        let (mut table, handle) = self.lock.acquire_write();
        table.ban(user);
        handle.release_write(table);
    }

    /// Unbans `user` in the shared table; the exact effect is
    /// `BanTable::unban`.
    pub fn unban_user(&self, user: &UserUuid) {
        let (mut table, handle) = self.lock.acquire_write();
        table.unban(user);
        handle.release_write(table);
    }

    /// Whether `user` is banned: the membership test of `BanTable`, applied
    /// to the table as it is at the moment the read lock is granted.
    pub fn is_banned(&self, user: &UserUuid) -> (b: bool)
        ensures
            exists|t: BanTable| t.wf() && b == t@.contains(*user),
    {
        let handle = self.lock.acquire_read();
        let banned = handle.borrow().is_banned(user);
        handle.release_read();
        banned
    }
}

} // verus!
