//! The operator's table of registered users: for each username, the user's
//! current status and the seconds counter used to detect a stop.

use vstd::prelude::*;

verus! {

/// What the operator sees of a user.
#[derive(Clone, Copy, Debug, PartialEq, Eq, Structural)]
pub enum UserStatus {
    Sconnesso,
    Fermo,
    InMovimento,
    Problema,
}

/// A user's status together with the seconds spent without moving.
#[derive(Clone, Copy, Debug, PartialEq, Eq, Structural)]
pub struct Info {
    pub status: UserStatus,
    pub s: u64,
}

/// The entry a user gets when first put in the table.
pub open spec fn initial_info() -> Info {
    Info { status: UserStatus::Sconnesso, s: 0 }
}

/// One row of the table.
pub struct StatusEntry {
    pub username: String,
    pub info: Info,
}

/// The table itself; no username occurs in two rows.
pub struct StatusMap {
    entries: Vec<StatusEntry>,
}

/// What an attempt to change a user's status did.
#[derive(Clone, Copy, Debug, PartialEq, Eq, Structural)]
pub enum StatusUpdate {
    /// The status was different and has been replaced: the display must be refreshed.
    Changed,
    /// The user already had that status.
    Unchanged,
    /// No such user in the table: nothing was changed.
    UnknownUser,
}

impl StatusMap {
    /// The table as a map from usernames to their entries.
    pub closed spec fn view(&self) -> Map<Seq<char>, Info> {
        Map::new(
            |k: Seq<char>| exists|i: int| 0 <= i < self.entries.len() && self.entries[i].username@ == k,
            |k: Seq<char>|
                self.entries[choose|i: int|
                    0 <= i < self.entries.len() && self.entries[i].username@ == k].info,
        )
    }

    /// Usernames are unique across rows.
    pub closed spec fn wf(&self) -> bool {
        forall|i: int, j: int|
            0 <= i < self.entries.len() && 0 <= j < self.entries.len() && i != j
                ==> self.entries[i].username@ != self.entries[j].username@
    }

    proof fn lemma_view_at(&self, i: int)
        requires
            self.wf(),
            0 <= i < self.entries.len(),
        ensures
            self.view().contains_key(self.entries[i].username@),
            self.view()[self.entries[i].username@] == self.entries[i].info,
    {
        let k = self.entries[i].username@;
        assert(self.view().dom().contains(k));
        let j = choose|j: int| 0 <= j < self.entries.len() && self.entries[j].username@ == k;
        assert(j == i);
    }

    /// An empty table.
    pub fn new() -> (m: StatusMap)
        ensures
            m.wf(),
            m.view() == Map::<Seq<char>, Info>::empty(),
    {
        let m = StatusMap { entries: Vec::new() };
        assert(m.view() =~= Map::<Seq<char>, Info>::empty());
        m
    }

    /// Number of users in the table.
    pub fn len(&self) -> (n: usize)
        requires
            self.wf(),
        ensures
            n == self.view().len(),
    {
        proof {
            self.lemma_len();
        }
        self.entries.len()
    }

    proof fn lemma_len(&self)
        requires
            self.wf(),
        ensures
            self.view().dom().finite(),
            self.view().len() == self.entries.len(),
    {
        let names = Seq::new(self.entries.len() as nat, |i: int| self.entries[i].username@);
        assert(names.no_duplicates());
        names.unique_seq_to_set();
        assert(names.to_set() =~= self.view().dom()) by {
            assert forall|k: Seq<char>| names.to_set().contains(k) implies self.view().dom().contains(k) by {
                let i = choose|i: int| 0 <= i < names.len() && names[i] == k;
                assert(self.entries[i].username@ == k);
            }
            assert forall|k: Seq<char>| self.view().dom().contains(k) implies names.to_set().contains(k) by {
                let i = choose|i: int| 0 <= i < self.entries.len() && self.entries[i].username@ == k;
                assert(names[i] == k);
            }
        }
    }

    /// The row holding `username`, if any.
    fn position_of(&self, username: &String) -> (r: Option<usize>)
        requires
            self.wf(),
        ensures
            match r {
                Some(i) => i < self.entries.len() && self.entries[i as int].username@ == username@,
                None => !self.view().contains_key(username@),
            },
    {
        let mut i: usize = 0;
        while i < self.entries.len()
            invariant
                i <= self.entries.len(),
                forall|j: int| 0 <= j < i ==> self.entries[j].username@ != username@,
            decreases self.entries.len() - i,
        {
            if self.entries[i].username == *username {
                return Some(i);
            }
            i = i + 1;
        }
        None
    }

    /// The usernames of the table, one per row.
    pub fn usernames(&self) -> (names: Vec<String>)
        requires
            self.wf(),
        ensures
            names@.len() == self.view().len(),
            forall|i: int| 0 <= i < names@.len() ==> self.view().contains_key(#[trigger] names@[i]@),
            forall|k: Seq<char>| self.view().contains_key(k) ==> exists|i: int| 0 <= i < names@.len() && #[trigger] names@[i]@ == k,
            forall|i: int, j: int| 0 <= i < names@.len() && 0 <= j < names@.len() && i != j ==> names@[i]@ != names@[j]@,
    {
        proof {
            self.lemma_len();
        }
        let mut names: Vec<String> = Vec::new();
        let mut i: usize = 0;
        while i < self.entries.len()
            invariant
                self.wf(),
                i <= self.entries.len(),
                names@.len() == i,
                forall|j: int| 0 <= j < i ==> #[trigger] names@[j]@ == self.entries[j].username@,
            decreases self.entries.len() - i,
        {
            names.push(self.entries[i].username.clone());
            i = i + 1;
        }
        proof {
            assert forall|i: int| 0 <= i < names@.len() implies self.view().contains_key(#[trigger] names@[i]@) by {
                self.lemma_view_at(i);
            }
            assert forall|k: Seq<char>| self.view().contains_key(k) implies exists|i: int| 0 <= i < names@.len() && #[trigger] names@[i]@ == k by {
                let i = choose|i: int| 0 <= i < self.entries.len() && self.entries[i].username@ == k;
                assert(names@[i]@ == k);
            }
        }
        names
    }

    /// Puts `username` in the table with `info`, replacing any earlier entry.
    fn set(&mut self, username: String, info: Info)
        requires
            old(self).wf(),
        ensures
            final(self).wf(),
            final(self).view() == old(self).view().insert(username@, info),
    {
        let ghost key = username@;
        match self.position_of(&username) {
            Some(i) => {
                let ghost before = self.entries@;
                self.entries.set(i, StatusEntry { username, info });
                proof {
                    assert forall|k: Seq<char>| #![auto] self.view().contains_key(k) == old(self).view().insert(key, info).contains_key(k) by {
                        if k != key {
                            if self.view().contains_key(k) {
                                let j = choose|j: int| 0 <= j < self.entries.len() && self.entries[j].username@ == k;
                                assert(before[j].username@ == k);
                            }
                            if old(self).view().contains_key(k) {
                                let j = choose|j: int| 0 <= j < before.len() && before[j].username@ == k;
                                assert(self.entries[j].username@ == k);
                            }
                        } else {
                            assert(self.entries[i as int].username@ == k);
                        }
                    }
                    assert forall|k: Seq<char>| #![auto] self.view().contains_key(k) implies self.view()[k] == old(self).view().insert(key, info)[k] by {
                        let j = choose|j: int| 0 <= j < self.entries.len() && self.entries[j].username@ == k;
                        self.lemma_view_at(j);
                        if k != key {
                            old(self).lemma_view_at(j);
                        }
                    }
                    assert(self.view() =~= old(self).view().insert(key, info));
                }
            },
            None => {
                let ghost before = self.entries@;
                self.entries.push(StatusEntry { username, info });
                proof {
                    let n = before.len() as int;
                    assert forall|k: Seq<char>| #![auto] self.view().contains_key(k) == old(self).view().insert(key, info).contains_key(k) by {
                        if k != key {
                            if self.view().contains_key(k) {
                                let j = choose|j: int| 0 <= j < self.entries.len() && self.entries[j].username@ == k;
                                assert(before[j].username@ == k);
                            }
                            if old(self).view().contains_key(k) {
                                let j = choose|j: int| 0 <= j < before.len() && before[j].username@ == k;
                                assert(self.entries[j].username@ == k);
                            }
                        } else {
                            assert(self.entries[n].username@ == k);
                        }
                    }
                    assert forall|k: Seq<char>| #![auto] self.view().contains_key(k) implies self.view()[k] == old(self).view().insert(key, info)[k] by {
                        let j = choose|j: int| 0 <= j < self.entries.len() && self.entries[j].username@ == k;
                        self.lemma_view_at(j);
                        if k != key {
                            old(self).lemma_view_at(j);
                        }
                    }
                    assert(self.view() =~= old(self).view().insert(key, info));
                }
            },
        }
    }

    /// Removes `username`'s row, if there is one.
    fn unset(&mut self, username: &String)
        requires
            old(self).wf(),
        ensures
            final(self).wf(),
            final(self).view() == old(self).view().remove(username@),
    {
        match self.position_of(username) {
            Some(i) => {
                let ghost before = self.entries@;
                let ghost key = username@;
                let _ = self.entries.remove(i);
                proof {
                    assert forall|k: Seq<char>| #![auto] self.view().contains_key(k) == old(self).view().remove(key).contains_key(k) by {
                        if self.view().contains_key(k) {
                            let j = choose|j: int| 0 <= j < self.entries.len() && self.entries[j].username@ == k;
                            if j < i {
                                assert(before[j].username@ == k);
                            } else {
                                assert(before[j + 1].username@ == k);
                            }
                        }
                        if old(self).view().contains_key(k) && k != key {
                            let j = choose|j: int| 0 <= j < before.len() && before[j].username@ == k;
                            if j < i {
                                assert(self.entries[j].username@ == k);
                            } else {
                                assert(j != i);
                                assert(self.entries[j - 1].username@ == k);
                            }
                        }
                    }
                    assert forall|k: Seq<char>| #![auto] self.view().contains_key(k) implies self.view()[k] == old(self).view().remove(key)[k] by {
                        let j = choose|j: int| 0 <= j < self.entries.len() && self.entries[j].username@ == k;
                        self.lemma_view_at(j);
                        if j < i {
                            old(self).lemma_view_at(j);
                        } else {
                            old(self).lemma_view_at(j + 1);
                        }
                    }
                    assert(self.view() =~= old(self).view().remove(key));
                }
            },
            None => {
                assert(self.view() =~= old(self).view().remove(username@));
            },
        }
    }

    /// The entry of `username`, if present.
    fn lookup(&self, username: &String) -> (r: Option<Info>)
        requires
            self.wf(),
        ensures
            r == (if self.view().contains_key(username@) { Some(self.view()[username@]) } else { None::<Info> }),
    {
        match self.position_of(username) {
            Some(i) => {
                proof {
                    self.lemma_view_at(i as int);
                }
                Some(self.entries[i].info)
            },
            None => None,
        }
    }
}

/// `username`'s entry in `table`, or `None` if the table does not hold it.
pub open spec fn entry_of(table: Map<Seq<char>, Info>, username: Seq<char>) -> Option<Info> {
    if table.contains_key(username) { Some(table[username]) } else { None }
}

/// Puts every name of `users` in the table as disconnected with no seconds counted,
/// replacing any entry the table held for it.
pub fn init_status_map(map: &mut StatusMap, users: Vec<String>)
    requires
        old(map).wf(),
    ensures
        final(map).wf(),
        forall|k: Seq<char>| #![auto] final(map).view().contains_key(k)
            <==> (old(map).view().contains_key(k) || exists|i: int| 0 <= i < users@.len() && users@[i]@ == k),
        forall|k: Seq<char>| #![auto] final(map).view().contains_key(k) ==> final(map).view()[k] == (
            if exists|i: int| 0 <= i < users@.len() && users@[i]@ == k { initial_info() } else { old(map).view()[k] }),
{
    let mut i: usize = 0;
    while i < users.len()
        invariant
            i <= users.len(),
            map.wf(),
            forall|k: Seq<char>| #![auto] map.view().contains_key(k)
                <==> (old(map).view().contains_key(k) || exists|j: int| 0 <= j < i && users@[j]@ == k),
            forall|k: Seq<char>| #![auto] map.view().contains_key(k) ==> map.view()[k] == (
                if exists|j: int| 0 <= j < i && users@[j]@ == k { initial_info() } else { old(map).view()[k] }),
        decreases users.len() - i,
    {
        let name = users[i].clone();
        let ghost before = map.view();
        map.set(name, Info { status: UserStatus::Sconnesso, s: 0 });
        proof {
            assert forall|k: Seq<char>| #![auto] map.view().contains_key(k)
                <==> (old(map).view().contains_key(k) || exists|j: int| 0 <= j < i + 1 && users@[j]@ == k) by {
                if k == users@[i as int]@ {
                    assert(users@[i as int]@ == k);
                } else if exists|j: int| 0 <= j < i + 1 && users@[j]@ == k {
                    let j = choose|j: int| 0 <= j < i + 1 && users@[j]@ == k;
                    assert(j < i);
                }
            }
            assert forall|k: Seq<char>| #![auto] map.view().contains_key(k) implies map.view()[k] == (
                if exists|j: int| 0 <= j < i + 1 && users@[j]@ == k { initial_info() } else { old(map).view()[k] }) by {
                if k == users@[i as int]@ {
                    assert(users@[i as int]@ == k);
                } else if exists|j: int| 0 <= j < i + 1 && users@[j]@ == k {
                    let j = choose|j: int| 0 <= j < i + 1 && users@[j]@ == k;
                    assert(j < i);
                }
            }
        }
        i = i + 1;
    }
}

/// Changes `username`'s status to `new_status`, keeping the seconds counter.
/// Reports whether the status actually changed, or that the user is unknown,
/// in which case the table is left as it was.
pub fn update_user_status(map: &mut StatusMap, username: &String, new_status: UserStatus) -> (r: StatusUpdate)
    requires
        old(map).wf(),
    ensures
        final(map).wf(),
        !old(map).view().contains_key(username@) ==> r == StatusUpdate::UnknownUser && final(map).view() == old(map).view(),
        old(map).view().contains_key(username@) ==> {
            let before = old(map).view()[username@];
            &&& final(map).view() == old(map).view().insert(username@, Info { status: new_status, s: before.s })
            &&& r == (if before.status == new_status { StatusUpdate::Unchanged } else { StatusUpdate::Changed })
        },
{
    match map.lookup(username) {
        Some(info) => {
            if info.status != new_status {
                map.set(username.clone(), Info { status: new_status, s: info.s });
                StatusUpdate::Changed
            } else {
                proof {
                    assert(old(map).view().insert(username@, Info { status: new_status, s: info.s }) =~= old(map).view());
                }
                StatusUpdate::Unchanged
            }
        },
        None => StatusUpdate::UnknownUser,
    }
}

/// Sets `username`'s seconds counter, keeping the status. Returns `false`, leaving the
/// table as it was, when the user is unknown.
pub fn update_user_seconds(map: &mut StatusMap, username: &String, seconds: u64) -> (found: bool)
    requires
        old(map).wf(),
    ensures
        final(map).wf(),
        found == old(map).view().contains_key(username@),
        !found ==> final(map).view() == old(map).view(),
        found ==> final(map).view() == old(map).view().insert(
            username@, Info { status: old(map).view()[username@].status, s: seconds }),
{
    match map.lookup(username) {
        Some(info) => {
            map.set(username.clone(), Info { status: info.status, s: seconds });
            true
        },
        None => false,
    }
}

/// The status and seconds counter of `username`, if the table holds the user.
pub fn get_user_info(map: &StatusMap, username: &String) -> (r: Option<Info>)
    requires
        map.wf(),
    ensures
        r == entry_of(map.view(), username@),
{
    map.lookup(username)
}

/// Takes `username` out of the table; a user that is not there is no error.
pub fn remove_user_from_status_map(map: &mut StatusMap, username: &String)
    requires
        old(map).wf(),
    ensures
        final(map).wf(),
        final(map).view() == old(map).view().remove(username@),
{
    map.unset(username)
}

/// Puts `username` in the table as disconnected with no seconds counted,
/// replacing any earlier entry.
pub fn add_user_to_status_map(map: &mut StatusMap, username: String)
    requires
        old(map).wf(),
    ensures
        final(map).wf(),
        final(map).view() == old(map).view().insert(username@, initial_info()),
{
    map.set(username, Info { status: UserStatus::Sconnesso, s: 0 })
}

/// The text reported to the operator when an update names a user the table lacks.
pub fn unknown_user_message(username: &str) -> (m: String)
    ensures
        m@ == "Utente "@ + username@ + " non trovato nella mappa degli stati."@,
{
    let mut m = String::from_str("Utente ");
    m.append(username);
    m.append(" non trovato nella mappa degli stati.");
    m
}

/// A user just added is found, disconnected and with no seconds counted.
pub proof fn lemma_added_user_is_found_disconnected(table: Map<Seq<char>, Info>, username: Seq<char>)
    ensures
        entry_of(table.insert(username, initial_info()), username) == Some(initial_info()),
{
}

/// A user just removed is not found.
pub proof fn lemma_removed_user_is_not_found(table: Map<Seq<char>, Info>, username: Seq<char>)
    ensures
        entry_of(table.remove(username), username) is None,
{
}

/// Putting in or taking out one user leaves every other user's entry as it was.
pub proof fn lemma_other_users_untouched(table: Map<Seq<char>, Info>, username: Seq<char>, other: Seq<char>, info: Info)
    requires
        username != other,
    ensures
        entry_of(table.insert(username, info), other) == entry_of(table, other),
        entry_of(table.remove(username), other) == entry_of(table, other),
{
}

} // verus!
