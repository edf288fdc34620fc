//! The user table and the table of current logins.

use vstd::prelude::*;
use vstd::hash_map::StringHashMap;

verus! {

/// A registered user.
#[derive(Debug, Clone, PartialEq, Eq)]
pub struct User {
    pub name: String,
    pub password: String,
    pub level: i32,
}

/// Registered users by name, and the access token of each user who is
/// logged in.
///
/// The registered users are kept as a list of entries in which no name
/// occurs twice, so that the whole table can be walked and stored.
pub struct UserService {
    registered_users: Vec<(String, User)>,
    login_users: StringHashMap<String>,
}

/// Some entry of `entries` stands under `name`.
pub open spec fn has_entry(entries: Seq<(String, User)>, name: Seq<char>) -> bool {
    exists|i: int| 0 <= i < entries.len() && (#[trigger] entries[i]).0@ == name
}

/// The position of an entry that stands under `name`.
pub open spec fn entry_index(entries: Seq<(String, User)>, name: Seq<char>) -> int {
    choose|i: int| 0 <= i < entries.len() && (#[trigger] entries[i]).0@ == name
}

/// No name occurs twice in `entries`.
pub open spec fn distinct_names(entries: Seq<(String, User)>) -> bool {
    forall|i: int, j: int|
        0 <= i < j < entries.len() ==> (#[trigger] entries[i]).0@ != (#[trigger] entries[j]).0@
}

/// The table that a list of entries stands for.
pub open spec fn table_of(entries: Seq<(String, User)>) -> Map<Seq<char>, User> {
    Map::new(
        |name: Seq<char>| has_entry(entries, name),
        |name: Seq<char>| entries[entry_index(entries, name)].1,
    )
}

/// In a list without repeated names, the entry at `i` is the one its name
/// leads to.
proof fn lemma_entry_found(entries: Seq<(String, User)>, i: int)
    requires
        distinct_names(entries),
        0 <= i < entries.len(),
    ensures
        has_entry(entries, entries[i].0@),
        entry_index(entries, entries[i].0@) == i,
        table_of(entries)[entries[i].0@] == entries[i].1,
{
    let name = entries[i].0@;
    let j = entry_index(entries, name);
    assert(0 <= j < entries.len() && entries[j].0@ == name);
    if j < i {
        assert(entries[j].0@ != entries[i].0@);
    } else if i < j {
        assert(entries[i].0@ != entries[j].0@);
    }
}

/// Replacing the entry under a name, or adding one under a new name, is an
/// insertion into the table.
proof fn lemma_replace_is_insert(entries: Seq<(String, User)>, i: int, entry: (String, User))
    requires
        distinct_names(entries),
        0 <= i < entries.len(),
        entries[i].0@ == entry.0@,
    ensures
        distinct_names(entries.update(i, entry)),
        table_of(entries.update(i, entry)) == table_of(entries).insert(entry.0@, entry.1),
{
    let after = entries.update(i, entry);
    assert forall|a: int, b: int| 0 <= a < b < after.len() implies (#[trigger] after[a]).0@ != (
    #[trigger] after[b]).0@ by {
        assert(entries[a].0@ != entries[b].0@);
    }
    assert forall|name: Seq<char>| #[trigger]
        table_of(after).dom().contains(name) == table_of(entries).insert(
            entry.0@,
            entry.1,
        ).dom().contains(name) by {
        if has_entry(entries, name) {
            let j = entry_index(entries, name);
            assert(after[j].0@ == name);
        }
        if has_entry(after, name) {
            let j = entry_index(after, name);
            assert(entries[j].0@ == name);
        }
    }
    assert forall|name: Seq<char>| has_entry(after, name) implies #[trigger] table_of(after)[name]
        == table_of(entries).insert(entry.0@, entry.1)[name] by {
        let j = entry_index(after, name);
        lemma_entry_found(after, j);
        if j != i {
            assert(entries[j].0@ == name);
            lemma_entry_found(entries, j);
        }
    }
    assert(table_of(after) =~= table_of(entries).insert(entry.0@, entry.1));
}

proof fn lemma_push_is_insert(entries: Seq<(String, User)>, entry: (String, User))
    requires
        distinct_names(entries),
        !has_entry(entries, entry.0@),
    ensures
        distinct_names(entries.push(entry)),
        table_of(entries.push(entry)) == table_of(entries).insert(entry.0@, entry.1),
{
    let after = entries.push(entry);
    let last = entries.len() as int;
    assert forall|a: int, b: int| 0 <= a < b < after.len() implies (#[trigger] after[a]).0@ != (
    #[trigger] after[b]).0@ by {
        if b < last {
            assert(entries[a].0@ != entries[b].0@);
        } else {
            assert(entries[a].0@ != entry.0@);
        }
    }
    assert(after[last].0@ == entry.0@);
    assert forall|name: Seq<char>| #[trigger]
        table_of(after).dom().contains(name) == table_of(entries).insert(
            entry.0@,
            entry.1,
        ).dom().contains(name) by {
        if has_entry(entries, name) {
            let j = entry_index(entries, name);
            assert(after[j].0@ == name);
        }
        if has_entry(after, name) {
            let j = entry_index(after, name);
            if j < last {
                assert(entries[j].0@ == name);
            }
        }
    }
    assert forall|name: Seq<char>| has_entry(after, name) implies #[trigger] table_of(after)[name]
        == table_of(entries).insert(entry.0@, entry.1)[name] by {
        let j = entry_index(after, name);
        lemma_entry_found(after, j);
        if j < last {
            assert(entries[j].0@ == name);
            lemma_entry_found(entries, j);
        }
    }
    assert(table_of(after) =~= table_of(entries).insert(entry.0@, entry.1));
}

impl UserService {
    #[verifier::type_invariant]
    spec fn names_are_distinct(self) -> bool {
        distinct_names(self.registered_users@)
    }

    /// The registered users, by the name each is registered under.
    pub closed spec fn registered(self) -> Map<Seq<char>, User> {
        table_of(self.registered_users@)
    }

    /// The access token of each user who is logged in.
    pub closed spec fn logins(self) -> Map<Seq<char>, String> {
        self.login_users@
    }

    /// `token` is the access token that `name` is logged in with.
    pub open spec fn logged_in_with(self, name: Seq<char>, token: Seq<char>) -> bool {
        self.logins().contains_key(name) && self.logins()[name]@ == token
    }

    /// A service with no user and no login.
    pub fn new() -> (service: Self)
        ensures
            service.registered() == Map::<Seq<char>, User>::empty(),
            service.logins() == Map::<Seq<char>, String>::empty(),
    {
        let service = Self { registered_users: Vec::new(), login_users: StringHashMap::new() };
        assert(service.registered() =~= Map::<Seq<char>, User>::empty());
        service
    }

    /// Whether `user_name` is logged in with `user_token`.
    pub fn check_user_login(&self, user_name: String, user_token: String) -> (ok: bool)
        ensures
            ok == self.logged_in_with(user_name@, user_token@),
    {
        match self.login_users.get(user_name.as_str()) {
            Some(token) => *token == user_token,
            None => false,
        }
    }

    /// Records that `user_name` is logged in with `user_token`, in place of
    /// any earlier token.
    pub fn user_login(&mut self, user_name: String, user_token: String)
        ensures
            final(self).logins() == old(self).logins().insert(user_name@, user_token),
            final(self).registered() == old(self).registered(),
    {
        let Self { registered_users, mut login_users } = self.take();
        login_users.insert(user_name, user_token);
        *self = Self { registered_users, login_users };
    }

    /// Moves the service out and leaves an empty one behind.
    fn take(&mut self) -> (taken: Self)
        ensures
            taken == *old(self),
            distinct_names(taken.registered_users@),
    {
        proof {
            use_type_invariant(&*self);
        }
        let mut taken = Self::new();
        core::mem::swap(self, &mut taken);
        taken
    }

    /// The position of the entry under `name`, if there is one.
    fn find(&self, name: &str) -> (found: Option<usize>)
        ensures
            match found {
                Some(i) => i < self.registered_users@.len() && self.registered_users@[i as int].0@
                    == name@,
                None => !has_entry(self.registered_users@, name@),
            },
    {
        let wanted = name.to_owned();
        let mut i: usize = 0;
        while i < self.registered_users.len()
            invariant
                i <= self.registered_users@.len(),
                wanted@ == name@,
                forall|j: int| 0 <= j < i ==> (#[trigger] self.registered_users@[j]).0@ != name@,
            decreases self.registered_users@.len() - i,
        {
            if self.registered_users[i].0 == wanted {
                return Some(i);
            }
            i = i + 1;
        }
        None
    }

    /// The user registered under `user_name`, if there is one.
    pub fn get_user(&self, user_name: &String) -> (user: Option<&User>)
        ensures
            match user {
                Some(u) => self.registered().contains_key(user_name@) && *u
                    == self.registered()[user_name@],
                None => !self.registered().contains_key(user_name@),
            },
    {
        proof {
            use_type_invariant(self);
        }
        match self.find(user_name.as_str()) {
            Some(i) => {
                proof {
                    lemma_entry_found(self.registered_users@, i as int);
                }
                Some(&self.registered_users[i].1)
            },
            None => None,
        }
    }

    /// Registers `user` under `name`, in place of any user registered under
    /// that name before.
    pub fn register(&mut self, name: String, user: User)
        ensures
            final(self).registered() == old(self).registered().insert(name@, user),
            final(self).logins() == old(self).logins(),
    {
        let found = self.find(name.as_str());
        let Self { mut registered_users, login_users } = self.take();
        match found {
            Some(i) => {
                proof {
                    lemma_replace_is_insert(registered_users@, i as int, (name, user));
                }
                registered_users.set(i, (name, user));
            },
            None => {
                proof {
                    lemma_push_is_insert(registered_users@, (name, user));
                }
                registered_users.push((name, user));
            },
        }
        *self = Self { registered_users, login_users };
    }

    /// Registers `user` under its own name.
    pub fn add_user(&mut self, user: User)
        ensures
            final(self).registered() == old(self).registered().insert(user.name@, user),
            final(self).logins() == old(self).logins(),
    {
        let name = user.name.clone();
        self.register(name, user);
    }

    /// Replaces the user registered under the name of `user`.
    pub fn update_user(&mut self, user: User)
        ensures
            final(self).registered() == old(self).registered().insert(user.name@, user),
            final(self).logins() == old(self).logins(),
    {
        self.add_user(user);
    }

    /// All entries of the user table: each registered name once, with its
    /// user.
    pub fn entries(&self) -> (entries: &Vec<(String, User)>)
        ensures
            distinct_names(entries@),
            table_of(entries@) == self.registered(),
    {
        proof {
            use_type_invariant(self);
        }
        &self.registered_users
    }
}

} // verus!
