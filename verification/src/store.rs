//! The collection of user records, held in memory.
//!
//! The collection keeps its records in the order in which they came. It may
//! carry a unique index on the username; once it does, no two of its records
//! share a username, and an insert that would break this is refused.

use vstd::prelude::*;
use crate::user::{User, UserView};

verus! {

/// The name of the collection that holds the user records.
pub const USERS: &'static str = "users";

/// The collection as specifications see it: the records in the order of their
/// arrival, and whether the unique index on the username exists.
pub struct StoreView {
    pub users: Seq<UserView>,
    pub unique_usernames: bool,
}

impl StoreView {
    /// The collection before anything was stored or indexed.
    pub open spec fn empty() -> StoreView {
        StoreView { users: Seq::empty(), unique_usernames: false }
    }

    /// Some record carries `name`.
    pub open spec fn holds(self, name: Seq<char>) -> bool {
        exists|i: int| 0 <= i < self.users.len() && #[trigger] self.users[i].username == name
    }

    /// No two records share a username.
    pub open spec fn distinct(self) -> bool {
        forall|i: int, j: int|
            0 <= i < j < self.users.len() ==> #[trigger] self.users[i].username
                != #[trigger] self.users[j].username
    }

    /// The index, where it exists, is obeyed.
    pub open spec fn wf(self) -> bool {
        self.unique_usernames ==> self.distinct()
    }

    /// The record at `i` carries `name`, and none before it does.
    pub open spec fn first_named_at(self, name: Seq<char>, i: int) -> bool {
        &&& 0 <= i < self.users.len()
        &&& self.users[i].username == name
        &&& forall|k: int| 0 <= k < i ==> #[trigger] self.users[k].username != name
    }

    /// The earliest record that carries `name`, if any does.
    pub open spec fn find_one(self, name: Seq<char>) -> Option<UserView> {
        if self.holds(name) {
            Some(self.users[choose|i: int| self.first_named_at(name, i)])
        } else {
            None
        }
    }

    /// The index, if it exists, lets `user` in.
    pub open spec fn admits(self, user: UserView) -> bool {
        !(self.unique_usernames && self.holds(user.username))
    }

    /// The collection after an attempt to insert `user`: one record longer
    /// where the user is admitted, unchanged where it is not.
    pub open spec fn insert_one(self, user: UserView) -> StoreView {
        if self.admits(user) {
            StoreView { users: self.users.push(user), ..self }
        } else {
            self
        }
    }

    /// The record at `j` repeats the username of an earlier record.
    pub open spec fn repeats_at(self, j: int) -> bool {
        &&& 0 <= j < self.users.len()
        &&& exists|i: int| 0 <= i < j && #[trigger] self.users[i].username == self.users[j].username
    }

    /// The record at `j` is the earliest that repeats a username.
    pub open spec fn first_repeat_at(self, j: int) -> bool {
        &&& self.repeats_at(j)
        &&& forall|k: int| 0 <= k < j ==> !self.repeats_at(k)
    }

    /// The username that stands in the way of a unique index: that of the
    /// earliest record that repeats one.
    pub open spec fn first_repeated(self) -> Seq<char> {
        self.users[choose|j: int| self.first_repeat_at(j)].username
    }

    /// The collection after an attempt to create the unique index: indexed
    /// where the usernames are distinct, unchanged where they are not.
    pub open spec fn create_unique_index(self) -> StoreView {
        if self.distinct() {
            StoreView { unique_usernames: true, ..self }
        } else {
            self
        }
    }
}

/// At most one position is the first to carry a given name.
pub proof fn lemma_first_named_unique(s: StoreView, name: Seq<char>, i: int, j: int)
    requires
        s.first_named_at(name, i),
        s.first_named_at(name, j),
    ensures
        i == j,
{
    if i < j {
        assert(s.users[i].username != name);
    } else if j < i {
        assert(s.users[j].username != name);
    }
}

/// Where a record is the first to carry a name, it is the one found.
pub proof fn lemma_find_one_at(s: StoreView, name: Seq<char>, i: int)
    requires
        s.first_named_at(name, i),
    ensures
        s.find_one(name) == Some(s.users[i]),
{
    assert(s.holds(name));
    let c = choose|k: int| s.first_named_at(name, k);
    lemma_first_named_unique(s, name, i, c);
}

/// A name that some record carries has a first record that carries it.
pub proof fn lemma_holds_has_first(s: StoreView, name: Seq<char>) -> (i: int)
    requires
        s.holds(name),
    ensures
        s.first_named_at(name, i),
{
    let w = choose|k: int| 0 <= k < s.users.len() && #[trigger] s.users[k].username == name;
    lemma_first_below(s, name, w)
}

proof fn lemma_first_below(s: StoreView, name: Seq<char>, w: int) -> (i: int)
    requires
        0 <= w < s.users.len(),
        s.users[w].username == name,
    ensures
        s.first_named_at(name, i),
        i <= w,
    decreases w,
{
    if exists|k: int| 0 <= k < w && #[trigger] s.users[k].username == name {
        let k = choose|k: int| 0 <= k < w && #[trigger] s.users[k].username == name;
        lemma_first_below(s, name, k)
    } else {
        w
    }
}

/// What a lookup finds carries the name that was asked for and stands in the
/// collection; it finds nothing exactly where no record carries the name.
pub proof fn lemma_find_one_matches(s: StoreView, name: Seq<char>)
    ensures
        s.find_one(name).is_some() == s.holds(name),
        s.find_one(name).is_some() ==> s.find_one(name).unwrap().username == name
            && s.users.contains(s.find_one(name).unwrap()),
{
    if s.holds(name) {
        let i = lemma_holds_has_first(s, name);
        lemma_find_one_at(s, name, i);
    }
}

/// At most one position is the first to repeat a username.
pub proof fn lemma_first_repeat_unique(s: StoreView, i: int, j: int)
    requires
        s.first_repeat_at(i),
        s.first_repeat_at(j),
    ensures
        i == j,
{
    if i < j {
        assert(!s.repeats_at(i));
    } else if j < i {
        assert(!s.repeats_at(j));
    }
}

/// Creating the index a second time changes nothing.
pub proof fn lemma_index_creation_idempotent(s: StoreView)
    ensures
        s.create_unique_index().create_unique_index() == s.create_unique_index(),
        s.wf() ==> s.create_unique_index().wf(),
        s.wf() && s.unique_usernames ==> s.create_unique_index() == s,
{
}

/// Why a request to the collection was refused.
#[derive(Debug, PartialEq, Eq)]
pub enum StoreError {
    /// The unique index does not allow a second record with this username.
    DuplicateKey(String),
}

/// A `StoreError` as specifications see it.
pub enum StoreErrorView {
    DuplicateKey(Seq<char>),
}

impl View for StoreError {
    type V = StoreErrorView;

    open spec fn view(&self) -> StoreErrorView {
        match self {
            StoreError::DuplicateKey(name) => StoreErrorView::DuplicateKey(name@),
        }
    }
}

impl StoreErrorView {
    /// The text that describes the error.
    pub open spec fn message(self) -> Seq<char> {
        match self {
            StoreErrorView::DuplicateKey(name) => "duplicate key error: username "@ + name,
        }
    }
}

impl StoreError {
    /// The text that describes the error.
    pub fn message(&self) -> (text: String)
        ensures
            text@ == self@.message(),
    {
        match self {
            StoreError::DuplicateKey(name) => {
                String::from_str("duplicate key error: username ").concat(name.as_str())
            },
        }
    }
}

/// The collection of user records. Every collection that this module hands
/// out obeys its index (`wf` of its view), and every operation keeps it so.
pub struct UserStore {
    users: Vec<User>,
    unique_usernames: bool,
}

impl View for UserStore {
    type V = StoreView;

    closed spec fn view(&self) -> StoreView {
        StoreView {
            users: Seq::new(self.users@.len(), |i: int| self.users@[i]@),
            unique_usernames: self.unique_usernames,
        }
    }
}

impl UserStore {
    /// A collection without records and without an index.
    pub fn new() -> (store: UserStore)
        ensures
            store@ == StoreView::empty(),
    {
        let store = UserStore { users: Vec::new(), unique_usernames: false };
        assert(store@.users =~= Seq::empty());
        store
    }

    /// The number of records.
    pub fn len(&self) -> (n: usize)
        ensures
            n == self@.users.len(),
    {
        self.users.len()
    }

    /// Whether the unique index on the username exists.
    pub fn has_unique_index(&self) -> (indexed: bool)
        ensures
            indexed == self@.unique_usernames,
    {
        self.unique_usernames
    }

    /// The position of the earliest record that carries `name`.
    fn position(&self, name: &String) -> (at: Option<usize>)
        ensures
            match at {
                Some(i) => self@.first_named_at(name@, i as int),
                None => !self@.holds(name@),
            },
    {
        let mut i: usize = 0;
        while i < self.users.len()
            invariant
                i <= self.users@.len(),
                forall|k: int| 0 <= k < i ==> #[trigger] self@.users[k].username != name@,
            decreases self.users@.len() - i,
        {
            if self.users[i].username == *name {
                return Some(i);
            }
            i += 1;
        }
        None
    }

    /// Looks a record up by its username: a copy of the earliest record that
    /// carries `username`, or `None` where no record does. The collection
    /// stays as it is.
    pub fn find_one(&self, username: &str) -> (found: Option<User>)
        ensures
            match found {
                Some(user) => self@.find_one(username@) == Some(user@),
                None => self@.find_one(username@).is_none(),
            },
    {
        let name = String::from_str(username);
        match self.position(&name) {
            Some(i) => {
                proof {
                    lemma_find_one_at(self@, username@, i as int);
                }
                Some(self.users[i].clone())
            },
            None => None,
        }
    }

    /// Inserts a record. Under the unique index a record whose username is
    /// taken is refused, and the collection stays as it was; every other
    /// record goes to the end of the collection.
    pub fn insert_one(&mut self, user: User) -> (outcome: Result<(), StoreError>)
        requires
            old(self)@.wf(),
        ensures
            final(self)@ == old(self)@.insert_one(user@),
            final(self)@.wf(),
            match outcome {
                Ok(_) => old(self)@.admits(user@),
                Err(error) => !old(self)@.admits(user@) && error@ == StoreErrorView::DuplicateKey(
                    user@.username,
                ),
            },
    {
        if self.unique_usernames {
            if self.position(&user.username).is_some() {
                return Err(StoreError::DuplicateKey(user.username));
            }
        }
        let ghost before = self@;
        self.users.push(user);
        proof {
            assert(self@.users =~= before.users.push(user@));
            if before.unique_usernames {
                assert forall|i: int, j: int| 0 <= i < j < self@.users.len() implies
                    #[trigger] self@.users[i].username != #[trigger] self@.users[j].username by {
                    if j == before.users.len() {
                        assert(before.users[i].username != user@.username);
                    } else {
                        assert(before.users[i].username != before.users[j].username);
                    }
                }
            }
        }
        Ok(())
    }

    /// The position of the earliest record that repeats the username of a
    /// record before it.
    fn first_repeat(&self) -> (at: Option<usize>)
        ensures
            match at {
                Some(j) => self@.first_repeat_at(j as int),
                None => self@.distinct(),
            },
    {
        let mut j: usize = 0;
        while j < self.users.len()
            invariant
                j <= self.users@.len(),
                forall|k: int| 0 <= k < j ==> !self@.repeats_at(k),
            decreases self.users@.len() - j,
        {
            let mut i: usize = 0;
            while i < j
                invariant
                    i <= j < self.users@.len(),
                    forall|k: int| 0 <= k < j ==> !self@.repeats_at(k),
                    forall|k: int|
                        0 <= k < i ==> #[trigger] self@.users[k].username
                            != self@.users[j as int].username,
                decreases j - i,
            {
                if self.users[i].username == self.users[j].username {
                    assert(self@.users[i as int].username == self@.users[j as int].username);
                    return Some(j);
                }
                i += 1;
            }
            j += 1;
        }
        proof {
            assert forall|a: int, b: int| 0 <= a < b < self@.users.len() implies
                #[trigger] self@.users[a].username != #[trigger] self@.users[b].username by {
                if self@.users[a].username == self@.users[b].username {
                    assert(self@.repeats_at(b));
                }
            }
        }
        None
    }

    /// Creates the unique index on the username. Where the index exists
    /// already, or the usernames are distinct, the collection is indexed
    /// afterwards and holds the records it held. Where two records share a
    /// username the index is refused and the collection stays as it was.
    pub fn create_unique_index(&mut self) -> (outcome: Result<(), StoreError>)
        requires
            old(self)@.wf(),
        ensures
            final(self)@ == old(self)@.create_unique_index(),
            final(self)@.wf(),
            match outcome {
                Ok(_) => old(self)@.distinct(),
                Err(error) => !old(self)@.distinct() && error@ == StoreErrorView::DuplicateKey(
                    old(self)@.first_repeated(),
                ),
            },
    {
        if self.unique_usernames {
            return Ok(());
        }
        match self.first_repeat() {
            Some(j) => {
                proof {
                    let c = choose|k: int| self@.first_repeat_at(k);
                    lemma_first_repeat_unique(self@, j as int, c);
                    let i = choose|i: int|
                        0 <= i < j && #[trigger] self@.users[i].username
                            == self@.users[j as int].username;
                    assert(self@.users[i].username == self@.users[j as int].username);
                }
                Err(StoreError::DuplicateKey(self.users[j].username.clone()))
            },
            None => {
                self.unique_usernames = true;
                Ok(())
            },
        }
    }
}

} // verus!
