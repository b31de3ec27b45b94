use vstd::prelude::*;

use crate::text::str_eq;

verus! {

/// One identity record, as the persistence collaborator holds it.  The
/// password hash is a salted PHC string; the raw password never appears.
/// Timestamps are seconds of UTC.
#[derive(Debug)]
pub struct User {
    pub id: u64,
    pub email: String,
    pub user_name: String,
    pub password_hash: String,
    /// The kind string as stored; [`crate::user::UserKind`] reads it.
    pub kind: String,
    pub creation_time: i64,
    pub last_action_time: i64,
}

impl Clone for User {
    fn clone(&self) -> (r: Self)
        ensures
            r == *self,
    {
        User {
            id: self.id,
            email: self.email.clone(),
            user_name: self.user_name.clone(),
            password_hash: self.password_hash.clone(),
            kind: self.kind.clone(),
            creation_time: self.creation_time,
            last_action_time: self.last_action_time,
        }
    }
}

/// One named bearer token of one user: the salted hash of its secret —
/// never the secret itself — with creation and expiration instants.
#[derive(Debug)]
pub struct TokenRecord {
    pub user_id: u64,
    pub name: String,
    pub token_hash: String,
    pub creation_time: i64,
    pub expiration_time: i64,
}

impl Clone for TokenRecord {
    fn clone(&self) -> (r: Self)
        ensures
            r == *self,
    {
        TokenRecord {
            user_id: self.user_id,
            name: self.name.clone(),
            token_hash: self.token_hash.clone(),
            creation_time: self.creation_time,
            expiration_time: self.expiration_time,
        }
    }
}

/// Metadata for one uploaded resource: its identifier, its owner when the
/// upload was not anonymous, and the instant past which it is reclaimed.
#[derive(Debug)]
pub struct FileRecord {
    pub id: u64,
    pub user_id: Option<u64>,
    pub expiration_time: i64,
}

impl Clone for FileRecord {
    fn clone(&self) -> (r: Self)
        ensures
            r == *self,
    {
        FileRecord { id: self.id, user_id: self.user_id, expiration_time: self.expiration_time }
    }
}

/// In-memory image of the three tables the persistence collaborator keeps.
#[derive(Debug)]
pub struct Store {
    pub users: Vec<User>,
    pub tokens: Vec<TokenRecord>,
    pub files: Vec<FileRecord>,
}

/// User ids, emails and display names are pairwise distinct.
pub open spec fn users_unique(users: Seq<User>) -> bool {
    forall|i: int, j: int|
        #![trigger users[i], users[j]]
        0 <= i < j < users.len() ==> users[i].id != users[j].id && users[i].email@
            != users[j].email@ && users[i].user_name@ != users[j].user_name@
}

/// No owner holds two tokens of the same name.
pub open spec fn token_names_unique(tokens: Seq<TokenRecord>) -> bool {
    forall|i: int, j: int|
        #![trigger tokens[i], tokens[j]]
        0 <= i < j < tokens.len() ==> !(tokens[i].user_id == tokens[j].user_id
            && tokens[i].name@ == tokens[j].name@)
}

/// File identifiers are pairwise distinct.
pub open spec fn file_ids_unique(files: Seq<FileRecord>) -> bool {
    forall|i: int, j: int|
        #![trigger files[i], files[j]]
        0 <= i < j < files.len() ==> files[i].id != files[j].id
}

impl Store {
    /// The uniqueness the persistence layer enforces: user ids, emails and
    /// display names are unique across users, token names are unique per
    /// owner, and file identifiers are unique.
    pub open spec fn wf(&self) -> bool {
        users_unique(self.users@) && token_names_unique(self.tokens@) && file_ids_unique(
            self.files@,
        )
    }

    /// An empty store.
    pub fn new() -> (r: Store)
        ensures
            r.wf(),
            r.users@.len() == 0,
            r.tokens@.len() == 0,
            r.files@.len() == 0,
    {
        Store { users: Vec::new(), tokens: Vec::new(), files: Vec::new() }
    }

    /// Position of the user with this email, if any.
    pub fn find_user_by_email(&self, email: &str) -> (r: Option<usize>)
        ensures
            (match r {
                Some(i) => i < self.users@.len() && self.users@[i as int].email@ == email@
                    && spec_find_user_by_email(self.users@, email@) == Some(
                    self.users@[i as int],
                ),
                None => spec_find_user_by_email(self.users@, email@) is None,
            }),
    {
        let n = self.users.len();
        let mut i: usize = 0;
        while i < n
            invariant
                i <= n,
                n == self.users@.len(),
                forall|j: int| 0 <= j < i ==> #[trigger] self.users@[j].email@ != email@,
            decreases n - i,
        {
            if str_eq(self.users[i].email.as_str(), email) {
                proof {
                    lemma_find_user_by_email_prefix(self.users@, email@, i as int);
                }
                return Some(i);
            }
            i = i + 1;
        }
        proof {
            lemma_find_user_by_email_prefix(self.users@, email@, n as int);
        }
        None
    }

    /// Position of the user with this identifier, if any.
    pub fn find_user_by_id(&self, id: u64) -> (r: Option<usize>)
        ensures
            (match r {
                Some(i) => i < self.users@.len() && self.users@[i as int].id == id
                    && spec_find_user_by_id(self.users@, id) == Some(self.users@[i as int]),
                None => spec_find_user_by_id(self.users@, id) is None,
            }),
    {
        let n = self.users.len();
        let mut i: usize = 0;
        while i < n
            invariant
                i <= n,
                n == self.users@.len(),
                forall|j: int| 0 <= j < i ==> (#[trigger] self.users@[j]).id != id,
            decreases n - i,
        {
            if self.users[i].id == id {
                proof {
                    lemma_find_user_by_id_prefix(self.users@, id, i as int);
                }
                return Some(i);
            }
            i = i + 1;
        }
        proof {
            lemma_find_user_by_id_prefix(self.users@, id, n as int);
        }
        None
    }

    /// Whether some user carries this display name.
    pub fn user_name_taken(&self, name: &str) -> (r: bool)
        ensures
            r == (exists|i: int|
                0 <= i < self.users@.len() && (#[trigger] self.users@[i]).user_name@ == name@),
    {
        let n = self.users.len();
        let mut i: usize = 0;
        while i < n
            invariant
                i <= n,
                n == self.users@.len(),
                forall|j: int| 0 <= j < i ==> (#[trigger] self.users@[j]).user_name@ != name@,
            decreases n - i,
        {
            if str_eq(self.users[i].user_name.as_str(), name) {
                return true;
            }
            i = i + 1;
        }
        false
    }

    /// The largest user identifier in the store, 0 when there is none.
    pub fn max_user_id(&self) -> (r: u64)
        ensures
            forall|i: int| 0 <= i < self.users@.len() ==> (#[trigger] self.users@[i]).id <= r,
            r != 0 ==> exists|i: int|
                0 <= i < self.users@.len() && (#[trigger] self.users@[i]).id == r,
    {
        let n = self.users.len();
        let mut r: u64 = 0;
        let mut i: usize = 0;
        while i < n
            invariant
                i <= n,
                n == self.users@.len(),
                forall|j: int| 0 <= j < i ==> (#[trigger] self.users@[j]).id <= r,
                r != 0 ==> exists|j: int|
                    0 <= j < self.users@.len() && (#[trigger] self.users@[j]).id == r,
            decreases n - i,
        {
            if self.users[i].id > r {
                r = self.users[i].id;
            }
            i = i + 1;
        }
        r
    }

    /// Whether this owner already has a token with this name.
    pub fn owner_has_token_named(&self, owner: u64, name: &str) -> (r: bool)
        ensures
            r == (exists|i: int|
                0 <= i < self.tokens@.len() && (#[trigger] self.tokens@[i]).user_id == owner
                    && self.tokens@[i].name@ == name@),
    {
        let n = self.tokens.len();
        let mut i: usize = 0;
        while i < n
            invariant
                i <= n,
                n == self.tokens@.len(),
                forall|j: int|
                    0 <= j < i ==> !((#[trigger] self.tokens@[j]).user_id == owner
                        && self.tokens@[j].name@ == name@),
            decreases n - i,
        {
            if self.tokens[i].user_id == owner && str_eq(self.tokens[i].name.as_str(), name) {
                return true;
            }
            i = i + 1;
        }
        false
    }

    /// Whether a metadata row with this file identifier exists.
    pub fn has_file(&self, id: u64) -> (r: bool)
        ensures
            r == spec_has_file(self.files@, id),
    {
        let n = self.files.len();
        let mut i: usize = 0;
        while i < n
            invariant
                i <= n,
                n == self.files@.len(),
                forall|j: int| 0 <= j < i ==> (#[trigger] self.files@[j]).id != id,
            decreases n - i,
        {
            if self.files[i].id == id {
                return true;
            }
            i = i + 1;
        }
        false
    }
}

/// The first user record carrying this email — under [`Store::wf`] the only
/// one.
pub open spec fn spec_find_user_by_email(users: Seq<User>, email: Seq<char>) -> Option<User>
    decreases users.len(),
{
    if users.len() == 0 {
        None
    } else if users[0].email@ == email {
        Some(users[0])
    } else {
        spec_find_user_by_email(users.drop_first(), email)
    }
}

/// The first user record carrying this identifier — under [`Store::wf`] the
/// only one.
pub open spec fn spec_find_user_by_id(users: Seq<User>, id: u64) -> Option<User>
    decreases users.len(),
{
    if users.len() == 0 {
        None
    } else if users[0].id == id {
        Some(users[0])
    } else {
        spec_find_user_by_id(users.drop_first(), id)
    }
}

/// Whether some metadata row carries this file identifier.
pub open spec fn spec_has_file(files: Seq<FileRecord>, id: u64) -> bool {
    exists|i: int| 0 <= i < files.len() && (#[trigger] files[i]).id == id
}

/// What an email lookup finds carries that email.
pub proof fn lemma_find_user_by_email_some(users: Seq<User>, email: Seq<char>)
    ensures
        spec_find_user_by_email(users, email) matches Some(u) ==> u.email@ == email,
    decreases users.len(),
{
    if users.len() > 0 && users[0].email@ != email {
        lemma_find_user_by_email_some(users.drop_first(), email);
    }
}

/// A lookup that finds nothing means no record matches, and the other way
/// around.
pub proof fn lemma_find_user_by_email_none(users: Seq<User>, email: Seq<char>)
    ensures
        (spec_find_user_by_email(users, email) is None) <==> (forall|i: int|
            0 <= i < users.len() ==> (#[trigger] users[i]).email@ != email),
    decreases users.len(),
{
    if users.len() > 0 {
        lemma_find_user_by_email_none(users.drop_first(), email);
        if users[0].email@ != email {
            assert forall|i: int| 1 <= i < users.len() implies (#[trigger] users[i]).email@
                != email == (users.drop_first()[i - 1].email@ != email) by {
                assert(users.drop_first()[i - 1] == users[i]);
            }
        }
    }
}

/// Appending a record changes a lookup only when nothing matched before and
/// the new record matches.
pub proof fn lemma_find_user_by_email_push(users: Seq<User>, u: User, email: Seq<char>)
    ensures
        spec_find_user_by_email(users.push(u), email) == (match spec_find_user_by_email(
            users,
            email,
        ) {
            Some(w) => Some(w),
            None => if u.email@ == email {
                Some(u)
            } else {
                None
            },
        }),
    decreases users.len(),
{
    if users.len() == 0 {
        assert(users.push(u)[0] == u);
        assert(users.push(u).drop_first() =~= Seq::<User>::empty());
    } else {
        assert(users.push(u)[0] == users[0]);
        assert(users.push(u).drop_first() =~= users.drop_first().push(u));
        lemma_find_user_by_email_push(users.drop_first(), u, email);
    }
}

/// When no user before position `i` carries the email, the first match over
/// the whole sequence is the first match from position `i` on.
proof fn lemma_find_user_by_email_prefix(users: Seq<User>, email: Seq<char>, i: int)
    requires
        0 <= i <= users.len(),
        forall|j: int| 0 <= j < i ==> #[trigger] users[j].email@ != email,
    ensures
        i < users.len() && users[i].email@ == email ==> spec_find_user_by_email(users, email)
            == Some(users[i]),
        i == users.len() ==> spec_find_user_by_email(users, email) is None,
    decreases i,
{
    if i > 0 {
        assert(users[0].email@ != email);
        let rest = users.drop_first();
        assert(forall|j: int| 0 <= j < i - 1 ==> #[trigger] rest[j].email@ != email);
        lemma_find_user_by_email_prefix(rest, email, i - 1);
        if i < users.len() && users[i].email@ == email {
            assert(rest[i - 1] == users[i]);
        }
    }
}

/// When no user before position `i` carries the identifier, the first match
/// over the whole sequence is the first match from position `i` on.
proof fn lemma_find_user_by_id_prefix(users: Seq<User>, id: u64, i: int)
    requires
        0 <= i <= users.len(),
        forall|j: int| 0 <= j < i ==> (#[trigger] users[j]).id != id,
    ensures
        i < users.len() && users[i].id == id ==> spec_find_user_by_id(users, id) == Some(
            users[i],
        ),
        i == users.len() ==> spec_find_user_by_id(users, id) is None,
    decreases i,
{
    if i > 0 {
        assert(users[0].id != id);
        let rest = users.drop_first();
        assert(forall|j: int| 0 <= j < i - 1 ==> (#[trigger] rest[j]).id != id);
        lemma_find_user_by_id_prefix(rest, id, i - 1);
        if i < users.len() && users[i].id == id {
            assert(rest[i - 1] == users[i]);
        }
    }
}

} // verus!
