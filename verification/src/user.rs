use vstd::prelude::*;

use crate::errors::{Error, ValidationFault};
use crate::hashing::{
    generate_salt, hash_secret, phc_of, phc_salt, secret_matches, usable_salt, verify_secret,
};
use crate::store::{
    lemma_find_user_by_email_none, lemma_find_user_by_email_push, spec_find_user_by_email,
    spec_find_user_by_id, Store, TokenRecord, User,
};
use crate::text::str_eq;
use vstd::string::StrSliceExecFns;

verus! {

/// The kinds of identity the service knows.  `Anonymous` is a virtual,
/// never-persisted kind.
#[derive(Clone, Copy, PartialEq, Eq, Structural, Debug)]
pub enum UserKind {
    Anonymous,
    Standard,
    Admin,
}

impl Default for UserKind {
    fn default() -> (r: Self)
        ensures
            r == UserKind::Standard,
    {
        UserKind::Standard
    }
}

impl UserKind {
    /// The kind string a user record stores for this kind.
    pub open spec fn spec_as_str(self) -> Seq<char> {
        match self {
            UserKind::Admin => "administrator"@,
            UserKind::Standard => "standard"@,
            UserKind::Anonymous => "anonymous"@,
        }
    }

    pub fn as_str(self) -> (r: &'static str)
        ensures
            r@ == self.spec_as_str(),
    {
        match self {
            UserKind::Admin => "administrator",
            UserKind::Standard => "standard",
            UserKind::Anonymous => "anonymous",
        }
    }

    /// Parse a stored kind string back into its kind.
    pub fn from_str(s: &str) -> (r: Result<UserKind, Error>)
        ensures
            s@ == "administrator"@ ==> r == Ok::<UserKind, Error>(UserKind::Admin),
            s@ == "standard"@ ==> r == Ok::<UserKind, Error>(UserKind::Standard),
            s@ == "anonymous"@ ==> r == Ok::<UserKind, Error>(UserKind::Anonymous),
            r matches Ok(k) ==> s@ == k.spec_as_str(),
            r matches Err(e) ==> e matches Error::UnknownUserKind(t) && t@ == s@,
    {
        proof {
            reveal_strlit("administrator");
            reveal_strlit("standard");
            reveal_strlit("anonymous");
            assert("administrator"@.len() == 13);
            assert("standard"@.len() == 8);
            assert("anonymous"@.len() == 9);
        }
        if str_eq(s, "administrator") {
            Ok(UserKind::Admin)
        } else if str_eq(s, "standard") {
            Ok(UserKind::Standard)
        } else if str_eq(s, "anonymous") {
            Ok(UserKind::Anonymous)
        } else {
            Err(Error::UnknownUserKind(s.to_owned()))
        }
    }
}

/// The HTML5 email shape check, as validator's `ValidateEmail` decides it:
/// a function of the string alone.
pub uninterp spec fn is_valid_email(s: Seq<char>) -> bool;

/// Relies on validator's `ValidateEmail` impl for `&str`: the HTML5 email
/// shape check, deterministic in its input.
#[verifier::external_body]
fn email_ok(s: &str) -> (r: bool)
    ensures
        r == is_valid_email(s@),
{
    validator::ValidateEmail::validate_email(&s)
}

/// An email/password pair presented by a browser login form.
#[derive(Debug)]
pub struct UserLoginDataWeb {
    pub email: String,
    pub password: String,
}

impl Clone for UserLoginDataWeb {
    fn clone(&self) -> (r: Self)
        ensures
            r == *self,
    {
        UserLoginDataWeb { email: self.email.clone(), password: self.password.clone() }
    }
}

/// A bearer token secret presented by an API client.
#[derive(Debug)]
pub struct UserLoginDataApiV1 {
    pub token: String,
}

impl Clone for UserLoginDataApiV1 {
    fn clone(&self) -> (r: Self)
        ensures
            r == *self,
    {
        UserLoginDataApiV1 { token: self.token.clone() }
    }
}

/// The two shapes a credential can take.
#[derive(Debug)]
pub enum UserLoginData {
    Web(UserLoginDataWeb),
    ApiV1(UserLoginDataApiV1),
}

impl Clone for UserLoginData {
    fn clone(&self) -> (r: Self)
        ensures
            r == *self,
    {
        match self {
            UserLoginData::Web(w) => UserLoginData::Web(w.clone()),
            UserLoginData::ApiV1(a) => UserLoginData::ApiV1(a.clone()),
        }
    }
}

/// What a registration form submits.
#[derive(Debug)]
pub struct UserRegisterData {
    pub email: String,
    pub password: String,
    pub username: String,
}

impl Clone for UserRegisterData {
    fn clone(&self) -> (r: Self)
        ensures
            r == *self,
    {
        UserRegisterData {
            email: self.email.clone(),
            password: self.password.clone(),
            username: self.username.clone(),
        }
    }
}

/// Structural validity of a web login: email shape and password length.
pub open spec fn spec_web_login_valid(d: UserLoginDataWeb) -> bool {
    is_valid_email(d.email@) && 10 <= d.password@.len() <= 512
}

/// Structural validity of a token login: the secret's length.
pub open spec fn spec_api_login_valid(d: UserLoginDataApiV1) -> bool {
    40 <= d.token@.len() <= 512
}

/// Structural validity of a credential of either shape.
pub open spec fn spec_login_valid(d: UserLoginData) -> bool {
    match d {
        UserLoginData::Web(w) => spec_web_login_valid(w),
        UserLoginData::ApiV1(a) => spec_api_login_valid(a),
    }
}

/// The first structural check an invalid credential fails.
pub open spec fn spec_login_fault(d: UserLoginData) -> ValidationFault {
    match d {
        UserLoginData::Web(w) => if !is_valid_email(w.email@) {
            ValidationFault::BadEmail
        } else {
            ValidationFault::BadPasswordLength
        },
        UserLoginData::ApiV1(_) => ValidationFault::BadTokenLength,
    }
}

/// Structural validity of a registration: email shape, password length,
/// display-name length.
pub open spec fn spec_register_valid(d: UserRegisterData) -> bool {
    is_valid_email(d.email@) && 10 <= d.password@.len() <= 512 && 3 <= d.username@.len() <= 40
}

/// The first structural check an invalid registration fails.
pub open spec fn spec_register_fault(d: UserRegisterData) -> ValidationFault {
    if !is_valid_email(d.email@) {
        ValidationFault::BadEmail
    } else if !(10 <= d.password@.len() <= 512) {
        ValidationFault::BadPasswordLength
    } else {
        ValidationFault::BadUsernameLength
    }
}

impl UserLoginData {
    /// Check the credential's shape, before any store access.
    pub fn validate(&self) -> (r: Result<(), Error>)
        ensures
            r is Ok <==> spec_login_valid(*self),
            r matches Err(e) ==> e == Error::Validation(spec_login_fault(*self)),
    {
        match self {
            UserLoginData::Web(w) => {
                if !email_ok(w.email.as_str()) {
                    return Err(Error::Validation(ValidationFault::BadEmail));
                }
                let n = w.password.as_str().unicode_len();
                if n < 10 || n > 512 {
                    return Err(Error::Validation(ValidationFault::BadPasswordLength));
                }
                Ok(())
            },
            UserLoginData::ApiV1(a) => {
                let n = a.token.as_str().unicode_len();
                if n < 40 || n > 512 {
                    return Err(Error::Validation(ValidationFault::BadTokenLength));
                }
                Ok(())
            },
        }
    }
}

impl UserRegisterData {
    /// Check the registration's shape, before any store access.
    pub fn validate(&self) -> (r: Result<(), Error>)
        ensures
            r is Ok <==> spec_register_valid(*self),
            r matches Err(e) ==> e == Error::Validation(spec_register_fault(*self)),
    {
        if !email_ok(self.email.as_str()) {
            return Err(Error::Validation(ValidationFault::BadEmail));
        }
        let n = self.password.as_str().unicode_len();
        if n < 10 || n > 512 {
            return Err(Error::Validation(ValidationFault::BadPasswordLength));
        }
        let m = self.username.as_str().unicode_len();
        if m < 3 || m > 40 {
            return Err(Error::Validation(ValidationFault::BadUsernameLength));
        }
        Ok(())
    }
}

/// A stored hash that cannot make the hashing primitive itself fail: either
/// it does not parse (a deterministic error), or it parses without a salt
/// (likewise), or its salt is in the shape this core generates.
pub open spec fn spec_hash_benign(stored: Seq<char>) -> bool {
    match phc_salt(stored) {
        Some(Some(salt)) => usable_salt(salt),
        _ => true,
    }
}

/// Every stored token hash is benign in the sense of [`spec_hash_benign`].
pub open spec fn spec_token_hashes_benign(tokens: Seq<TokenRecord>) -> bool {
    forall|i: int|
        0 <= i < tokens.len() ==> spec_hash_benign((#[trigger] tokens[i]).token_hash@)
}

/// What the password path decides: look the user up by email, re-hash the
/// supplied password with the salt embedded in the stored record, compare.
pub open spec fn spec_password_login(users: Seq<User>, d: UserLoginDataWeb) -> Result<
    User,
    Error,
> {
    match spec_find_user_by_email(users, d.email@) {
        None => Err(Error::UserDoesNotExist),
        Some(u) => match phc_salt(u.password_hash@) {
            None => Err(Error::PwHashing),
            Some(None) => Err(Error::MissingSalt),
            Some(Some(salt)) => if u.password_hash@ == phc_of(d.password@, salt) {
                Ok(u)
            } else {
                Err(Error::WrongPassword)
            },
        },
    }
}

/// What the token path decides: walk all token records in order, skip the
/// expired, and check the presented secret against each remaining record's
/// hash; the first match resolves the owning user.
pub open spec fn spec_token_scan(
    tokens: Seq<TokenRecord>,
    users: Seq<User>,
    secret: Seq<char>,
    now: i64,
) -> Result<User, Error>
    decreases tokens.len(),
{
    if tokens.len() == 0 {
        Err(Error::UserDoesNotExist)
    } else {
        let t = tokens[0];
        if t.expiration_time < now {
            spec_token_scan(tokens.drop_first(), users, secret, now)
        } else {
            match phc_salt(t.token_hash@) {
                None => Err(Error::PwHashing),
                Some(None) => Err(Error::NoSaltStoredForToken(t.name)),
                Some(Some(salt)) => if t.token_hash@ == phc_of(secret, salt) {
                    match spec_find_user_by_id(users, t.user_id) {
                        Some(u) => Ok(u),
                        None => Err(Error::UserDoesNotExist),
                    }
                } else {
                    spec_token_scan(tokens.drop_first(), users, secret, now)
                },
            }
        }
    }
}

/// What login decides for a credential of either shape, after validation.
pub open spec fn spec_login(store: Store, d: UserLoginData, now: i64) -> Result<User, Error> {
    if !spec_login_valid(d) {
        Err(Error::Validation(spec_login_fault(d)))
    } else {
        match d {
            UserLoginData::Web(w) => spec_password_login(store.users@, w),
            UserLoginData::ApiV1(a) => spec_token_scan(store.tokens@, store.users@, a.token@, now),
        }
    }
}

/// The hashes login touches for this credential are all benign, so the
/// hashing primitive cannot fail and login's outcome is exactly
/// [`spec_login`].
pub open spec fn spec_login_benign(store: Store, d: UserLoginData) -> bool {
    match d {
        UserLoginData::Web(w) => match spec_find_user_by_email(store.users@, w.email@) {
            Some(u) => spec_hash_benign(u.password_hash@),
            None => true,
        },
        UserLoginData::ApiV1(_) => spec_token_hashes_benign(store.tokens@),
    }
}

fn password_login(store: &Store, d: &UserLoginDataWeb) -> (r: Result<User, Error>)
    requires
        d.password@.len() <= 512,
    ensures
        r == spec_password_login(store.users@, *d) || r == Err::<User, Error>(Error::PwHashing),
        spec_login_benign(*store, UserLoginData::Web(*d)) ==> r == spec_password_login(
            store.users@,
            *d,
        ),
{
    match store.find_user_by_email(d.email.as_str()) {
        None => Err(Error::UserDoesNotExist),
        Some(i) => {
            let u = &store.users[i];
            match verify_secret(d.password.as_str(), u.password_hash.as_str()) {
                Ok(true) => Ok(u.clone()),
                Ok(false) => Err(Error::WrongPassword),
                Err(e) => Err(e),
            }
        },
    }
}

fn token_login(store: &Store, d: &UserLoginDataApiV1, now: i64) -> (r: Result<User, Error>)
    requires
        d.token@.len() <= 512,
    ensures
        r == spec_token_scan(store.tokens@, store.users@, d.token@, now) || r == Err::<
            User,
            Error,
        >(Error::PwHashing),
        spec_token_hashes_benign(store.tokens@) ==> r == spec_token_scan(
            store.tokens@,
            store.users@,
            d.token@,
            now,
        ),
{
    let ghost full = store.tokens@;
    let n = store.tokens.len();
    let mut i: usize = 0;
    proof {
        assert(full.skip(0) =~= full);
    }
    while i < n
        invariant
            i <= n,
            n == store.tokens@.len(),
            full == store.tokens@,
            d.token@.len() <= 512,
            spec_token_scan(full, store.users@, d.token@, now) == spec_token_scan(
                full.skip(i as int),
                store.users@,
                d.token@,
                now,
            ),
        decreases n - i,
    {
        let ghost rest = full.skip(i as int);
        proof {
            assert(rest[0] == full[i as int]);
            assert(rest.drop_first() =~= full.skip(i as int + 1));
        }
        let t = &store.tokens[i];
        if t.expiration_time < now {
            i = i + 1;
            continue;
        }
        match verify_secret(d.token.as_str(), t.token_hash.as_str()) {
            Ok(true) => {
                match store.find_user_by_id(t.user_id) {
                    Some(j) => {
                        return Ok(store.users[j].clone());
                    },
                    None => {
                        return Err(Error::UserDoesNotExist);
                    },
                }
            },
            Ok(false) => {
                i = i + 1;
            },
            Err(e) => {
                proof {
                    if phc_salt(t.token_hash@) == Some(Option::<Seq<char>>::None) {
                        assert(e == Error::MissingSalt);
                    }
                }
                match e {
                    Error::MissingSalt => {
                        return Err(Error::NoSaltStoredForToken(t.name.clone()));
                    },
                    _ => {
                        return Err(Error::PwHashing);
                    },
                }
            },
        }
    }
    proof {
        assert(full.skip(n as int) =~= Seq::<TokenRecord>::empty());
    }
    Err(Error::UserDoesNotExist)
}

/// Decide a login attempt: structural validation first — the store is never
/// touched for a malformed credential — then the path the credential's
/// shape selects.  The outcome is exactly [`spec_login`], except that a
/// failure of the hashing primitive itself surfaces as `PwHashing`; with
/// benign stored hashes that cannot happen.
pub fn login(store: &Store, login_data: &UserLoginData, now: i64) -> (r: Result<User, Error>)
    ensures
        r == spec_login(*store, *login_data, now) || r == Err::<User, Error>(Error::PwHashing),
        spec_login_benign(*store, *login_data) ==> r == spec_login(*store, *login_data, now),
        !spec_login_valid(*login_data) ==> r == Err::<User, Error>(
            Error::Validation(spec_login_fault(*login_data)),
        ),
{
    login_data.validate()?;
    match login_data {
        UserLoginData::Web(w) => password_login(store, w),
        UserLoginData::ApiV1(a) => token_login(store, a, now),
    }
}

/// Collapse the two not-found outcomes into the one generic signal a caller
/// may show a client.
pub open spec fn spec_collapse_credential(r: Result<User, Error>) -> Result<User, Error> {
    match r {
        Err(Error::UserDoesNotExist) => Err(Error::WrongPassword),
        _ => r,
    }
}

/// Decide a login attempt and collapse "no such user" and "wrong secret"
/// into the one `WrongPassword` signal, so a client cannot tell which half
/// of the credential was wrong.
pub fn verify_login(store: &Store, login_data: &UserLoginData, now: i64) -> (r: Result<
    User,
    Error,
>)
    ensures
        r == spec_collapse_credential(spec_login(*store, *login_data, now)) || r == Err::<
            User,
            Error,
        >(Error::PwHashing),
        spec_login_benign(*store, *login_data) ==> r == spec_collapse_credential(
            spec_login(*store, *login_data, now),
        ),
        !spec_login_valid(*login_data) ==> r == Err::<User, Error>(
            Error::Validation(spec_login_fault(*login_data)),
        ),
    {
    match login(store, login_data, now) {
        Err(Error::UserDoesNotExist) => Err(Error::WrongPassword),
        other => other,
    }
}

/// Law: a registered pair logs in.  When the store holds a user under an
/// email whose stored hash came from hashing a password with some salt,
/// login with that very email and password succeeds and returns that user
/// — whose email is the one presented.
pub proof fn lemma_registered_pair_verifies(
    store: Store,
    d: UserLoginDataWeb,
    u: User,
    salt: Seq<char>,
    now: i64,
)
    requires
        spec_web_login_valid(d),
        spec_find_user_by_email(store.users@, d.email@) == Some(u),
        u.password_hash@ == phc_of(d.password@, salt),
        phc_salt(u.password_hash@) == Some(Some(salt)),
    ensures
        spec_login(store, UserLoginData::Web(d), now) == Ok::<User, Error>(u),
        spec_collapse_credential(spec_login(store, UserLoginData::Web(d), now)) == Ok::<
            User,
            Error,
        >(u),
        u.email@ == d.email@,
{
    crate::store::lemma_find_user_by_email_some(store.users@, d.email@);
}

/// Law: a wrong password and an unknown email fail with one and the same
/// generic wrong-credential signal; nothing in the outcome tells a client
/// which half of the credential was wrong.
pub proof fn lemma_wrong_credential_indistinguishable(
    store: Store,
    known: UserLoginDataWeb,
    unknown: UserLoginDataWeb,
    u: User,
    salt: Seq<char>,
    now: i64,
)
    requires
        spec_web_login_valid(known),
        spec_web_login_valid(unknown),
        spec_find_user_by_email(store.users@, known.email@) == Some(u),
        phc_salt(u.password_hash@) == Some(Some(salt)),
        u.password_hash@ != phc_of(known.password@, salt),
        spec_find_user_by_email(store.users@, unknown.email@) is None,
    ensures
        spec_collapse_credential(spec_login(store, UserLoginData::Web(known), now)) == Err::<
            User,
            Error,
        >(Error::WrongPassword),
        spec_collapse_credential(spec_login(store, UserLoginData::Web(unknown), now)) == Err::<
            User,
            Error,
        >(Error::WrongPassword),
{
}

/// Law: an unexpired token whose hash the presented secret reproduces
/// authenticates exactly its owner, provided every earlier record is
/// expired or fails to match.
pub proof fn lemma_token_authenticates_until_expiry(
    tokens: Seq<TokenRecord>,
    users: Seq<User>,
    secret: Seq<char>,
    now: i64,
    k: int,
)
    requires
        0 <= k < tokens.len(),
        now <= tokens[k].expiration_time,
        secret_matches(secret, tokens[k].token_hash@),
        spec_find_user_by_id(users, tokens[k].user_id) is Some,
        forall|j: int|
            0 <= j < k ==> ((#[trigger] tokens[j]).expiration_time < now || (phc_salt(
                tokens[j].token_hash@,
            ) matches Some(Some(_)) && !secret_matches(secret, tokens[j].token_hash@))),
    ensures
        spec_token_scan(tokens, users, secret, now) == Ok::<User, Error>(
            spec_find_user_by_id(users, tokens[k].user_id)->Some_0,
        ),
    decreases k,
{
    if k == 0 {
        assert(!(tokens[0].expiration_time < now));
    } else {
        let rest = tokens.drop_first();
        assert(rest =~= tokens.skip(1));
        assert(forall|j: int| 0 <= j < rest.len() ==> #[trigger] rest[j] == tokens[j + 1]);
        lemma_token_authenticates_until_expiry(rest, users, secret, now, k - 1);
    }
}

/// Law: past its expiration instant a token no longer authenticates.
/// When every record is expired or fails to match, the scan reports no
/// identity, and the caller-facing signal is the generic one.
pub proof fn lemma_token_scan_no_match(
    tokens: Seq<TokenRecord>,
    users: Seq<User>,
    secret: Seq<char>,
    now: i64,
)
    requires
        forall|j: int|
            0 <= j < tokens.len() ==> ((#[trigger] tokens[j]).expiration_time < now || (phc_salt(
                tokens[j].token_hash@,
            ) matches Some(Some(_)) && !secret_matches(secret, tokens[j].token_hash@))),
    ensures
        spec_token_scan(tokens, users, secret, now) == Err::<User, Error>(
            Error::UserDoesNotExist,
        ),
        spec_collapse_credential(spec_token_scan(tokens, users, secret, now)) == Err::<
            User,
            Error,
        >(Error::WrongPassword),
    decreases tokens.len(),
{
    if tokens.len() > 0 {
        let rest = tokens.drop_first();
        assert(forall|j: int| 0 <= j < rest.len() ==> #[trigger] rest[j] == tokens[j + 1]);
        lemma_token_scan_no_match(rest, users, secret, now);
    }
}

impl User {
    /// Fetch a user by identifier.
    pub fn get_by_id(id: u64, store: &Store) -> (r: Result<User, Error>)
        ensures
            r == (match spec_find_user_by_id(store.users@, id) {
                Some(u) => Ok::<User, Error>(u),
                None => Err::<User, Error>(Error::UserDoesNotExist),
            }),
    {
        match store.find_user_by_id(id) {
            Some(i) => Ok(store.users[i].clone()),
            None => Err(Error::UserDoesNotExist),
        }
    }

    /// Create an account: validate the submitted data, refuse an email or
    /// display name that is already taken, hash the password with the given
    /// salt, and append the record under a fresh identifier.  The store is
    /// unchanged on every failure.
    pub fn register_and_insert(
        register_data: UserRegisterData,
        kind: UserKind,
        store: &mut Store,
        salt: &str,
        now: i64,
    ) -> (r: Result<User, Error>)
        requires
            old(store).wf(),
        ensures
            r matches Ok(u) ==> {
                &&& u.email@ == register_data.email@
                &&& u.user_name@ == register_data.username@
                &&& u.password_hash@ == phc_of(register_data.password@, salt@)
                &&& phc_salt(u.password_hash@) == Some(Some(salt@))
                &&& u.kind@ == kind.spec_as_str()
                &&& u.creation_time == now
                &&& u.last_action_time == now
                &&& (forall|i: int|
                    0 <= i < old(store).users@.len() ==> (#[trigger] old(
                        store,
                    ).users@[i]).id < u.id)
                &&& final(store).users@ == old(store).users@.push(u)
                &&& spec_find_user_by_email(final(store).users@, register_data.email@) == Some(u)
            },
            final(store).tokens@ == old(store).tokens@,
            final(store).files@ == old(store).files@,
            final(store).wf(),
            r is Err ==> final(store).users@ == old(store).users@,
            !spec_register_valid(register_data) ==> r == Err::<User, Error>(
                Error::Validation(spec_register_fault(register_data)),
            ),
            spec_register_valid(register_data) && (exists|i: int|
                0 <= i < old(store).users@.len() && ((#[trigger] old(store).users@[i]).email@
                    == register_data.email@ || old(store).users@[i].user_name@
                    == register_data.username@)) ==> r == Err::<User, Error>(Error::UserExists),
            r matches Err(e) ==> (e == Error::Validation(spec_register_fault(register_data)) || e
                == Error::UserExists || e == Error::IdSpaceExhausted || e == Error::PwHashing),
            spec_register_valid(register_data) && usable_salt(salt@) && (forall|i: int|
                0 <= i < old(store).users@.len() ==> ((#[trigger] old(store).users@[i]).email@
                    != register_data.email@ && old(store).users@[i].user_name@
                    != register_data.username@ && old(store).users@[i].id != u64::MAX)) ==> r
                is Ok,
    {
        if let Err(e) = register_data.validate() {
            return Err(e);
        }
        proof {
            lemma_find_user_by_email_none(store.users@, register_data.email@);
        }
        if store.find_user_by_email(register_data.email.as_str()).is_some() {
            return Err(Error::UserExists);
        }
        if store.user_name_taken(register_data.username.as_str()) {
            return Err(Error::UserExists);
        }
        let max = store.max_user_id();
        if max == u64::MAX {
            return Err(Error::IdSpaceExhausted);
        }
        let hashed = match hash_secret(register_data.password.as_str(), salt) {
            Ok(h) => h,
            Err(_) => {
                return Err(Error::PwHashing);
            },
        };
        let user = User {
            id: max + 1,
            email: register_data.email,
            user_name: register_data.username,
            password_hash: hashed,
            kind: kind.as_str().to_owned(),
            creation_time: now,
            last_action_time: now,
        };
        let ghost old_users = store.users@;
        store.users.push(user.clone());
        proof {
            lemma_find_user_by_email_push(old_users, user, user.email@);
            lemma_find_user_by_email_none(old_users, user.email@);
            assert forall|i: int, j: int|
                #![trigger store.users@[i], store.users@[j]]
                0 <= i < j < store.users@.len() implies store.users@[i].id != store.users@[j].id
                && store.users@[i].email@ != store.users@[j].email@
                && store.users@[i].user_name@ != store.users@[j].user_name@ by {
                if j < old_users.len() {
                    assert(old(store).wf());
                } else {
                    assert(store.users@[j] == user);
                    assert(store.users@[i] == old_users[i]);
                }
            }
        }
        Ok(user)
    }

    /// Create an account as [`User::register_and_insert`] does, hashing the
    /// password with a freshly generated salt.
    pub fn register(
        register_data: UserRegisterData,
        kind: UserKind,
        store: &mut Store,
        now: i64,
    ) -> (r: Result<User, Error>)
        requires
            old(store).wf(),
        ensures
            r matches Ok(u) ==> {
                &&& u.email@ == register_data.email@
                &&& u.user_name@ == register_data.username@
                &&& (exists|salt: Seq<char>|
                    #[trigger] usable_salt(salt) && u.password_hash@ == phc_of(
                        register_data.password@,
                        salt,
                    ) && phc_salt(u.password_hash@) == Some(Some(salt)))
                &&& u.kind@ == kind.spec_as_str()
                &&& u.creation_time == now
                &&& u.last_action_time == now
                &&& final(store).users@ == old(store).users@.push(u)
                &&& spec_find_user_by_email(final(store).users@, register_data.email@) == Some(u)
            },
            final(store).tokens@ == old(store).tokens@,
            final(store).files@ == old(store).files@,
            final(store).wf(),
            r is Err ==> final(store).users@ == old(store).users@,
            !spec_register_valid(register_data) ==> r == Err::<User, Error>(
                Error::Validation(spec_register_fault(register_data)),
            ),
            spec_register_valid(register_data) && (exists|i: int|
                0 <= i < old(store).users@.len() && ((#[trigger] old(store).users@[i]).email@
                    == register_data.email@ || old(store).users@[i].user_name@
                    == register_data.username@)) ==> r == Err::<User, Error>(Error::UserExists),
            r matches Err(e) ==> (e == Error::Validation(spec_register_fault(register_data)) || e
                == Error::UserExists || e == Error::IdSpaceExhausted || e == Error::PwHashing),
            spec_register_valid(register_data) && (forall|i: int|
                0 <= i < old(store).users@.len() ==> ((#[trigger] old(store).users@[i]).email@
                    != register_data.email@ && old(store).users@[i].user_name@
                    != register_data.username@ && old(store).users@[i].id != u64::MAX)) ==> r
                is Ok,
    {
        let salt = generate_salt();
        let ghost salt_view = salt@;
        let r = User::register_and_insert(register_data, kind, store, salt.as_str(), now);
        proof {
            if r is Ok {
                assert(usable_salt(salt_view));
            }
        }
        r
    }

    /// The user's display name.
    pub fn username(&self) -> (r: &str)
        ensures
            r@ == self.user_name@,
    {
        self.user_name.as_str()
    }

    /// The user's email address.
    pub fn email(&self) -> (r: &str)
        ensures
            r@ == self.email@,
    {
        self.email.as_str()
    }

    /// The user's identifier.
    pub fn id(&self) -> (r: u64)
        ensures
            r == self.id,
    {
        self.id
    }

    /// The user's kind, read from its stored kind string.
    pub fn kind(&self) -> (r: Result<UserKind, Error>)
        ensures
            r matches Ok(k) ==> self.kind@ == k.spec_as_str(),
            r matches Err(e) ==> e matches Error::UnknownUserKind(t) && t@ == self.kind@,
    {
        UserKind::from_str(self.kind.as_str())
    }
}

} // verus!
