use vstd::prelude::*;

use crate::errors::{Error, ValidationFault};
use crate::hashing::{hash_secret, generate_salt, phc_of, phc_salt, usable_salt};
use crate::rng::{is_token_char, sample_alphanumeric};
use crate::seqs::{lemma_filter_singleton, lemma_filter_subset};
use crate::store::{token_names_unique, Store, TokenRecord, User};
use crate::text::str_eq;
use vstd::string::StrSliceExecFns;

verus! {

/// Number of random characters in an issued secret, after the tag.
pub const APIV1_TOKEN_SECRET_LEN: usize = 36;

/// How long an issued token stays valid: one of three fixed tiers.  The
/// day count per tier is a deliberate configuration table.
#[derive(Clone, Copy, PartialEq, Eq, Structural, Debug)]
pub enum CredentialDuration {
    D30,
    D90,
    D365,
}

impl CredentialDuration {
    /// Days of validity for this tier.
    pub open spec fn spec_days(self) -> u64 {
        match self {
            CredentialDuration::D30 => 30,
            CredentialDuration::D90 => 90,
            CredentialDuration::D365 => 365,
        }
    }

    pub fn days(self) -> (r: u64)
        ensures
            r == self.spec_days(),
    {
        match self {
            CredentialDuration::D30 => 30,
            CredentialDuration::D90 => 90,
            CredentialDuration::D365 => 365,
        }
    }
}

/// What a caller asks for when it wants a new token.
#[derive(Debug)]
pub struct ApiV1TokenRequest {
    pub requested_duration: CredentialDuration,
    pub token_name: String,
}

impl Clone for ApiV1TokenRequest {
    fn clone(&self) -> (r: Self)
        ensures
            r == *self,
    {
        ApiV1TokenRequest {
            requested_duration: self.requested_duration,
            token_name: self.token_name.clone(),
        }
    }
}

/// Structural validity of a token request: the name's length.
pub open spec fn spec_token_request_valid(request: ApiV1TokenRequest) -> bool {
    5 <= request.token_name@.len() <= 40
}

impl ApiV1TokenRequest {
    /// Check the request's shape, before any store access.
    pub fn validate(&self) -> (r: Result<(), Error>)
        ensures
            r is Ok <==> spec_token_request_valid(*self),
            r matches Err(e) ==> e == Error::Validation(ValidationFault::BadTokenNameLength),
    {
        let n = self.token_name.as_str().unicode_len();
        if n < 5 || n > 40 {
            return Err(Error::Validation(ValidationFault::BadTokenNameLength));
        }
        Ok(())
    }

    /// The instant a token issued now would expire.
    pub fn expiration_timestamp(&self, now: i64) -> (r: i64)
        requires
            now <= i64::MAX - 31_536_000,
        ensures
            r == now + self.requested_duration.spec_days() * 86400,
    {
        now + (self.requested_duration.days() * 86400) as i64
    }
}

/// The shape of every secret this core issues: the fixed `tfr_` tag, then
/// 36 alphanumeric characters.
pub open spec fn spec_token_shaped(s: Seq<char>) -> bool {
    s.len() == 40 && s.subrange(0, 4) == "tfr_"@ && (forall|i: int|
        4 <= i < 40 ==> is_token_char(#[trigger] s[i]))
}

/// Whether this owner holds a token with this name.
pub open spec fn spec_owner_has_token(
    tokens: Seq<TokenRecord>,
    owner: u64,
    name: Seq<char>,
) -> bool {
    exists|i: int|
        0 <= i < tokens.len() && (#[trigger] tokens[i]).user_id == owner && tokens[i].name@
            == name
}

/// The tokens of one owner, in store order.
pub open spec fn spec_tokens_of(tokens: Seq<TokenRecord>, owner: u64) -> Seq<TokenRecord> {
    tokens.filter(|t: TokenRecord| t.user_id == owner)
}

/// The store's tokens with one owner's named token taken out.
pub open spec fn spec_tokens_without(
    tokens: Seq<TokenRecord>,
    owner: u64,
    name: Seq<char>,
) -> Seq<TokenRecord> {
    tokens.filter(|t: TokenRecord| !(t.user_id == owner && t.name@ == name))
}

/// Law: once a token of some name is recorded for an owner, that owner
/// holds the name — so issuing it again is refused — while an owner who
/// did not hold the name before still does not hold it.
pub proof fn lemma_token_names_per_owner(
    tokens: Seq<TokenRecord>,
    record: TokenRecord,
    other: u64,
    name: Seq<char>,
)
    requires
        record.name@ == name,
    ensures
        spec_owner_has_token(tokens.push(record), record.user_id, name),
        other != record.user_id && !spec_owner_has_token(tokens, other, name)
            ==> !spec_owner_has_token(tokens.push(record), other, name),
{
    let pushed = tokens.push(record);
    assert(pushed[tokens.len() as int] == record);
    if other != record.user_id && !spec_owner_has_token(tokens, other, name) {
        if spec_owner_has_token(pushed, other, name) {
            let i = choose|i: int|
                0 <= i < pushed.len() && (#[trigger] pushed[i]).user_id == other
                    && pushed[i].name@ == name;
            if i < tokens.len() {
                assert(tokens[i] == pushed[i]);
            }
        }
    }
}

impl User {
    /// Issue a new bearer token for this user: validate the requested name,
    /// refuse a name the user already holds, draw a fresh secret and salt,
    /// and persist the salted hash — never the secret.  The returned
    /// plaintext secret exists only in the returned pair.
    pub fn create_api_v1_token(
        &self,
        request: ApiV1TokenRequest,
        rng: &mut rand::rngs::StdRng,
        store: &mut Store,
        now: i64,
    ) -> (r: Result<(String, TokenRecord), Error>)
        requires
            old(store).wf(),
            now <= i64::MAX - 31_536_000,
        ensures
            final(store).users@ == old(store).users@,
            final(store).files@ == old(store).files@,
            final(store).wf(),
            r is Err ==> final(store).tokens@ == old(store).tokens@,
            !spec_token_request_valid(request) ==> r == Err::<(String, TokenRecord), Error>(
                Error::Validation(ValidationFault::BadTokenNameLength),
            ),
            spec_token_request_valid(request) && spec_owner_has_token(
                old(store).tokens@,
                self.id,
                request.token_name@,
            ) ==> r == Err::<(String, TokenRecord), Error>(
                Error::TokenWithThatNameExists(request.token_name),
            ),
            spec_token_request_valid(request) && !spec_owner_has_token(
                old(store).tokens@,
                self.id,
                request.token_name@,
            ) ==> r is Ok,
            r matches Ok(pair) ==> {
                &&& spec_token_shaped(pair.0@)
                &&& pair.1.user_id == self.id
                &&& pair.1.name == request.token_name
                &&& pair.1.token_hash@ != pair.0@
                &&& (exists|salt: Seq<char>|
                    #[trigger] usable_salt(salt) && pair.1.token_hash@ == phc_of(pair.0@, salt)
                        && phc_salt(pair.1.token_hash@) == Some(Some(salt)))
                &&& pair.1.creation_time == now
                &&& pair.1.expiration_time == now
                    + request.requested_duration.spec_days() * 86400
                &&& final(store).tokens@ == old(store).tokens@.push(pair.1)
            },
    {
        if let Err(e) = request.validate() {
            return Err(e);
        }
        let expiration = request.expiration_timestamp(now);
        let secret_body = sample_alphanumeric(rng, APIV1_TOKEN_SECRET_LEN);
        let token = "tfr_".to_owned().concat(secret_body.as_str());
        proof {
            reveal_strlit("tfr_");
            assert("tfr_"@.len() == 4);
            assert(token@.len() == 40);
            assert(token@.subrange(0, 4) =~= "tfr_"@);
            assert(token@[0] == "tfr_"@[0]);
            assert(token@[0] == 't');
        }
        let saltstr = generate_salt();
        let token_hash = match hash_secret(token.as_str(), saltstr.as_str()) {
            Ok(h) => h,
            Err(_) => {
                return Err(Error::PwHashing);
            },
        };
        proof {
            // The stored rendering starts with the PHC separator while the
            // plaintext starts with the tag, so the record never holds the
            // secret itself.
            assert(token_hash@[0] == '$');
            assert(token_hash@ != token@);
        }
        if store.owner_has_token_named(self.id, request.token_name.as_str()) {
            return Err(Error::TokenWithThatNameExists(request.token_name));
        }
        let record = TokenRecord {
            user_id: self.id,
            name: request.token_name,
            token_hash,
            creation_time: now,
            expiration_time: expiration,
        };
        let ghost old_tokens = store.tokens@;
        store.tokens.push(record.clone());
        proof {
            assert forall|i: int, j: int|
                #![trigger store.tokens@[i], store.tokens@[j]]
                0 <= i < j < store.tokens@.len() implies !(store.tokens@[i].user_id
                == store.tokens@[j].user_id && store.tokens@[i].name@
                == store.tokens@[j].name@) by {
                if j < old_tokens.len() {
                    assert(token_names_unique(old_tokens));
                } else {
                    assert(store.tokens@[j] == record);
                    assert(store.tokens@[i] == old_tokens[i]);
                }
            }
        }
        Ok((token, record))
    }

    /// All tokens of this user, expired ones included, in store order: the
    /// caller decides what expiry means for display, and name-uniqueness
    /// and revocation work against the full set.
    pub fn tokens(&self, store: &Store) -> (r: Vec<TokenRecord>)
        ensures
            r@ == spec_tokens_of(store.tokens@, self.id),
    {
        let ghost pred = |t: TokenRecord| t.user_id == self.id;
        let ghost full = store.tokens@;
        let n = store.tokens.len();
        let mut out: Vec<TokenRecord> = Vec::new();
        let mut i: usize = 0;
        proof {
            reveal(Seq::filter);
            assert(full.take(0) =~= Seq::<TokenRecord>::empty());
        }
        while i < n
            invariant
                i <= n,
                n == store.tokens@.len(),
                full == store.tokens@,
                out@ == full.take(i as int).filter(pred),
                pred == (|t: TokenRecord| t.user_id == self.id),
            decreases n - i,
        {
            proof {
                assert(full.take(i + 1) =~= full.take(i as int) + seq![full[i as int]]);
                Seq::filter_distributes_over_add(full.take(i as int), seq![full[i as int]], pred);
                lemma_filter_singleton(full[i as int], pred);
            }
            if store.tokens[i].user_id == self.id {
                out.push(store.tokens[i].clone());
                proof {
                    assert(out@ =~= full.take(i as int).filter(pred) + seq![full[i as int]]);
                }
            } else {
                proof {
                    assert(out@ =~= full.take(i as int).filter(pred) + Seq::<
                        TokenRecord,
                    >::empty());
                }
            }
            i = i + 1;
        }
        proof {
            assert(full.take(n as int) =~= full);
        }
        out
    }
}

/// Revoke one of an owner's tokens by name: the named row leaves the
/// store; a name the owner does not hold changes nothing and reports
/// `None`.  Another owner's token of the same name is untouched.
pub fn revoke_token(store: &mut Store, owner: u64, name: &str) -> (r: Option<TokenRecord>)
    requires
        old(store).wf(),
    ensures
        final(store).users@ == old(store).users@,
        final(store).files@ == old(store).files@,
        final(store).tokens@ == spec_tokens_without(old(store).tokens@, owner, name@),
        final(store).wf(),
        r is Some <==> spec_owner_has_token(old(store).tokens@, owner, name@),
        r matches Some(t) ==> t.user_id == owner && t.name@ == name@ && old(
            store,
        ).tokens@.contains(t),
{
    let ghost pred = |t: TokenRecord| !(t.user_id == owner && t.name@ == name@);
    let ghost full = store.tokens@;
    let n = store.tokens.len();
    let mut kept: Vec<TokenRecord> = Vec::new();
    let mut found: Option<TokenRecord> = None;
    let mut i: usize = 0;
    proof {
        reveal(Seq::filter);
        assert(full.take(0) =~= Seq::<TokenRecord>::empty());
    }
    while i < n
        invariant
            i <= n,
            n == store.tokens@.len(),
            full == store.tokens@,
            old(store).wf(),
            full == old(store).tokens@,
            kept@ == full.take(i as int).filter(pred),
            pred == (|t: TokenRecord| !(t.user_id == owner && t.name@ == name@)),
            found is Some <==> (exists|j: int|
                0 <= j < i && (#[trigger] full[j]).user_id == owner && full[j].name@ == name@),
            found matches Some(t) ==> t.user_id == owner && t.name@ == name@ && full.contains(t),
        decreases n - i,
    {
        proof {
            assert(full.take(i + 1) =~= full.take(i as int) + seq![full[i as int]]);
            Seq::filter_distributes_over_add(full.take(i as int), seq![full[i as int]], pred);
            lemma_filter_singleton(full[i as int], pred);
        }
        let t = &store.tokens[i];
        if t.user_id == owner && str_eq(t.name.as_str(), name) {
            found = Some(t.clone());
            proof {
                assert(kept@ =~= full.take(i as int).filter(pred) + Seq::<TokenRecord>::empty());
            }
        } else {
            kept.push(t.clone());
            proof {
                assert(kept@ =~= full.take(i as int).filter(pred) + seq![full[i as int]]);
            }
        }
        i = i + 1;
    }
    proof {
        assert(full.take(n as int) =~= full);
        lemma_token_filter_keeps_uniqueness(full, pred);
    }
    store.tokens = kept;
    found
}

/// Dropping rows cannot make two remaining token names collide.
proof fn lemma_token_filter_keeps_uniqueness(
    s: Seq<TokenRecord>,
    pred: spec_fn(TokenRecord) -> bool,
)
    requires
        token_names_unique(s),
    ensures
        token_names_unique(s.filter(pred)),
    decreases s.len(),
{
    reveal(Seq::filter);
    if s.len() > 0 {
        let prefix = s.drop_last();
        assert(token_names_unique(prefix)) by {
            assert forall|i: int, j: int|
                #![trigger prefix[i], prefix[j]]
                0 <= i < j < prefix.len() implies !(prefix[i].user_id == prefix[j].user_id
                && prefix[i].name@ == prefix[j].name@) by {
                assert(prefix[i] == s[i]);
                assert(prefix[j] == s[j]);
            }
        }
        lemma_token_filter_keeps_uniqueness(prefix, pred);
        let out = s.filter(pred);
        let sub = prefix.filter(pred);
        if pred(s.last()) {
            lemma_filter_subset(prefix, pred);
            assert forall|i: int, j: int|
                #![trigger out[i], out[j]]
                0 <= i < j < out.len() implies !(out[i].user_id == out[j].user_id && out[i].name@
                == out[j].name@) by {
                if j < sub.len() {
                    assert(out[i] == sub[i]);
                    assert(out[j] == sub[j]);
                } else {
                    assert(out[j] == s.last());
                    assert(out[i] == sub[i]);
                    assert(prefix.contains(sub[i]));
                    let k = choose|k: int| 0 <= k < prefix.len() && prefix[k] == sub[i];
                    assert(s[k] == sub[i]);
                    assert(s[s.len() - 1] == s.last());
                }
            }
        }
    }
}

} // verus!
