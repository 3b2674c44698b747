//! Authenticated users, identity claims, and the basic-credential
//! verifier with its plaintext short-circuit cache.
//!
//! The verifier checks a presented password against a configured bcrypt
//! hash. A small per-user cache keeps the last plaintext that bcrypt
//! accepted, so repeated logins become a string comparison; the cache
//! invariant guarantees the short cut never accepts a password bcrypt
//! did not.

use vstd::prelude::*;
use vstd::string::StrSliceExecFns;

use crate::search::{first_index, lemma_first_index_none, lemma_first_index_some};

verus! {

/// What `bcrypt::verify` returns for a password and a hash: a verdict
/// that depends on the two strings alone, or `None` where the hash is
/// malformed and verification errors out.
pub uninterp spec fn bcrypt_verdict(password: Seq<char>, hash: Seq<char>) -> Option<bool>;

/// bcrypt accepts the password against the hash.
pub open spec fn bcrypt_accepts(password: Seq<char>, hash: Seq<char>) -> bool {
    bcrypt_verdict(password, hash) == Some(true)
}

/// Relies on bcrypt::verify: the verdict is a function of the password
/// bytes and the hash string alone; a malformed hash yields an error,
/// reported here as `None`.
#[verifier::external_body]
fn bcrypt_verify(password: &str, hash: &str) -> (r: Option<bool>)
    ensures
        r == bcrypt_verdict(password@, hash@),
{
    match bcrypt::verify(password, hash) {
        Ok(b) => Some(b),
        Err(_) => None,
    }
}

/// The user a request acts as.
pub enum AuthUser {
    Anonymous,
    Basic { username: String, password: Option<String> },
    OAuth2 { username: String, provider: String },
}

impl AuthUser {
    pub fn is_anonymous(&self) -> (r: bool)
        ensures
            r == (*self is Anonymous),
    {
        match self {
            AuthUser::Anonymous => true,
            _ => false,
        }
    }
}

/// The identity stored in a signed cookie: a user without credentials.
pub enum UserClaim {
    Basic { username: String },
    OAuth2 { username: String, provider: String },
}

impl UserClaim {
    /// The claim an authenticated user gets; anonymous users get none.
    pub fn from_auth_user(value: &AuthUser) -> (r: Option<UserClaim>)
        ensures
            match value {
                AuthUser::Anonymous => r is None,
                AuthUser::Basic { username, .. } => r matches Some(UserClaim::Basic {
                    username: u,
                }) && u@ == username@,
                AuthUser::OAuth2 { username, provider } => r matches Some(UserClaim::OAuth2 {
                    username: u,
                    provider: p,
                }) && u@ == username@ && p@ == provider@,
            },
    {
        match value {
            AuthUser::Anonymous => None,
            AuthUser::Basic { username, .. } => Some(UserClaim::Basic {
                username: username.clone(),
            }),
            AuthUser::OAuth2 { username, provider } => Some(UserClaim::OAuth2 {
                username: username.clone(),
                provider: provider.clone(),
            }),
        }
    }

    /// The user a verified claim stands for: the claim carries no
    /// password, so a basic claim maps to a password-less basic user.
    pub fn to_auth_user(self) -> (r: AuthUser)
        ensures
            match self {
                UserClaim::Basic { username } => r matches AuthUser::Basic {
                    username: u,
                    password: p,
                } && u == username && p is None,
                UserClaim::OAuth2 { username, provider } => r matches AuthUser::OAuth2 {
                    username: u,
                    provider: pr,
                } && u == username && pr == provider,
            },
    {
        match self {
            UserClaim::Basic { username } => AuthUser::Basic { username, password: None },
            UserClaim::OAuth2 { username, provider } => AuthUser::OAuth2 { username, provider },
        }
    }
}


/// Basic credentials as presented in a request: the decoded
/// `user:password` payload split at its first colon.
pub struct BasicUser {
    pub username: String,
    pub password: String,
}

/// The index of the first colon in the payload.
pub open spec fn spec_first_colon(s: Seq<char>) -> Option<int> {
    first_index(s.len() as int, |i: int| s[i] == ':')
}

/// Split a decoded basic-authorization payload at its first colon.
/// A payload with no colon carries no credentials.
pub fn parse_basic_credentials(payload: &str) -> (r: Option<BasicUser>)
    ensures
        r is Some <==> spec_first_colon(payload@) is Some,
        r matches Some(u) ==> (spec_first_colon(payload@) matches Some(i) && u.username@
            == payload@.subrange(0, i) && u.password@ == payload@.skip(i + 1)),
{
    let n = payload.unicode_len();
    let mut i: usize = 0;
    while i < n
        invariant
            i <= n,
            n == payload@.len(),
            forall|j: int| 0 <= j < i ==> payload@[j] != ':',
        decreases n - i,
    {
        if payload.get_char(i) == ':' {
            proof {
                lemma_first_index_some(
                    payload@.len() as int,
                    |k: int| payload@[k] == ':',
                    i as int,
                );
            }
            let username = payload.substring_char(0, i).to_owned();
            let password = payload.substring_char(i + 1, n).to_owned();
            proof {
                assert(password@ =~= payload@.skip(i as int + 1));
            }
            return Some(BasicUser { username, password });
        }
        i += 1;
    }
    proof {
        lemma_first_index_none(payload@.len() as int, |k: int| payload@[k] == ':');
    }
    None
}

/// One configured basic-auth user: a name and a bcrypt hash.
pub struct BasicAuthUser {
    pub username: String,
    pub password: String,
}

/// The index of the first configured entry for a username.
pub open spec fn spec_find_user(users: Seq<BasicAuthUser>, name: Seq<char>) -> Option<int> {
    first_index(users.len() as int, |i: int| users[i].username@ == name)
}

/// The index of the first cache entry for a username.
pub open spec fn spec_find_cached(cache: Seq<(String, String)>, name: Seq<char>) -> Option<int> {
    first_index(cache.len() as int, |i: int| cache[i].0@ == name)
}

/// No two cache entries share a username: together with the insert-only
/// evolution this bounds the cache by the number of configured users.
pub open spec fn cache_keys_unique(cache: Seq<(String, String)>) -> bool {
    forall|j: int, k: int|
        0 <= j < k < cache.len() ==> (#[trigger] cache[j]).0@ != (#[trigger] cache[k]).0@
}

/// The basic-credential provider: the configured users and the cache of
/// plaintexts that bcrypt has already accepted.
pub struct BasicAuthProvider {
    pub enabled: bool,
    pub visible: bool,
    pub users: Vec<BasicAuthUser>,
    pub verify_cache: Vec<(String, String)>,
}

impl BasicAuthProvider {
    /// The cache contents.
    pub open spec fn spec_cache(&self) -> Seq<(String, String)> {
        self.verify_cache@
    }

    /// Every cached plaintext was accepted by bcrypt against the hash of
    /// the first configured entry for its username.
    pub open spec fn cache_wf(&self) -> bool {
        forall|k: int|
            0 <= k < self.spec_cache().len() ==> {
                let entry = #[trigger] self.spec_cache()[k];
                spec_find_user(self.users@, entry.0@) matches Some(i) && bcrypt_accepts(
                    entry.1@,
                    self.users@[i].password@,
                )
            }
    }

    /// The verifier's verdict on a username and password, given the
    /// current cache: no configured entry means rejection; a cached
    /// plaintext is compared directly; otherwise bcrypt decides, with
    /// verification errors counting as rejection.
    pub open spec fn spec_auth_outcome(&self, user: Seq<char>, password: Seq<char>) -> bool {
        match spec_find_user(self.users@, user) {
            None => false,
            Some(i) => match spec_find_cached(self.spec_cache(), self.users@[i].username@) {
                Some(k) => self.spec_cache()[k].1@ == password,
                None => bcrypt_accepts(password, self.users@[i].password@),
            },
        }
    }

    /// A provider with the given configuration and an empty cache.
    pub fn new(enabled: bool, visible: bool, users: Vec<BasicAuthUser>) -> (r: Self)
        ensures
            r.enabled == enabled,
            r.visible == visible,
            r.users == users,
            r.spec_cache().len() == 0,
            r.cache_wf(),
            cache_keys_unique(r.spec_cache()),
    {
        BasicAuthProvider { enabled, visible, users, verify_cache: Vec::new() }
    }

    /// The first configured entry for a username.
    fn find_user(&self, user: &str) -> (r: Option<usize>)
        ensures
            match r {
                Some(i) => spec_find_user(self.users@, user@) == Some(i as int),
                None => spec_find_user(self.users@, user@) is None,
            },
    {
        let n = self.users.len();
        let mut i: usize = 0;
        while i < n
            invariant
                i <= n,
                n == self.users@.len(),
                forall|j: int| 0 <= j < i ==> (#[trigger] self.users@[j]).username@ != user@,
            decreases n - i,
        {
            if crate::paths::str_eq(self.users[i].username.as_str(), user) {
                proof {
                    lemma_first_index_some(
                        self.users@.len() as int,
                        |k: int| self.users@[k].username@ == user@,
                        i as int,
                    );
                }
                return Some(i);
            }
            i += 1;
        }
        proof {
            lemma_first_index_none(
                self.users@.len() as int,
                |k: int| self.users@[k].username@ == user@,
            );
        }
        None
    }

    /// The first cache entry for a username.
    fn find_cached(&self, name: &str) -> (r: Option<usize>)
        ensures
            match r {
                Some(i) => spec_find_cached(self.spec_cache(), name@) == Some(i as int),
                None => spec_find_cached(self.spec_cache(), name@) is None,
            },
    {
        let n = self.verify_cache.len();
        let mut i: usize = 0;
        while i < n
            invariant
                i <= n,
                n == self.spec_cache().len(),
                forall|j: int| 0 <= j < i ==> (#[trigger] self.spec_cache()[j]).0@ != name@,
            decreases n - i,
        {
            if crate::paths::str_eq(self.verify_cache[i].0.as_str(), name) {
                proof {
                    lemma_first_index_some(
                        self.spec_cache().len() as int,
                        |k: int| self.spec_cache()[k].0@ == name@,
                        i as int,
                    );
                }
                return Some(i);
            }
            i += 1;
        }
        proof {
            lemma_first_index_none(
                self.spec_cache().len() as int,
                |k: int| self.spec_cache()[k].0@ == name@,
            );
        }
        None
    }

    /// Verify a presented password. The outcome is exactly
    /// `spec_auth_outcome` over the state before the call, and a true
    /// outcome always means bcrypt accepts the password against the
    /// first configured entry's hash: the cache never widens access.
    /// The cache only ever grows: a call appends exactly one entry —
    /// the username and the presented plaintext — when a fresh bcrypt
    /// verification succeeds, and leaves the cache untouched otherwise
    /// (unknown username, cache hit, or failed verification).
    pub fn auth(&mut self, user: &str, password: &str) -> (r: bool)
        ensures
            old(self).cache_wf() ==> final(self).cache_wf(),
            final(self).users == old(self).users,
            final(self).enabled == old(self).enabled,
            final(self).visible == old(self).visible,
            r == old(self).spec_auth_outcome(user@, password@),
            old(self).cache_wf() && r ==> (spec_find_user(final(self).users@, user@) matches Some(
                i,
            ) && bcrypt_accepts(password@, final(self).users@[i].password@)),
            // entries are inserted, never removed or rewritten
            old(self).spec_cache().len() <= final(self).spec_cache().len(),
            forall|j: int|
                0 <= j < old(self).spec_cache().len() ==> final(self).spec_cache()[j]
                    == old(self).spec_cache()[j],
            // an unknown username leaves the cache untouched
            spec_find_user(old(self).users@, user@) is None ==> final(self).spec_cache()
                == old(self).spec_cache(),
            // a cache hit decides by string comparison, without growing
            // the cache
            spec_find_user(old(self).users@, user@) matches Some(i) ==> (spec_find_cached(
                old(self).spec_cache(),
                old(self).users@[i].username@,
            ) is Some ==> final(self).spec_cache() == old(self).spec_cache()),
            // a fresh verification appends exactly one entry on success
            // and changes nothing on failure
            spec_find_user(old(self).users@, user@) matches Some(i) ==> (spec_find_cached(
                old(self).spec_cache(),
                old(self).users@[i].username@,
            ) is None ==> (if r {
                final(self).spec_cache().len() == old(self).spec_cache().len() + 1
                    && final(self).spec_cache().last().0 == old(self).users@[i].username
                    && final(self).spec_cache().last().1@ == password@
            } else {
                final(self).spec_cache() == old(self).spec_cache()
            })),
            // cached usernames stay pairwise distinct
            cache_keys_unique(old(self).spec_cache()) ==> cache_keys_unique(
                final(self).spec_cache(),
            ),
    {
        let found = self.find_user(user);
        match found {
            None => false,
            Some(i) => {
                let name = &self.users[i].username;
                let cached = self.find_cached(name.as_str());
                match cached {
                    Some(k) => {
                        let hit = crate::paths::str_eq(
                            self.verify_cache[k].1.as_str(),
                            password,
                        );
                        proof {
                            if hit {
                                assert(self.spec_cache()[k as int].1@ == password@);
                            }
                        }
                        hit
                    },
                    None => {
                        let verdict = bcrypt_verify(password, self.users[i].password.as_str());
                        match verdict {
                            Some(true) => {
                                let entry = (
                                    self.users[i].username.clone(),
                                    password.to_owned(),
                                );
                                self.verify_cache.push(entry);
                                proof {
                                    if cache_keys_unique(old(self).spec_cache()) {
                                        assert forall|j: int, k: int|
                                            0 <= j < k < self.spec_cache().len() implies (
                                        #[trigger] self.spec_cache()[j]).0@ != (
                                        #[trigger] self.spec_cache()[k]).0@ by {
                                            assert(self.spec_cache()[j] == old(
                                                self,
                                            ).spec_cache()[j]);
                                            if k < self.spec_cache().len() - 1 {
                                                assert(self.spec_cache()[k] == old(
                                                    self,
                                                ).spec_cache()[k]);
                                            } else {
                                                assert(self.spec_cache()[k].0@ == old(
                                                    self,
                                                ).users@[i as int].username@);
                                                if self.spec_cache()[j].0@ == old(
                                                    self,
                                                ).users@[i as int].username@ {
                                                    crate::search::lemma_exists_first(
                                                        old(self).spec_cache().len() as int,
                                                        |m: int| old(self).spec_cache()[m].0@
                                                            == old(
                                                            self,
                                                        ).users@[i as int].username@,
                                                        j,
                                                    );
                                                }
                                            }
                                        }
                                    }
                                }
                                true
                            },
                            _ => false,
                        }
                    },
                }
            },
        }
    }
}


/// The cache is bounded by the number of configured users: with valid
/// entries and pairwise-distinct keys, each cached username picks out a
/// distinct configured entry.
pub proof fn lemma_cache_bounded(p: &BasicAuthProvider)
    requires
        p.cache_wf(),
        cache_keys_unique(p.spec_cache()),
    ensures
        p.spec_cache().len() <= p.users@.len(),
{
    let cache = p.spec_cache();
    let users = p.users@;
    let idxs = Seq::new(cache.len(), |k: int| spec_find_user(users, cache[k].0@)->0);
    assert forall|k: int| 0 <= k < idxs.len() implies 0 <= #[trigger] idxs[k] < users.len() by {
        assert(spec_find_user(users, cache[k].0@) is Some);
        crate::search::lemma_first_index_is_first(
            users.len() as int,
            |m: int| users[m].username@ == cache[k].0@,
        );
    }
    assert forall|j: int, k: int|
        0 <= j < idxs.len() && 0 <= k < idxs.len() && j != k implies idxs[j] != idxs[k] by {
        crate::search::lemma_first_index_is_first(
            users.len() as int,
            |m: int| users[m].username@ == cache[j].0@,
        );
        crate::search::lemma_first_index_is_first(
            users.len() as int,
            |m: int| users[m].username@ == cache[k].0@,
        );
        if idxs[j] == idxs[k] {
            assert(users[idxs[j]].username@ == cache[j].0@);
            assert(users[idxs[k]].username@ == cache[k].0@);
            assert(cache[j].0@ == cache[k].0@);
        }
    }
    assert(idxs.no_duplicates());
    idxs.unique_seq_to_set();
    assert(idxs.to_set().subset_of(vstd::set_lib::set_int_range(0, users.len() as int)));
    vstd::set_lib::lemma_int_range(0, users.len() as int);
    vstd::set_lib::lemma_len_subset(
        idxs.to_set(),
        vstd::set_lib::set_int_range(0, users.len() as int),
    );
}

/// One configured OAuth2 provider; the library holds its settings as
/// plain strings, the code exchange itself happens outside the mediator.
pub struct OAuth2Provider {
    pub name: String,
    pub enabled: bool,
    pub visible: bool,
    pub client_id: String,
    pub client_secret: String,
    pub auth_url: String,
    pub token_url: String,
    pub userinfo_url: String,
    pub email_path: String,
}

/// The configured identity providers.
pub struct Providers {
    pub basic: BasicAuthProvider,
    pub oauth2: Vec<OAuth2Provider>,
}

} // verus!
