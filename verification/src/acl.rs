//! The access-control list: ordered rules matched against the
//! authenticated user, first match wins.

use vstd::prelude::*;

use crate::auth::{AuthUser, Providers};
use crate::rpc::MethodName;
use crate::search::{first_index, lemma_first_index_none, lemma_first_index_some};
use crate::tracker::{rules_wf, TrackerRule};

verus! {

/// One identity matcher of a rule.
pub enum AclIdentity {
    Basic { name: String },
    OAuth2 { name: String, oauth2: String },
}

/// One access rule: the identities it concerns, the policy it forces.
pub struct Acl {
    /// Identity matchers; an empty set makes this the anonymous default.
    pub identities: Vec<AclIdentity>,
    /// Forced download directory, with no trailing slash.
    pub download_dir: Option<String>,
    /// Allowed RPC methods; empty means all methods are allowed.
    pub allowed_methods: Vec<MethodName>,
    /// Deny all access to matched users.
    pub deny: bool,
    /// Ordered tracker rewrite rules.
    pub tracker_rules: Vec<TrackerRule>,
}

impl Acl {
    /// A rule is well formed when its tracker patterns compile.
    pub open spec fn wf(&self) -> bool {
        rules_wf(self.tracker_rules@)
    }

    /// A rule filters nothing: no forced directory, no allow-list, no
    /// denial, no tracker rules. Such a rule lets bodies pass unparsed.
    pub open spec fn spec_is_nop(&self) -> bool {
        &&& self.download_dir is None
        &&& self.allowed_methods@.len() == 0
        &&& !self.deny
        &&& self.tracker_rules@.len() == 0
    }

    pub fn is_nop(&self) -> (r: bool)
        ensures
            r == self.spec_is_nop(),
    {
        self.download_dir.is_none() && self.allowed_methods.len() == 0 && !self.deny
            && self.tracker_rules.len() == 0
    }

    /// The rule names a basic identity with this username.
    pub open spec fn spec_has_basic(&self, username: Seq<char>) -> bool {
        exists|i: int|
            0 <= i < self.identities@.len() && ((#[trigger] self.identities@[i])
                matches AclIdentity::Basic { name } && name@ == username)
    }

    /// The rule names an OAuth2 identity with this username and provider.
    pub open spec fn spec_has_oauth2(&self, username: Seq<char>, provider: Seq<char>) -> bool {
        exists|i: int|
            0 <= i < self.identities@.len() && ((#[trigger] self.identities@[i])
                matches AclIdentity::OAuth2 { name, oauth2 } && name@ == username && oauth2@
                == provider)
    }

    fn has_basic(&self, username: &str) -> (r: bool)
        ensures
            r == self.spec_has_basic(username@),
    {
        let n = self.identities.len();
        let mut i: usize = 0;
        while i < n
            invariant
                i <= n,
                n == self.identities@.len(),
                forall|j: int|
                    0 <= j < i ==> !((#[trigger] self.identities@[j])
                        matches AclIdentity::Basic { name } && name@ == username@),
            decreases n - i,
        {
            match &self.identities[i] {
                AclIdentity::Basic { name } => {
                    if crate::paths::str_eq(name.as_str(), username) {
                        return true;
                    }
                },
                AclIdentity::OAuth2 { .. } => {},
            }
            i += 1;
        }
        false
    }

    fn has_oauth2(&self, username: &str, provider: &str) -> (r: bool)
        ensures
            r == self.spec_has_oauth2(username@, provider@),
    {
        let n = self.identities.len();
        let mut i: usize = 0;
        while i < n
            invariant
                i <= n,
                n == self.identities@.len(),
                forall|j: int|
                    0 <= j < i ==> !((#[trigger] self.identities@[j])
                        matches AclIdentity::OAuth2 { name, oauth2 } && name@ == username@
                        && oauth2@ == provider@),
            decreases n - i,
        {
            match &self.identities[i] {
                AclIdentity::Basic { .. } => {},
                AclIdentity::OAuth2 { name, oauth2 } => {
                    if crate::paths::str_eq(name.as_str(), username) && crate::paths::str_eq(
                        oauth2.as_str(),
                        provider,
                    ) {
                        return true;
                    }
                },
            }
            i += 1;
        }
        false
    }
}

/// The index of the first rule whose identity set is empty: the
/// anonymous default.
pub open spec fn spec_find_anon(rules: Seq<Acl>) -> Option<int> {
    first_index(rules.len() as int, |i: int| rules[i].identities@.len() == 0)
}

/// The index of the first rule naming a basic identity with this
/// username.
pub open spec fn spec_find_basic(rules: Seq<Acl>, username: Seq<char>) -> Option<int> {
    first_index(rules.len() as int, |i: int| rules[i].spec_has_basic(username))
}

/// The index of the first rule naming an OAuth2 identity with this
/// username and provider.
pub open spec fn spec_find_oauth2(
    rules: Seq<Acl>,
    username: Seq<char>,
    provider: Seq<char>,
) -> Option<int> {
    first_index(rules.len() as int, |i: int| rules[i].spec_has_oauth2(username, provider))
}

/// The rule `Acls::get` resolves to, as an index into the rule list,
/// given the outcome `auth` of credential verification where one was
/// needed. First match wins; when no identity-bearing rule matches —
/// a basic username no rule names, a wrong password, an OAuth2 user
/// no rule names — resolution falls back to the anonymous default.
pub open spec fn spec_resolved(rules: Seq<Acl>, user: AuthUser, auth: bool) -> Option<int> {
    match user {
        AuthUser::Anonymous => spec_find_anon(rules),
        AuthUser::Basic { username, password } => match spec_find_basic(rules, username@) {
            None => spec_find_anon(rules),
            Some(i) => match password {
                None => Some(i),
                Some(_) => if auth {
                    Some(i)
                } else {
                    spec_find_anon(rules)
                },
            },
        },
        AuthUser::OAuth2 { username, provider } => match spec_find_oauth2(
            rules,
            username@,
            provider@,
        ) {
            Some(i) => Some(i),
            None => spec_find_anon(rules),
        },
    }
}

/// The ordered access rules.
pub struct Acls {
    pub rules: Vec<Acl>,
}

impl Acls {
    pub fn new(rules: Vec<Acl>) -> (r: Acls)
        ensures
            r.rules == rules,
    {
        Acls { rules }
    }

    /// The anonymous default: the first rule with an empty identity set.
    fn get_anon(&self) -> (r: Option<&Acl>)
        ensures
            match r {
                Some(a) => spec_find_anon(self.rules@) matches Some(i) && *a == self.rules@[i],
                None => spec_find_anon(self.rules@) is None,
            },
    {
        let n = self.rules.len();
        let mut i: usize = 0;
        while i < n
            invariant
                i <= n,
                n == self.rules@.len(),
                forall|j: int| 0 <= j < i ==> (#[trigger] self.rules@[j]).identities@.len() != 0,
            decreases n - i,
        {
            if self.rules[i].identities.len() == 0 {
                proof {
                    lemma_first_index_some(
                        self.rules@.len() as int,
                        |k: int| self.rules@[k].identities@.len() == 0,
                        i as int,
                    );
                }
                return Some(&self.rules[i]);
            }
            i += 1;
        }
        proof {
            lemma_first_index_none(
                self.rules@.len() as int,
                |k: int| self.rules@[k].identities@.len() == 0,
            );
        }
        None
    }

    fn find_basic(&self, username: &str) -> (r: Option<usize>)
        ensures
            match r {
                Some(i) => spec_find_basic(self.rules@, username@) == Some(i as int),
                None => spec_find_basic(self.rules@, username@) is None,
            },
    {
        let n = self.rules.len();
        let mut i: usize = 0;
        while i < n
            invariant
                i <= n,
                n == self.rules@.len(),
                forall|j: int|
                    0 <= j < i ==> !(#[trigger] self.rules@[j]).spec_has_basic(username@),
            decreases n - i,
        {
            if self.rules[i].has_basic(username) {
                proof {
                    lemma_first_index_some(
                        self.rules@.len() as int,
                        |k: int| self.rules@[k].spec_has_basic(username@),
                        i as int,
                    );
                }
                return Some(i);
            }
            i += 1;
        }
        proof {
            lemma_first_index_none(
                self.rules@.len() as int,
                |k: int| self.rules@[k].spec_has_basic(username@),
            );
        }
        None
    }

    fn find_oauth2(&self, username: &str, provider: &str) -> (r: Option<usize>)
        ensures
            match r {
                Some(i) => spec_find_oauth2(self.rules@, username@, provider@) == Some(i as int),
                None => spec_find_oauth2(self.rules@, username@, provider@) is None,
            },
    {
        let n = self.rules.len();
        let mut i: usize = 0;
        while i < n
            invariant
                i <= n,
                n == self.rules@.len(),
                forall|j: int|
                    0 <= j < i ==> !(#[trigger] self.rules@[j]).spec_has_oauth2(
                        username@,
                        provider@,
                    ),
            decreases n - i,
        {
            if self.rules[i].has_oauth2(username, provider) {
                proof {
                    lemma_first_index_some(
                        self.rules@.len() as int,
                        |k: int| self.rules@[k].spec_has_oauth2(username@, provider@),
                        i as int,
                    );
                }
                return Some(i);
            }
            i += 1;
        }
        proof {
            lemma_first_index_none(
                self.rules@.len() as int,
                |k: int| self.rules@[k].spec_has_oauth2(username@, provider@),
            );
        }
        None
    }

    /// Resolve the rule for an authenticated user. A basic user carrying
    /// a password is verified against the basic provider, whose cache
    /// state decides the outcome; the result is exactly the rule
    /// `spec_resolved` picks for that outcome.
    pub fn get<'a>(&'a self, user: &AuthUser, providers: &mut Providers) -> (r: Option<&'a Acl>)
        ensures
            old(providers).basic.cache_wf() ==> final(providers).basic.cache_wf(),
            final(providers).basic.users == old(providers).basic.users,
            final(providers).oauth2 == old(providers).oauth2,
            ({
                let auth = match user {
                    AuthUser::Basic { username, password: Some(pw) } => old(
                        providers,
                    ).basic.spec_auth_outcome(username@, pw@),
                    _ => false,
                };
                match spec_resolved(self.rules@, *user, auth) {
                    Some(i) => r matches Some(a) && *a == self.rules@[i],
                    None => r is None,
                }
            }),
    {
        let direct: Option<&Acl> = match user {
            AuthUser::Anonymous => {
                return self.get_anon();
            },
            AuthUser::Basic { username, password } => {
                let found = self.find_basic(username.as_str());
                match found {
                    None => None,
                    Some(i) => match password {
                        None => Some(&self.rules[i]),
                        Some(pw) => {
                            if providers.basic.auth(username.as_str(), pw.as_str()) {
                                Some(&self.rules[i])
                            } else {
                                None
                            }
                        },
                    },
                }
            },
            AuthUser::OAuth2 { username, provider } => {
                let found = self.find_oauth2(username.as_str(), provider.as_str());
                match found {
                    Some(i) => Some(&self.rules[i]),
                    None => None,
                }
            },
        };
        match direct {
            Some(a) => Some(a),
            None => self.get_anon(),
        }
    }
}

} // verus!
