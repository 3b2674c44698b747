use transmission_proxy::acl::{Acl, AclIdentity, Acls};
use transmission_proxy::auth::{AuthUser, BasicAuthProvider, BasicAuthUser, Providers, UserClaim};

fn rule_for(identities: Vec<AclIdentity>, dir: Option<&str>) -> Acl {
    Acl {
        identities,
        download_dir: dir.map(|d| d.to_string()),
        allowed_methods: Vec::new(),
        deny: false,
        tracker_rules: Vec::new(),
    }
}

fn basic_id(name: &str) -> AclIdentity {
    AclIdentity::Basic { name: name.to_string() }
}

fn providers_with(users: Vec<BasicAuthUser>) -> Providers {
    Providers { basic: BasicAuthProvider::new(true, true, users), oauth2: Vec::new() }
}

#[test]
fn anonymous_gets_anon_default() {
    let acls = Acls::new(vec![
        rule_for(vec![basic_id("alice")], Some("/data/alice")),
        rule_for(vec![], None),
    ]);
    let mut providers = providers_with(Vec::new());
    let got = acls.get(&AuthUser::Anonymous, &mut providers);
    assert!(got.is_some());
    assert!(got.unwrap().identities.is_empty());
}

#[test]
fn anonymous_without_default_gets_none() {
    let acls = Acls::new(vec![rule_for(vec![basic_id("alice")], Some("/data/alice"))]);
    let mut providers = providers_with(Vec::new());
    assert!(acls.get(&AuthUser::Anonymous, &mut providers).is_none());
}

#[test]
fn token_authenticated_basic_user_matches_first_rule() {
    let acls = Acls::new(vec![
        rule_for(vec![basic_id("alice")], Some("/data/alice")),
        rule_for(vec![basic_id("alice")], Some("/data/other")),
    ]);
    let mut providers = providers_with(Vec::new());
    let user = AuthUser::Basic { username: "alice".to_string(), password: None };
    let got = acls.get(&user, &mut providers).unwrap();
    assert_eq!(got.download_dir.as_deref(), Some("/data/alice"));
}

#[test]
fn unknown_basic_username_falls_back_to_anon_default() {
    // no identity-bearing rule matches, so the anonymous default applies
    let acls = Acls::new(vec![
        rule_for(vec![basic_id("alice")], Some("/data/alice")),
        rule_for(vec![], None),
    ]);
    let mut providers = providers_with(Vec::new());
    let user = AuthUser::Basic { username: "mallory".to_string(), password: None };
    let got = acls.get(&user, &mut providers).unwrap();
    assert!(got.identities.is_empty());
}

#[test]
fn unknown_basic_username_without_default_matches_no_rule() {
    let acls = Acls::new(vec![rule_for(vec![basic_id("alice")], Some("/data/alice"))]);
    let mut providers = providers_with(Vec::new());
    let user = AuthUser::Basic { username: "mallory".to_string(), password: None };
    assert!(acls.get(&user, &mut providers).is_none());
}

#[test]
fn wrong_password_falls_back_to_anon_default() {
    let hash = bcrypt::hash("right", 4).unwrap();
    let acls = Acls::new(vec![
        rule_for(vec![basic_id("alice")], Some("/data/alice")),
        rule_for(vec![], None),
    ]);
    let mut providers = providers_with(vec![BasicAuthUser {
        username: "alice".to_string(),
        password: hash,
    }]);
    let user = AuthUser::Basic {
        username: "alice".to_string(),
        password: Some("wrong".to_string()),
    };
    let got = acls.get(&user, &mut providers).unwrap();
    assert!(got.identities.is_empty());
}

#[test]
fn right_password_matches_rule() {
    let hash = bcrypt::hash("s3cret", 4).unwrap();
    let acls = Acls::new(vec![rule_for(vec![basic_id("bob")], Some("/data/bob"))]);
    let mut providers = providers_with(vec![BasicAuthUser {
        username: "bob".to_string(),
        password: hash,
    }]);
    let user = AuthUser::Basic {
        username: "bob".to_string(),
        password: Some("s3cret".to_string()),
    };
    let got = acls.get(&user, &mut providers).unwrap();
    assert_eq!(got.download_dir.as_deref(), Some("/data/bob"));
}

#[test]
fn oauth2_user_matches_provider_and_name() {
    let acls = Acls::new(vec![
        Acl {
            identities: vec![AclIdentity::OAuth2 {
                name: "carol".to_string(),
                oauth2: "github".to_string(),
            }],
            download_dir: Some("/data/carol".to_string()),
            allowed_methods: Vec::new(),
            deny: false,
            tracker_rules: Vec::new(),
        },
        rule_for(vec![], None),
    ]);
    let mut providers = providers_with(Vec::new());
    let hit = AuthUser::OAuth2 { username: "carol".to_string(), provider: "github".to_string() };
    assert_eq!(
        acls.get(&hit, &mut providers).unwrap().download_dir.as_deref(),
        Some("/data/carol")
    );
    // same name under another provider falls back to the anonymous default
    let miss = AuthUser::OAuth2 { username: "carol".to_string(), provider: "gitlab".to_string() };
    assert!(acls.get(&miss, &mut providers).unwrap().identities.is_empty());
}

#[test]
fn verify_cache_fills_on_success_only() {
    let hash = bcrypt::hash("pw", 4).unwrap();
    let mut provider = BasicAuthProvider::new(
        true,
        true,
        vec![BasicAuthUser { username: "dave".to_string(), password: hash }],
    );
    assert!(!provider.auth("dave", "bad"));
    assert_eq!(provider.verify_cache.len(), 0);
    assert!(provider.auth("dave", "pw"));
    assert_eq!(provider.verify_cache.len(), 1);
    assert_eq!(provider.verify_cache[0].0, "dave");
    assert_eq!(provider.verify_cache[0].1, "pw");
    // the cached plaintext short-circuits bcrypt and still decides
    // correctly, without growing the cache
    assert!(provider.auth("dave", "pw"));
    assert_eq!(provider.verify_cache.len(), 1);
    assert!(!provider.auth("dave", "bad"));
    assert_eq!(provider.verify_cache.len(), 1);
    // an unknown username never touches the cache
    assert!(!provider.auth("nobody", "pw"));
    assert_eq!(provider.verify_cache.len(), 1);
    assert_eq!(provider.verify_cache[0].0, "dave");
}

#[test]
fn is_nop_requires_everything_empty() {
    let nop = rule_for(vec![basic_id("x")], None);
    assert!(nop.is_nop());
    let with_dir = rule_for(vec![], Some("/d"));
    assert!(!with_dir.is_nop());
    let mut denying = rule_for(vec![], None);
    denying.deny = true;
    assert!(!denying.is_nop());
}

#[test]
fn user_claims_round_trip() {
    let user = AuthUser::Basic {
        username: "alice".to_string(),
        password: Some("pw".to_string()),
    };
    let claim = UserClaim::from_auth_user(&user).unwrap();
    match claim.to_auth_user() {
        AuthUser::Basic { username, password } => {
            assert_eq!(username, "alice");
            assert!(password.is_none());
        }
        _ => panic!("expected basic user"),
    }
    assert!(UserClaim::from_auth_user(&AuthUser::Anonymous).is_none());
    assert!(AuthUser::Anonymous.is_anonymous());
    assert!(!user.is_anonymous());
}
