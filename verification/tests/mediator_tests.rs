use transmission_proxy::acl::Acl;
use transmission_proxy::mediator::{
    gate, is_rpc_path, route_path, trim_trailing_slashes, upstream_url, GateDecision, Paths,
};
use transmission_proxy::paths::{dir_kept, prefix_ok, starts_with_str, str_eq, strip_trailing_slash};
use transmission_proxy::rpc::{IntBool, TorrentGetFormat};
use transmission_proxy::session::{
    check_response_tag, next_tag, observe_upstream_response, session_id_header, ClientError,
    ClientState,
};

fn denying_acl() -> Acl {
    Acl {
        identities: Vec::new(),
        download_dir: None,
        allowed_methods: Vec::new(),
        deny: true,
        tracker_rules: Vec::new(),
    }
}

#[test]
fn anonymous_denied_html_client_is_redirected() {
    // scenario: one denying anonymous rule under base path /t
    let paths = Paths::new("/t");
    assert_eq!(paths.login_path, "/t/login");
    assert_eq!(paths.web_path, "/t/web/");
    let acl = denying_acl();
    match gate(Some(&acl), true, &paths.login_path, "/t/web/") {
        GateDecision::RedirectToLogin(loc) => {
            assert_eq!(loc, "/t/login?redirect_to=%2Ft%2Fweb%2F");
        }
        _ => panic!("anonymous user must be redirected to the login page"),
    }
}

#[test]
fn authenticated_denied_user_is_unauthorized() {
    let acl = denying_acl();
    assert!(matches!(
        gate(Some(&acl), false, "/t/login", "/t/web/"),
        GateDecision::Unauthorized
    ));
}

#[test]
fn no_matching_rule_proceeds_unfiltered() {
    assert!(matches!(gate(None, true, "/t/login", "/x"), GateDecision::Proceed));
}

#[test]
fn allowing_rule_proceeds() {
    let mut acl = denying_acl();
    acl.deny = false;
    assert!(matches!(gate(Some(&acl), true, "/t/login", "/x"), GateDecision::Proceed));
}

#[test]
fn session_handshake_captures_token() {
    // scenario: a 409 with the session header fills the token cell
    let state = ClientState::default();
    assert!(matches!(state.get_session_id(), Err(ClientError::NoSessionId)));
    let state = observe_upstream_response(state, 409, Some("abc".to_string()));
    assert_eq!(state.get_session_id().unwrap(), "abc");
    // ordinary responses leave the token alone
    let state = observe_upstream_response(state, 200, None);
    assert_eq!(state.get_session_id().unwrap(), "abc");
    // a later 409 refreshes it
    let state = observe_upstream_response(state, 409, Some("def".to_string()));
    assert_eq!(state.get_session_id().unwrap(), "def");
    assert_eq!(session_id_header(), "X-Transmission-Session-Id");
}

#[test]
fn tag_checks_and_increments() {
    assert!(check_response_tag(Some(5), Some(5)).is_ok());
    assert!(matches!(
        check_response_tag(Some(5), Some(6)),
        Err(ClientError::TagMismatch)
    ));
    assert!(matches!(check_response_tag(Some(5), None), Err(ClientError::TagMismatch)));
    assert!(check_response_tag(None, None).is_ok());
    assert_eq!(next_tag(57680), 57681);
}

#[test]
fn rpc_paths_end_in_rpc() {
    assert!(is_rpc_path("/transmission/rpc"));
    assert!(is_rpc_path("/rpc"));
    assert!(!is_rpc_path("/transmission/web/"));
    assert!(!is_rpc_path("rpc"));
}

#[test]
fn upstream_url_joins_origin_and_path() {
    assert_eq!(
        upstream_url("http://localhost:9091", "/transmission/rpc?x=1"),
        "http://localhost:9091/transmission/rpc?x=1"
    );
}

#[test]
fn route_paths_join_without_double_slashes() {
    assert_eq!(route_path("/t", "/login"), "/t/login");
    assert_eq!(route_path("/t/", "/login"), "/t/login");
    assert_eq!(route_path("", "/login"), "/login");
    assert_eq!(trim_trailing_slashes("/t///"), "/t");
    assert_eq!(trim_trailing_slashes("/t"), "/t");
}

#[test]
fn prefix_check_requires_a_path_boundary() {
    let bob = Some("/downloads/public".to_string());
    assert!(prefix_ok("/downloads/public/film", &bob));
    assert!(prefix_ok("/downloads/public", &bob));
    // a sibling directory sharing the prefix characters is rejected
    assert!(!prefix_ok("/downloads/public-attack", &bob));
    assert!(prefix_ok("/anything", &None));
    let slashed = Some("/data/bob/".to_string());
    assert!(prefix_ok("/data/bob/x", &slashed));
}

#[test]
fn response_dir_check_strips_one_trailing_slash() {
    assert!(dir_kept("/data/bob/", "/data/bob"));
    assert!(dir_kept("/data/bob/sub", "/data/bob"));
    assert!(!dir_kept("/data/alice", "/data/bob"));
    assert_eq!(strip_trailing_slash("/a/"), "/a");
    assert_eq!(strip_trailing_slash("/a"), "/a");
    assert!(starts_with_str("abc", "ab"));
    assert!(!starts_with_str("ab", "abc"));
    assert!(str_eq("same", "same"));
    assert!(!str_eq("same", "sane"));
}

#[test]
fn small_wire_values_behave() {
    assert!(IntBool::Int(2).as_bool());
    assert!(!IntBool::Int(0).as_bool());
    assert!(IntBool::Bool(true).as_bool());
    assert!(TorrentGetFormat::Objects.is_objects());
    assert!(!TorrentGetFormat::Table.is_objects());
    assert!(TorrentGetFormat::default().is_objects());
}

#[test]
fn wire_values_convert_to_integers() {
    assert_eq!(IntBool::Int(7).as_int(), 7);
    assert_eq!(IntBool::Bool(true).as_int(), 1);
    assert_eq!(IntBool::Bool(false).as_int(), 0);
}
