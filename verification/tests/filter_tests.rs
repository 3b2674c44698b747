use transmission_proxy::acl::Acl;
use transmission_proxy::filter::{
    checked_filter_request, filter_request, filter_response, needs_probe, probe_request,
    response_parse_mode, FilterError, FilterErrorKind, ParsedArguments, ProbeOutcome,
    ResponseParse, UnsupportedFeature,
};
use transmission_proxy::metainfo::decode_metainfo;
use transmission_proxy::codec::Bencode;
use transmission_proxy::rpc::{
    MethodCall, MethodName, RawResponse, Request, ResponseKind, ResponseStatus, SessionArguments,
    SessionSet, Torrent, TorrentAction, TorrentAdd, TorrentId, TorrentIdSet, TorrentIds, Torrents,
};
use transmission_proxy::tracker::TrackerRule;

fn open_acl() -> Acl {
    Acl {
        identities: Vec::new(),
        download_dir: None,
        allowed_methods: Vec::new(),
        deny: false,
        tracker_rules: Vec::new(),
    }
}

fn acl_with_dir(dir: &str) -> Acl {
    Acl { download_dir: Some(dir.to_string()), ..open_acl() }
}

fn torrent(id: i32, dir: &str) -> Torrent {
    Torrent { id: TorrentId::Id(id), download_dir: dir.to_string(), extra: Vec::new() }
}

fn torrent_add(dir: &str, metainfo: &str) -> TorrentAdd {
    TorrentAdd {
        cookies: None,
        download_dir: dir.to_string(),
        filename: None,
        labels: Vec::new(),
        metainfo: metainfo.to_string(),
        paused: false,
        peer_limit: None,
        bandwidth_priority: None,
        files_wanted: Vec::new(),
        files_unwanted: Vec::new(),
        priority_high: Vec::new(),
        priority_low: Vec::new(),
        priority_normal: Vec::new(),
        rest: Vec::new(),
    }
}

fn json(s: &str) -> serde_json::Value {
    serde_json::from_str(s).unwrap()
}

#[test]
fn allow_list_violation_is_forbidden() {
    // rule allows only torrent-get; session-set with tag 7 is refused
    // before anything else, with the RPC-shaped failure body
    let acl = Acl { allowed_methods: vec![MethodName::TorrentGet], ..open_acl() };
    let request = Request {
        call: MethodCall::SessionSet { arguments: SessionSet { rest: Vec::new() } },
        tag: Some(7),
    };
    let err = filter_request(request, &acl, ProbeOutcome::NotNeeded).err().unwrap();
    assert!(matches!(err.kind, FilterErrorKind::Forbidden));
    assert_eq!(err.tag, Some(7));
    assert_eq!(err.http_status(), 403);
    let body = err.to_response();
    assert_eq!(body.tag, Some(7));
    assert!(body.arguments.is_none());
    match body.result {
        ResponseStatus::Failure(s) => assert_eq!(s, "access denied"),
        _ => panic!("expected failure"),
    }
}

#[test]
fn allowed_method_passes_gating() {
    let acl = Acl { allowed_methods: vec![MethodName::TorrentGet], ..open_acl() };
    let request = Request {
        call: MethodCall::TorrentGet {
            arguments: transmission_proxy::rpc::TorrentGet {
                ids: None,
                fields: Vec::new(),
                format: transmission_proxy::rpc::TorrentGetFormat::Objects,
                rest: Vec::new(),
            },
        },
        tag: None,
    };
    assert!(filter_request(request, &acl, ProbeOutcome::NotNeeded).is_ok());
}

#[test]
fn target_set_resolution_keeps_authorized_ids() {
    // scenario: bob's rule forces /data/bob; torrent-stop on
    // recently-active expands to the ids under his directory
    let acl = acl_with_dir("/data/bob");
    let request = Request {
        call: MethodCall::TorrentStop {
            arguments: TorrentAction {
                ids: Some(TorrentIds::Named(TorrentIdSet::RecentlyActive)),
                rest: Vec::new(),
            },
        },
        tag: Some(3),
    };
    assert!(needs_probe(&request, &acl));
    let probe = probe_request(&request);
    assert!(probe.tag.is_none());
    match &probe.call {
        MethodCall::TorrentGet { arguments } => {
            assert_eq!(arguments.fields, vec!["id".to_string(), "downloadDir".to_string()]);
            assert!(matches!(
                arguments.ids,
                Some(TorrentIds::Named(TorrentIdSet::RecentlyActive))
            ));
        }
        _ => panic!("probe must be torrent-get"),
    }
    let upstream = vec![torrent(10, "/data/bob/"), torrent(11, "/data/alice")];
    let out = filter_request(request, &acl, ProbeOutcome::Torrents(upstream)).unwrap();
    assert_eq!(out.tag, Some(3));
    match out.call {
        MethodCall::TorrentStop { arguments } => match arguments.ids {
            Some(TorrentIds::Ids(ids)) => {
                assert_eq!(ids.len(), 1);
                assert!(matches!(ids[0], TorrentId::Id(10)));
            }
            _ => panic!("expected explicit id list"),
        },
        _ => panic!("method must be preserved"),
    }
}

#[test]
fn failed_probe_is_upstream_unknown() {
    let acl = acl_with_dir("/data/bob");
    let request = Request {
        call: MethodCall::TorrentStop {
            arguments: TorrentAction { ids: None, rest: Vec::new() },
        },
        tag: Some(9),
    };
    let err = filter_request(request, &acl, ProbeOutcome::Failed).err().unwrap();
    assert!(matches!(err.kind, FilterErrorKind::UpstreamUnknown));
    assert_eq!(err.tag, Some(9));
    assert_eq!(err.http_status(), 502);
}

#[test]
fn torrent_add_outside_dir_is_forbidden() {
    let acl = acl_with_dir("/data/bob");
    let request = Request {
        call: MethodCall::TorrentAdd {
            arguments: torrent_add("/data/bobby-trap", ""),
        },
        tag: Some(1),
    };
    let err = filter_request(request, &acl, ProbeOutcome::NotNeeded).err().unwrap();
    assert!(matches!(err.kind, FilterErrorKind::Forbidden));
    assert_eq!(err.tag, Some(1));
}

#[test]
fn torrent_add_keeps_download_dir() {
    let acl = acl_with_dir("/data/bob");
    let request = Request {
        call: MethodCall::TorrentAdd {
            arguments: torrent_add("/data/bob/new", ""),
        },
        tag: None,
    };
    let out = filter_request(request, &acl, ProbeOutcome::NotNeeded).unwrap();
    match out.call {
        MethodCall::TorrentAdd { arguments } => {
            assert_eq!(arguments.download_dir, "/data/bob/new");
        }
        _ => panic!("method must be preserved"),
    }
}

#[test]
fn torrent_add_exact_dir_is_allowed() {
    let acl = acl_with_dir("/data/bob");
    let request = Request {
        call: MethodCall::TorrentAdd { arguments: torrent_add("/data/bob", "") },
        tag: None,
    };
    assert!(filter_request(request, &acl, ProbeOutcome::NotNeeded).is_ok());
}

#[test]
fn metainfo_tracker_rewrite() {
    // a torrent-add under tracker rules has its announce URL rewritten
    // inside the re-encoded, re-base64d metainfo
    let rule = TrackerRule::replace(
        "^http://old/(.*)$".to_string(),
        "http://new/$1".to_string(),
    )
    .unwrap();
    let acl = Acl { tracker_rules: vec![rule], ..acl_with_dir("/data/bob") };
    let torrent_bytes = b"d8:announce12:http://old/x4:infod4:name3:fooee".to_vec();
    let encoded = base64::encode(&torrent_bytes);
    let request = Request {
        call: MethodCall::TorrentAdd {
            arguments: torrent_add("/data/bob/x", &encoded),
        },
        tag: Some(5),
    };
    let out = filter_request(request, &acl, ProbeOutcome::NotNeeded).unwrap();
    assert_eq!(out.tag, Some(5));
    let new_metainfo = match out.call {
        MethodCall::TorrentAdd { arguments } => {
            assert_eq!(arguments.download_dir, "/data/bob/x");
            arguments.metainfo
        }
        _ => panic!("method must be preserved"),
    };
    let decoded = base64::decode(&new_metainfo).unwrap();
    assert_eq!(decoded, b"d8:announce12:http://new/x4:infod4:name3:fooee".to_vec());
    let meta = decode_metainfo(&decoded).unwrap();
    assert_eq!(meta.dict[0].0, b"announce".to_vec());
    match &meta.dict[0].1 {
        Bencode::Bytes(b) => assert_eq!(b, &b"http://new/x".to_vec()),
        _ => panic!("announce must stay a byte string"),
    }
}

#[test]
fn magnet_link_under_rules_is_unsupported() {
    let rule = TrackerRule::replace("a".to_string(), "b".to_string()).unwrap();
    let acl = Acl { tracker_rules: vec![rule], ..acl_with_dir("/data/bob") };
    let request = Request {
        call: MethodCall::TorrentAdd { arguments: torrent_add("/data/bob/x", "") },
        tag: Some(2),
    };
    let err = filter_request(request, &acl, ProbeOutcome::NotNeeded).err().unwrap();
    assert!(matches!(
        err.kind,
        FilterErrorKind::Unsupported(UnsupportedFeature::MagnetLinks)
    ));
    assert_eq!(err.http_status(), 501);
}

#[test]
fn bad_base64_is_reported() {
    let rule = TrackerRule::replace("a".to_string(), "b".to_string()).unwrap();
    let acl = Acl { tracker_rules: vec![rule], ..acl_with_dir("/data/bob") };
    let request = Request {
        call: MethodCall::TorrentAdd {
            arguments: torrent_add("/data/bob/x", "!!!not-base64!!!"),
        },
        tag: None,
    };
    let err = filter_request(request, &acl, ProbeOutcome::NotNeeded).err().unwrap();
    assert!(matches!(err.kind, FilterErrorKind::Base64));
    assert_eq!(err.http_status(), 400);
}

#[test]
fn bad_bencode_is_a_torrent_error() {
    let rule = TrackerRule::replace("a".to_string(), "b".to_string()).unwrap();
    let acl = Acl { tracker_rules: vec![rule], ..acl_with_dir("/data/bob") };
    let encoded = base64::encode(b"this is not bencode");
    let request = Request {
        call: MethodCall::TorrentAdd {
            arguments: torrent_add("/data/bob/x", &encoded),
        },
        tag: None,
    };
    let err = filter_request(request, &acl, ProbeOutcome::NotNeeded).err().unwrap();
    assert!(matches!(err.kind, FilterErrorKind::Torrent(_)));
    assert_eq!(err.http_status(), 400);
}

#[test]
fn tracker_replace_is_unsupported() {
    let rule = TrackerRule::replace("a".to_string(), "b".to_string()).unwrap();
    let acl = Acl { tracker_rules: vec![rule], ..acl_with_dir("/data/bob") };
    let request = Request {
        call: MethodCall::TorrentSet {
            arguments: transmission_proxy::rpc::TorrentSet {
                ids: Some(TorrentIds::Id(1)),
                location: None,
                tracker_add: Vec::new(),
                tracker_remove: Vec::new(),
                tracker_replace: vec!["x".to_string()],
                rest: Vec::new(),
            },
        },
        tag: Some(8),
    };
    let err = filter_request(
        request,
        &acl,
        ProbeOutcome::Torrents(vec![torrent(1, "/data/bob")]),
    )
    .err()
    .unwrap();
    assert!(matches!(
        err.kind,
        FilterErrorKind::Unsupported(UnsupportedFeature::TrackerReplace)
    ));
    match err.kind {
        k => assert_eq!(k.message(), "unsupported: trackerReplace in torrent-set"),
    }
}

#[test]
fn torrent_set_location_outside_dir_is_forbidden() {
    let acl = acl_with_dir("/data/bob");
    let request = Request {
        call: MethodCall::TorrentSetLocation {
            arguments: transmission_proxy::rpc::TorrentSetLocation {
                ids: Some(TorrentIds::Id(4)),
                location: "/data/alice/here".to_string(),
                move_data: false,
                rest: Vec::new(),
            },
        },
        tag: Some(6),
    };
    let err = filter_request(
        request,
        &acl,
        ProbeOutcome::Torrents(vec![torrent(4, "/data/bob")]),
    )
    .err()
    .unwrap();
    assert!(matches!(err.kind, FilterErrorKind::Forbidden));
    assert_eq!(err.tag, Some(6));
}

#[test]
fn checked_filter_refuses_invalid_patterns() {
    let bad_rule = TrackerRule::Replace { from: "(".to_string(), to: "x".to_string() };
    let acl = Acl { tracker_rules: vec![bad_rule], ..open_acl() };
    let request = Request {
        call: MethodCall::SessionStats,
        tag: None,
    };
    assert!(checked_filter_request(request, &acl, ProbeOutcome::NotNeeded).is_none());
    let request = Request { call: MethodCall::SessionStats, tag: None };
    assert!(checked_filter_request(request, &open_acl(), ProbeOutcome::NotNeeded)
        .unwrap()
        .is_ok());
}

#[test]
fn response_filtering_on_torrent_get() {
    // scenario: only the torrent under /data/bob survives; the tag is kept
    let acl = acl_with_dir("/data/bob");
    let request = Request {
        call: MethodCall::TorrentGet {
            arguments: transmission_proxy::rpc::TorrentGet {
                ids: None,
                fields: Vec::new(),
                format: transmission_proxy::rpc::TorrentGetFormat::Objects,
                rest: Vec::new(),
            },
        },
        tag: Some(42),
    };
    assert!(matches!(response_parse_mode(&request, &acl), ResponseParse::AsTorrents));
    let response = RawResponse {
        tag: Some(42),
        arguments: Some(json("{}")),
        result: ResponseStatus::Success,
    };
    let parsed = ParsedArguments::Torrents(Torrents {
        torrents: vec![torrent(1, "/data/bob"), torrent(2, "/data/alice")],
        extra: Vec::new(),
    });
    let out = filter_response(&request, response, &acl, parsed).unwrap();
    assert_eq!(out.tag, Some(42));
    assert!(matches!(out.result, ResponseStatus::Success));
    match out.arguments {
        Some(ResponseKind::Torrents(t)) => {
            assert_eq!(t.torrents.len(), 1);
            assert!(matches!(t.torrents[0].id, TorrentId::Id(1)));
        }
        _ => panic!("expected torrents"),
    }
}

#[test]
fn trailing_slash_is_stripped_before_prefix_check() {
    let acl = acl_with_dir("/data/bob");
    let request = Request {
        call: MethodCall::TorrentGet {
            arguments: transmission_proxy::rpc::TorrentGet {
                ids: None,
                fields: Vec::new(),
                format: transmission_proxy::rpc::TorrentGetFormat::Objects,
                rest: Vec::new(),
            },
        },
        tag: None,
    };
    let response = RawResponse {
        tag: None,
        arguments: Some(json("{}")),
        result: ResponseStatus::Success,
    };
    let parsed = ParsedArguments::Torrents(Torrents {
        torrents: vec![torrent(1, "/data/bob/")],
        extra: Vec::new(),
    });
    let out = filter_response(&request, response, &acl, parsed).unwrap();
    match out.arguments {
        Some(ResponseKind::Torrents(t)) => assert_eq!(t.torrents.len(), 1),
        _ => panic!("expected torrents"),
    }
}

#[test]
fn session_get_reports_forced_directory() {
    let acl = acl_with_dir("/data/bob");
    let request = Request {
        call: MethodCall::SessionGet {
            arguments: transmission_proxy::rpc::SessionGet {
                fields: Vec::new(),
                rest: Vec::new(),
            },
        },
        tag: Some(11),
    };
    assert!(matches!(response_parse_mode(&request, &acl), ResponseParse::AsSession));
    let response = RawResponse {
        tag: Some(11),
        arguments: Some(json("{}")),
        result: ResponseStatus::Success,
    };
    let parsed = ParsedArguments::Session(SessionArguments {
        download_dir: "/srv/upstream".to_string(),
        rest: vec![("peer-port".to_string(), json("51413"))],
    });
    let out = filter_response(&request, response, &acl, parsed).unwrap();
    assert_eq!(out.tag, Some(11));
    match out.arguments {
        Some(ResponseKind::Session(sa)) => {
            assert_eq!(sa.download_dir, "/data/bob");
            assert_eq!(sa.rest.len(), 1);
            assert_eq!(sa.rest[0].0, "peer-port");
        }
        _ => panic!("expected session arguments"),
    }
}

#[test]
fn unparseable_arguments_are_a_serde_error() {
    let acl = acl_with_dir("/data/bob");
    let request = Request {
        call: MethodCall::SessionGet {
            arguments: transmission_proxy::rpc::SessionGet {
                fields: Vec::new(),
                rest: Vec::new(),
            },
        },
        tag: Some(13),
    };
    let response = RawResponse {
        tag: Some(13),
        arguments: Some(json("[1,2,3]")),
        result: ResponseStatus::Success,
    };
    let err = filter_response(&request, response, &acl, ParsedArguments::Failed).err().unwrap();
    assert!(matches!(err.kind, FilterErrorKind::Serde));
    assert_eq!(err.tag, Some(13));
    assert_eq!(err.http_status(), 500);
    match err.kind {
        k => assert_eq!(k.message(), "could not decode body"),
    }
}

#[test]
fn raw_responses_pass_through_with_request_tag() {
    let acl = open_acl();
    let request = Request { call: MethodCall::SessionStats, tag: Some(21) };
    assert!(matches!(response_parse_mode(&request, &acl), ResponseParse::Keep));
    let response = RawResponse {
        tag: None,
        arguments: Some(json("{\"anything\": [1, 2]}")),
        result: ResponseStatus::Failure("boom".to_string()),
    };
    let out = filter_response(&request, response, &acl, ParsedArguments::NotParsed).unwrap();
    // tag correlation: the response carries the request's tag
    assert_eq!(out.tag, Some(21));
    match out.result {
        ResponseStatus::Failure(s) => assert_eq!(s, "boom"),
        _ => panic!("result must be preserved"),
    }
    match out.arguments {
        Some(ResponseKind::Other { extra }) => {
            assert_eq!(extra, json("{\"anything\": [1, 2]}"));
        }
        _ => panic!("expected raw pass-through"),
    }
}

#[test]
fn error_statuses_follow_the_table() {
    assert_eq!(FilterErrorKind::ParseBody.http_status(), 400);
    assert_eq!(FilterErrorKind::Upstream.http_status(), 503);
    assert_eq!(FilterErrorKind::ParseBody.message(), "could not parse request body");
    assert_eq!(FilterErrorKind::Upstream.message(), "upstream error");
    assert_eq!(FilterErrorKind::UpstreamUnknown.message(), "unknown upstream error");
    let e = FilterError { tag: None, kind: FilterErrorKind::ParseBody };
    let body = e.to_response();
    assert!(body.tag.is_none());
    assert!(body.arguments.is_none());
}

#[test]
fn default_torrent_get_asks_for_the_standard_fields() {
    let tg = transmission_proxy::rpc::TorrentGet::default();
    assert!(tg.ids.is_none());
    assert!(tg.format.is_objects());
    assert_eq!(tg.fields.len(), 28);
    assert_eq!(tg.fields[0], "id");
    assert_eq!(tg.fields[24], "downloadDir");
}
