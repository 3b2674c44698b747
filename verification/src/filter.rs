//! The per-method request and response filters: allow-list gating,
//! target-set expansion, path authorization, tracker rewriting inside
//! uploaded metainfo, and response filtering.

use vstd::prelude::*;
use vstd::string::StringExecFns;

use crate::acl::Acl;
use crate::codec::{spec_decoded, spec_decodes, BValue, DecodeError};
use crate::metainfo::{
    decode_metainfo, encode_metainfo, rewrite_trackers, spec_rewrite_dict,
};
use crate::paths::{prefix_ok, spec_dir_kept, spec_prefix_ok};
use crate::rpc::{
    MethodCall, Request, Response, ResponseKind, ResponseStatus, RawResponse, SessionArguments,
    Torrent, TorrentId, TorrentIds, Torrents, spec_opt_ids_like,
};
use crate::tracker::{seq_views, spec_apply_list};

verus! {

/// What `base64::decode` returns: a function of the input characters,
/// `None` where the input is not valid base64.
pub uninterp spec fn base64_decoded(s: Seq<char>) -> Option<Seq<u8>>;

/// What `base64::encode` returns: a function of the input bytes.
pub uninterp spec fn base64_encoded(b: Seq<u8>) -> Seq<char>;

/// Relies on base64::decode with the standard alphabet: the outcome
/// depends on the input characters alone, and invalid input errors out.
#[verifier::external_body]
fn base64_decode(s: &str) -> (r: Option<Vec<u8>>)
    ensures
        r is Some <==> base64_decoded(s@) is Some,
        r matches Some(b) ==> base64_decoded(s@) == Some(b@),
{
    match base64::decode(s) {
        Ok(v) => Some(v),
        Err(_) => None,
    }
}

/// Relies on base64::encode with the standard alphabet: the output
/// depends on the input bytes alone.
#[verifier::external_body]
fn base64_encode(b: &Vec<u8>) -> (r: String)
    ensures
        r@ == base64_encoded(b@),
{
    base64::encode(b)
}

/// The features the mediator refuses rather than forwards.
#[derive(Clone, Copy, Debug, PartialEq, Eq, Structural)]
pub enum UnsupportedFeature {
    TrackerReplace,
    MagnetLinks,
}

/// Why a request or response was not mediated, from the closed set the
/// wire protocol documents.
#[derive(Debug)]
pub enum FilterErrorKind {
    Unsupported(UnsupportedFeature),
    Forbidden,
    Torrent(DecodeError),
    Base64,
    ParseBody,
    Serde,
    Upstream,
    UpstreamUnknown,
}

impl FilterErrorKind {
    /// The failure string reported to the client.
    pub open spec fn spec_message(&self) -> Seq<char> {
        match self {
            FilterErrorKind::Unsupported(UnsupportedFeature::TrackerReplace) => {
                "unsupported: trackerReplace in torrent-set"@
            },
            FilterErrorKind::Unsupported(UnsupportedFeature::MagnetLinks) => {
                "unsupported: magnet links"@
            },
            FilterErrorKind::Forbidden => "access denied"@,
            FilterErrorKind::Torrent(_) => "torrent error"@,
            FilterErrorKind::Base64 => "base64 error"@,
            FilterErrorKind::ParseBody => "could not parse request body"@,
            FilterErrorKind::Serde => "could not decode body"@,
            FilterErrorKind::Upstream => "upstream error"@,
            FilterErrorKind::UpstreamUnknown => "unknown upstream error"@,
        }
    }

    pub fn message(&self) -> (r: String)
        ensures
            r@ == self.spec_message(),
    {
        match self {
            FilterErrorKind::Unsupported(UnsupportedFeature::TrackerReplace) => {
                String::from_str("unsupported: trackerReplace in torrent-set")
            },
            FilterErrorKind::Unsupported(UnsupportedFeature::MagnetLinks) => {
                String::from_str("unsupported: magnet links")
            },
            FilterErrorKind::Forbidden => String::from_str("access denied"),
            FilterErrorKind::Torrent(_) => String::from_str("torrent error"),
            FilterErrorKind::Base64 => String::from_str("base64 error"),
            FilterErrorKind::ParseBody => String::from_str("could not parse request body"),
            FilterErrorKind::Serde => String::from_str("could not decode body"),
            FilterErrorKind::Upstream => String::from_str("upstream error"),
            FilterErrorKind::UpstreamUnknown => String::from_str("unknown upstream error"),
        }
    }

    /// The HTTP status a failure is reported with.
    pub open spec fn spec_http_status(&self) -> u16 {
        match self {
            FilterErrorKind::Unsupported(_) => 501,
            FilterErrorKind::Forbidden => 403,
            FilterErrorKind::Torrent(_) => 400,
            FilterErrorKind::Base64 => 400,
            FilterErrorKind::ParseBody => 400,
            FilterErrorKind::Serde => 500,
            FilterErrorKind::Upstream => 503,
            FilterErrorKind::UpstreamUnknown => 502,
        }
    }

    pub fn http_status(&self) -> (r: u16)
        ensures
            r == self.spec_http_status(),
    {
        match self {
            FilterErrorKind::Unsupported(_) => 501,
            FilterErrorKind::Forbidden => 403,
            FilterErrorKind::Torrent(_) => 400,
            FilterErrorKind::Base64 => 400,
            FilterErrorKind::ParseBody => 400,
            FilterErrorKind::Serde => 500,
            FilterErrorKind::Upstream => 503,
            FilterErrorKind::UpstreamUnknown => 502,
        }
    }
}

/// A filter failure, carrying the original request's tag for the
/// RPC-shaped failure body.
#[derive(Debug)]
pub struct FilterError {
    pub tag: Option<i32>,
    pub kind: FilterErrorKind,
}

impl FilterError {
    pub fn http_status(&self) -> (r: u16)
        ensures
            r == self.kind.spec_http_status(),
    {
        self.kind.http_status()
    }

    /// The RPC-shaped failure body: the original tag, no arguments, and
    /// the failure string as the result.
    pub fn to_response(&self) -> (r: Response)
        ensures
            r.tag == self.tag,
            r.arguments is None,
            r.result matches ResponseStatus::Failure(s) && s@ == self.kind.spec_message(),
    {
        Response {
            tag: self.tag,
            arguments: None,
            result: ResponseStatus::Failure(self.kind.message()),
        }
    }
}

/// The method is allowed by the ACL: the allow-list is empty or names it.
pub open spec fn spec_allowed(call: MethodCall, acl: Acl) -> bool {
    acl.allowed_methods@.len() == 0 || acl.allowed_methods@.contains(call.spec_name())
}

/// Allow-list gating, decided exactly as `spec_allowed`.
pub fn method_allowed(call: &MethodCall, acl: &Acl) -> (r: bool)
    ensures
        r == spec_allowed(*call, *acl),
{
    let n = acl.allowed_methods.len();
    if n == 0 {
        return true;
    }
    let name = call.name();
    let mut i: usize = 0;
    while i < n
        invariant
            i <= n,
            n == acl.allowed_methods@.len(),
            name == call.spec_name(),
            forall|j: int| 0 <= j < i ==> acl.allowed_methods@[j] != name,
        decreases n - i,
    {
        if acl.allowed_methods[i] == name {
            return true;
        }
        i += 1;
    }
    proof {
        assert(!acl.allowed_methods@.contains(name));
    }
    false
}

/// The request needs a target-set probe: it is allowed, the ACL forces a
/// download directory, the call carries a selector, and it does not
/// filter on the response instead.
pub open spec fn spec_needs_probe(request: &Request, acl: &Acl) -> bool {
    &&& spec_allowed(request.call, *acl)
    &&& acl.download_dir is Some
    &&& request.call.spec_has_ids()
    &&& !request.call.spec_filters_on_response()
}

pub fn needs_probe(request: &Request, acl: &Acl) -> (r: bool)
    ensures
        r == spec_needs_probe(request, acl),
{
    method_allowed(&request.call, acl) && acl.download_dir.is_some() && request.call.has_ids()
        && !request.call.filters_on_response()
}

/// The probing request: a torrent-get for the same selector asking only
/// for the id and the download directory, with no tag.
pub fn probe_request(request: &Request) -> (r: Request)
    requires
        request.call.spec_has_ids(),
    ensures
        r.tag is None,
        r.call matches MethodCall::TorrentGet { arguments } && spec_opt_ids_like(
            arguments.ids,
            request.call.spec_ids(),
        ) && arguments.fields@.len() == 2 && arguments.fields@[0]@ == "id"@
            && arguments.fields@[1]@ == "downloadDir"@ && arguments.format is Objects
            && arguments.rest@.len() == 0,
{
    let ids = request.call.torrent_ids();
    let mut fields: Vec<String> = Vec::new();
    fields.push(String::from_str("id"));
    fields.push(String::from_str("downloadDir"));
    Request {
        call: MethodCall::TorrentGet {
            arguments: crate::rpc::TorrentGet {
                ids,
                fields,
                format: crate::rpc::TorrentGetFormat::Objects,
                rest: Vec::new(),
            },
        },
        tag: None,
    }
}

/// A probed torrent is kept when its reported directory, stripped of a
/// trailing slash, begins with the forced directory.
pub open spec fn spec_keep_torrent(t: Torrent, d: Seq<char>) -> bool {
    spec_dir_kept(t.download_dir@, d)
}

/// The ids of the probed torrents that pass the directory check, in
/// order.
pub open spec fn spec_survivors(ts: Seq<Torrent>, d: Seq<char>) -> Seq<TorrentId>
    decreases ts.len(),
{
    if ts.len() == 0 {
        Seq::empty()
    } else {
        let rest = spec_survivors(ts.drop_last(), d);
        if spec_keep_torrent(ts.last(), d) {
            rest.push(ts.last().id)
        } else {
            rest
        }
    }
}

/// Resolve a target set: keep the ids of the probed torrents whose
/// download directory passes the prefix check.
pub fn resolve_targets(ts: &Vec<Torrent>, d: &str) -> (r: Vec<TorrentId>)
    ensures
        r@ == spec_survivors(ts@, d@),
{
    let mut out: Vec<TorrentId> = Vec::new();
    let n = ts.len();
    let mut i: usize = 0;
    while i < n
        invariant
            i <= n,
            n == ts@.len(),
            out@ == spec_survivors(ts@.subrange(0, i as int), d@),
        decreases n - i,
    {
        proof {
            assert(ts@.subrange(0, i as int + 1).drop_last() =~= ts@.subrange(0, i as int));
            assert(ts@.subrange(0, i as int + 1).last() == ts@[i as int]);
        }
        if crate::paths::dir_kept(ts[i].download_dir.as_str(), d) {
            out.push(ts[i].id.clone());
        }
        i += 1;
    }
    proof {
        assert(ts@.subrange(0, n as int) =~= ts@);
    }
    out
}

/// What the upstream probe produced, where one was needed.
pub enum ProbeOutcome {
    NotNeeded,
    Torrents(Vec<Torrent>),
    Failed,
}

/// The probe outcome matches the request: present exactly when the
/// request needs one.
pub open spec fn probe_consistent(request: &Request, acl: &Acl, probe: &ProbeOutcome) -> bool {
    if spec_needs_probe(request, acl) {
        !(*probe is NotNeeded)
    } else {
        *probe is NotNeeded
    }
}

/// The forced directory as a character sequence.
pub open spec fn spec_dir(acl: &Acl) -> Seq<char>
    recommends
        acl.download_dir is Some,
{
    acl.download_dir->0@
}

/// Filter one parsed request against the ACL. Allow-list gating runs
/// first; then the target set is expanded through the probe outcome;
/// then the per-method policy checks paths, rewrites tracker lists, and
/// rewrites uploaded metainfo. Every failure carries the request's tag.
pub fn filter_request(request: Request, acl: &Acl, probe: ProbeOutcome) -> (r: Result<
    Request,
    FilterError,
>)
    requires
        acl.wf(),
        probe_consistent(&request, acl, &probe),
    ensures
        r matches Err(e) ==> e.tag == request.tag,
        !spec_allowed(request.call, *acl) ==> (r matches Err(e) && e.kind is Forbidden),
        spec_allowed(request.call, *acl) && spec_needs_probe(&request, acl) && probe is Failed
            ==> (r matches Err(e) && e.kind is UpstreamUnknown),
        r matches Ok(out) ==> out.tag == request.tag && out.call.spec_name()
            == request.call.spec_name(),
        // target-set expansion: what goes upstream names exactly the
        // authorized survivors
        spec_needs_probe(&request, acl) ==> (probe matches ProbeOutcome::Torrents(ts) ==> (r
            matches Ok(out) ==> (out.call.spec_has_ids() ==> (out.call.spec_ids() matches Some(
            TorrentIds::Ids(v),
        ) && v@ == spec_survivors(ts@, spec_dir(acl)))))),
        // without a probe the selector is left as it was
        !spec_needs_probe(&request, acl) ==> (r matches Ok(out) ==> (request.call.spec_has_ids()
            ==> out.call.spec_ids() == request.call.spec_ids())),
        // a probe replaces only the selector: every other part of the
        // arguments is preserved (torrent-set may rewrite trackers too)
        spec_needs_probe(&request, acl) && !(request.call matches MethodCall::TorrentSet {
            ..
        }) ==> (r matches Ok(out) ==> out.call == request.call.spec_with_ids(
            out.call.spec_ids(),
        )),
        // methods with no policy beyond gating and expansion
        (spec_allowed(request.call, *acl) && !(probe is Failed) && match request.call {
            MethodCall::TorrentSet { .. } => false,
            MethodCall::TorrentSetLocation { .. } => false,
            MethodCall::TorrentAdd { .. } => false,
            _ => true,
        }) ==> r is Ok,
        // pass-through: no probe and no rewriting leaves the call as it was
        (spec_allowed(request.call, *acl) && !spec_needs_probe(&request, acl) && match request
            .call {
            MethodCall::TorrentSet { .. } => false,
            MethodCall::TorrentSetLocation { .. } => false,
            MethodCall::TorrentAdd { .. } => false,
            _ => true,
        }) ==> (r matches Ok(out) && out.call == request.call),
        // torrent-set-location: the new location must pass the prefix check
        request.call matches MethodCall::TorrentSetLocation { arguments } ==> (spec_allowed(
            request.call,
            *acl,
        ) && !(probe is Failed) ==> ({
            let dopt = match acl.download_dir {
                Some(d) => Some(d@),
                None => None,
            };
            if !spec_prefix_ok(arguments.location@, dopt) {
                r matches Err(e) && e.kind is Forbidden
            } else {
                r matches Ok(out) && (out.call matches MethodCall::TorrentSetLocation {
                    arguments: a2,
                } && a2.location == arguments.location && a2.move_data == arguments.move_data
                    && a2.rest == arguments.rest)
            }
        })),
        // torrent-set: location check, tracker list rewriting, and the
        // unsupported trackerReplace
        request.call matches MethodCall::TorrentSet { arguments } ==> (spec_allowed(
            request.call,
            *acl,
        ) && !(probe is Failed) ==> ({
            let dopt = match acl.download_dir {
                Some(d) => Some(d@),
                None => None,
            };
            let rules = acl.tracker_rules@;
            if arguments.location matches Some(loc) && !spec_prefix_ok(loc@, dopt) {
                r matches Err(e) && e.kind is Forbidden
            } else if rules.len() > 0 && arguments.tracker_replace@.len() > 0 {
                r matches Err(e) && e.kind matches FilterErrorKind::Unsupported(
                    UnsupportedFeature::TrackerReplace,
                )
            } else {
                r matches Ok(out) && (out.call matches MethodCall::TorrentSet { arguments: a2 }
                    && a2.location == arguments.location && (if rules.len() > 0 {
                    seq_views(a2.tracker_add@) == spec_apply_list(
                        rules,
                        seq_views(arguments.tracker_add@),
                    ) && seq_views(a2.tracker_remove@) == spec_apply_list(
                        rules,
                        seq_views(arguments.tracker_remove@),
                    )
                } else {
                    a2.tracker_add == arguments.tracker_add && a2.tracker_remove
                        == arguments.tracker_remove
                }) && a2.tracker_replace == arguments.tracker_replace && a2.rest == arguments.rest)
            }
        })),
        // torrent-add: path authorization and metainfo rewriting
        request.call matches MethodCall::TorrentAdd { arguments } ==> (spec_allowed(
            request.call,
            *acl,
        ) ==> ({
            let dopt = match acl.download_dir {
                Some(d) => Some(d@),
                None => None,
            };
            let rules = acl.tracker_rules@;
            if !spec_prefix_ok(arguments.download_dir@, dopt) {
                r matches Err(e) && e.kind is Forbidden
            } else if rules.len() == 0 {
                r matches Ok(out) && out.call == request.call
            } else if arguments.metainfo@.len() == 0 {
                r matches Err(e) && e.kind matches FilterErrorKind::Unsupported(
                    UnsupportedFeature::MagnetLinks,
                )
            } else if base64_decoded(arguments.metainfo@) is None {
                r matches Err(e) && e.kind is Base64
            } else {
                let bytes = base64_decoded(arguments.metainfo@)->0;
                if !spec_decodes(bytes) || !(spec_decoded(bytes) is Dict) {
                    r matches Err(e) && e.kind is Torrent
                } else if spec_rewrite_dict(spec_decoded(bytes)->Dict_0, rules) is None {
                    r matches Err(e) && e.kind is Torrent
                } else {
                    let pairs2 = spec_rewrite_dict(spec_decoded(bytes)->Dict_0, rules)->0;
                    r matches Ok(out) && (out.call matches MethodCall::TorrentAdd {
                        arguments: a2,
                    } && a2.metainfo@ == base64_encoded(
                        crate::codec::spec_encode(BValue::Dict(pairs2)),
                    ) && a2.download_dir == arguments.download_dir && a2.cookies
                        == arguments.cookies && a2.filename == arguments.filename && a2.labels
                        == arguments.labels && a2.paused == arguments.paused && a2.rest
                        == arguments.rest)
                }
            }
        })),
{
    let Request { call, tag } = request;
    if !method_allowed(&call, acl) {
        return Err(FilterError { tag, kind: FilterErrorKind::Forbidden });
    }
    let probing = acl.download_dir.is_some() && call.has_ids() && !call.filters_on_response();
    let call = if probing {
        let survivors: Vec<TorrentId> = match probe {
            ProbeOutcome::Torrents(ts) => {
                match &acl.download_dir {
                    Some(d) => resolve_targets(&ts, d.as_str()),
                    None => {
                        // dead arm: a probe happens only under a forced
                        // download directory
                        proof {
                            assert(false);
                        }
                        Vec::new()
                    },
                }
            },
            ProbeOutcome::Failed => {
                return Err(FilterError { tag, kind: FilterErrorKind::UpstreamUnknown });
            },
            ProbeOutcome::NotNeeded => {
                // dead arm: a probe outcome is present exactly when the
                // request needs one
                proof {
                    assert(false);
                }
                Vec::new()
            },
        };
        call.with_ids(Some(TorrentIds::Ids(survivors)))
    } else {
        call
    };
    match call {
        MethodCall::TorrentSetLocation { arguments } => {
            if !prefix_ok(arguments.location.as_str(), &acl.download_dir) {
                return Err(FilterError { tag, kind: FilterErrorKind::Forbidden });
            }
            Ok(Request { call: MethodCall::TorrentSetLocation { arguments }, tag })
        },
        MethodCall::TorrentSet { arguments } => {
            match &arguments.location {
                Some(loc) => {
                    if !prefix_ok(loc.as_str(), &acl.download_dir) {
                        return Err(FilterError { tag, kind: FilterErrorKind::Forbidden });
                    }
                },
                None => {},
            }
            if acl.tracker_rules.len() > 0 {
                if arguments.tracker_replace.len() > 0 {
                    return Err(
                        FilterError {
                            tag,
                            kind: FilterErrorKind::Unsupported(UnsupportedFeature::TrackerReplace),
                        },
                    );
                }
                let tracker_add = crate::tracker::apply_list(
                    &arguments.tracker_add,
                    &acl.tracker_rules,
                );
                let tracker_remove = crate::tracker::apply_list(
                    &arguments.tracker_remove,
                    &acl.tracker_rules,
                );
                Ok(
                    Request {
                        call: MethodCall::TorrentSet {
                            arguments: crate::rpc::TorrentSet {
                                tracker_add,
                                tracker_remove,
                                ..arguments
                            },
                        },
                        tag,
                    },
                )
            } else {
                Ok(Request { call: MethodCall::TorrentSet { arguments }, tag })
            }
        },
        MethodCall::TorrentAdd { arguments } => {
            if !prefix_ok(arguments.download_dir.as_str(), &acl.download_dir) {
                return Err(FilterError { tag, kind: FilterErrorKind::Forbidden });
            }
            if acl.tracker_rules.len() == 0 {
                return Ok(Request { call: MethodCall::TorrentAdd { arguments }, tag });
            }
            if arguments.metainfo.as_str().unicode_len() == 0 {
                return Err(
                    FilterError {
                        tag,
                        kind: FilterErrorKind::Unsupported(UnsupportedFeature::MagnetLinks),
                    },
                );
            }
            let bytes = match base64_decode(arguments.metainfo.as_str()) {
                Some(b) => b,
                None => {
                    return Err(FilterError { tag, kind: FilterErrorKind::Base64 });
                },
            };
            let meta = match decode_metainfo(&bytes) {
                Ok(m) => m,
                Err(e) => {
                    return Err(FilterError { tag, kind: FilterErrorKind::Torrent(e) });
                },
            };
            let rewritten = match rewrite_trackers(meta, &acl.tracker_rules) {
                Ok(m) => m,
                Err(e) => {
                    return Err(FilterError { tag, kind: FilterErrorKind::Torrent(e) });
                },
            };
            let encoded = encode_metainfo(rewritten);
            let metainfo = base64_encode(&encoded);
            Ok(
                Request {
                    call: MethodCall::TorrentAdd {
                        arguments: crate::rpc::TorrentAdd { metainfo, ..arguments },
                    },
                    tag,
                },
            )
        },
        _ => Ok(Request { call, tag }),
    }
}


/// Validate the ACL's tracker patterns, then filter the request.
/// `None` refuses outright under an ACL whose patterns do not compile;
/// a well-formed ACL gets exactly the filtered request: the `Some`
/// branch carries every guarantee of `filter_request`.
pub fn checked_filter_request(request: Request, acl: &Acl, probe: ProbeOutcome) -> (r: Option<
    Result<Request, FilterError>,
>)
    requires
        probe_consistent(&request, acl, &probe),
    ensures
        r is Some <==> acl.wf(),
        r matches Some(inner) ==> (inner matches Err(e) ==> e.tag == request.tag),
        r matches Some(inner) ==> (!spec_allowed(request.call, *acl) ==> (inner matches Err(e)
            && e.kind is Forbidden)),
        r matches Some(inner) ==> (spec_allowed(request.call, *acl) && spec_needs_probe(
            &request,
            acl,
        ) && probe is Failed ==> (inner matches Err(e) && e.kind is UpstreamUnknown)),
        r matches Some(inner) ==> (inner matches Ok(out) ==> out.tag == request.tag
            && out.call.spec_name() == request.call.spec_name()),
        // target-set expansion: what goes upstream names exactly the
        // authorized survivors
        spec_needs_probe(&request, acl) ==> (probe matches ProbeOutcome::Torrents(ts) ==> (r
            matches Some(inner) ==> (inner matches Ok(out) ==> (out.call.spec_has_ids() ==> (
        out.call.spec_ids() matches Some(TorrentIds::Ids(v)) && v@ == spec_survivors(
            ts@,
            spec_dir(acl),
        )))))),
        // without a probe the selector is left as it was
        !spec_needs_probe(&request, acl) ==> (r matches Some(inner) ==> (inner matches Ok(out)
            ==> (request.call.spec_has_ids() ==> out.call.spec_ids()
            == request.call.spec_ids()))),
        // a probe replaces only the selector: every other part of the
        // arguments is preserved (torrent-set may rewrite trackers too)
        spec_needs_probe(&request, acl) && !(request.call matches MethodCall::TorrentSet {
            ..
        }) ==> (r matches Some(inner) ==> (inner matches Ok(out) ==> out.call
            == request.call.spec_with_ids(out.call.spec_ids()))),
        // methods with no policy beyond gating and expansion succeed
        (spec_allowed(request.call, *acl) && !(probe is Failed) && match request.call {
            MethodCall::TorrentSet { .. } => false,
            MethodCall::TorrentSetLocation { .. } => false,
            MethodCall::TorrentAdd { .. } => false,
            _ => true,
        }) ==> (r matches Some(inner) ==> inner is Ok),
        // pass-through: no probe and no rewriting leaves the call as it was
        (spec_allowed(request.call, *acl) && !spec_needs_probe(&request, acl) && match request
            .call {
            MethodCall::TorrentSet { .. } => false,
            MethodCall::TorrentSetLocation { .. } => false,
            MethodCall::TorrentAdd { .. } => false,
            _ => true,
        }) ==> (r matches Some(inner) ==> (inner matches Ok(out) && out.call == request.call)),
        // torrent-set-location: the new location must pass the prefix check
        request.call matches MethodCall::TorrentSetLocation { arguments } ==> (spec_allowed(
            request.call,
            *acl,
        ) && !(probe is Failed) ==> (r matches Some(inner) ==> ({
            let dopt = match acl.download_dir {
                Some(d) => Some(d@),
                None => None,
            };
            if !spec_prefix_ok(arguments.location@, dopt) {
                inner matches Err(e) && e.kind is Forbidden
            } else {
                inner matches Ok(out) && (out.call matches MethodCall::TorrentSetLocation {
                    arguments: a2,
                } && a2.location == arguments.location && a2.move_data == arguments.move_data
                    && a2.rest == arguments.rest)
            }
        }))),
        // torrent-set: location check, tracker list rewriting, and the
        // unsupported trackerReplace
        request.call matches MethodCall::TorrentSet { arguments } ==> (spec_allowed(
            request.call,
            *acl,
        ) && !(probe is Failed) ==> (r matches Some(inner) ==> ({
            let dopt = match acl.download_dir {
                Some(d) => Some(d@),
                None => None,
            };
            let rules = acl.tracker_rules@;
            if arguments.location matches Some(loc) && !spec_prefix_ok(loc@, dopt) {
                inner matches Err(e) && e.kind is Forbidden
            } else if rules.len() > 0 && arguments.tracker_replace@.len() > 0 {
                inner matches Err(e) && e.kind matches FilterErrorKind::Unsupported(
                    UnsupportedFeature::TrackerReplace,
                )
            } else {
                inner matches Ok(out) && (out.call matches MethodCall::TorrentSet {
                    arguments: a2,
                } && a2.location == arguments.location && (if rules.len() > 0 {
                    seq_views(a2.tracker_add@) == spec_apply_list(
                        rules,
                        seq_views(arguments.tracker_add@),
                    ) && seq_views(a2.tracker_remove@) == spec_apply_list(
                        rules,
                        seq_views(arguments.tracker_remove@),
                    )
                } else {
                    a2.tracker_add == arguments.tracker_add && a2.tracker_remove
                        == arguments.tracker_remove
                }) && a2.tracker_replace == arguments.tracker_replace && a2.rest == arguments.rest)
            }
        }))),
        // torrent-add: path authorization and metainfo rewriting
        request.call matches MethodCall::TorrentAdd { arguments } ==> (spec_allowed(
            request.call,
            *acl,
        ) ==> (r matches Some(inner) ==> ({
            let dopt = match acl.download_dir {
                Some(d) => Some(d@),
                None => None,
            };
            let rules = acl.tracker_rules@;
            if !spec_prefix_ok(arguments.download_dir@, dopt) {
                inner matches Err(e) && e.kind is Forbidden
            } else if rules.len() == 0 {
                inner matches Ok(out) && out.call == request.call
            } else if arguments.metainfo@.len() == 0 {
                inner matches Err(e) && e.kind matches FilterErrorKind::Unsupported(
                    UnsupportedFeature::MagnetLinks,
                )
            } else if base64_decoded(arguments.metainfo@) is None {
                inner matches Err(e) && e.kind is Base64
            } else {
                let bytes = base64_decoded(arguments.metainfo@)->0;
                if !spec_decodes(bytes) || !(spec_decoded(bytes) is Dict) {
                    inner matches Err(e) && e.kind is Torrent
                } else if spec_rewrite_dict(spec_decoded(bytes)->Dict_0, rules) is None {
                    inner matches Err(e) && e.kind is Torrent
                } else {
                    let pairs2 = spec_rewrite_dict(spec_decoded(bytes)->Dict_0, rules)->0;
                    inner matches Ok(out) && (out.call matches MethodCall::TorrentAdd {
                        arguments: a2,
                    } && a2.metainfo@ == base64_encoded(
                        crate::codec::spec_encode(BValue::Dict(pairs2)),
                    ) && a2.download_dir == arguments.download_dir && a2.cookies
                        == arguments.cookies && a2.filename == arguments.filename && a2.labels
                        == arguments.labels && a2.paused == arguments.paused && a2.rest
                        == arguments.rest)
                }
            }
        }))),
{
    if crate::tracker::rules_valid(&acl.tracker_rules) {
        Some(filter_request(request, acl, probe))
    } else {
        None
    }
}

/// How the response to a request must be read before filtering.
#[derive(Clone, Copy, PartialEq, Eq, Structural)]
pub enum ResponseParse {
    AsTorrents,
    AsSession,
    Keep,
}

/// The read the response filter needs: torrent-get and session-get
/// responses are interpreted when the ACL forces a download directory;
/// everything else passes through raw.
pub open spec fn spec_parse_mode(request: &Request, acl: &Acl) -> ResponseParse {
    if acl.download_dir is Some && request.call is TorrentGet {
        ResponseParse::AsTorrents
    } else if acl.download_dir is Some && request.call is SessionGet {
        ResponseParse::AsSession
    } else {
        ResponseParse::Keep
    }
}

pub fn response_parse_mode(request: &Request, acl: &Acl) -> (r: ResponseParse)
    ensures
        r == spec_parse_mode(request, acl),
{
    if acl.download_dir.is_some() {
        match &request.call {
            MethodCall::TorrentGet { .. } => ResponseParse::AsTorrents,
            MethodCall::SessionGet { .. } => ResponseParse::AsSession,
            _ => ResponseParse::Keep,
        }
    } else {
        ResponseParse::Keep
    }
}

/// The interpreted arguments handed to the response filter.
pub enum ParsedArguments {
    NotParsed,
    Torrents(Torrents),
    Session(SessionArguments),
    Failed,
}

/// The interpretation matches what the filter needs: raw responses are
/// not interpreted; an interpreted response either parsed to the
/// expected shape or failed.
pub open spec fn parsed_consistent(
    request: &Request,
    acl: &Acl,
    response: &RawResponse,
    parsed: &ParsedArguments,
) -> bool {
    match spec_parse_mode(request, acl) {
        ResponseParse::Keep => *parsed is NotParsed,
        ResponseParse::AsTorrents => if response.arguments is Some {
            *parsed is Torrents || *parsed is Failed
        } else {
            *parsed is NotParsed
        },
        ResponseParse::AsSession => if response.arguments is Some {
            *parsed is Session || *parsed is Failed
        } else {
            *parsed is NotParsed
        },
    }
}

/// The torrents whose reported directory, stripped of a trailing slash,
/// begins with the forced directory, in order.
pub open spec fn spec_kept_torrents(ts: Seq<Torrent>, d: Seq<char>) -> Seq<Torrent>
    decreases ts.len(),
{
    if ts.len() == 0 {
        Seq::empty()
    } else {
        let rest = spec_kept_torrents(ts.drop_last(), d);
        if spec_keep_torrent(ts.last(), d) {
            rest.push(ts.last())
        } else {
            rest
        }
    }
}

/// Every torrent the filter keeps passes the directory check.
pub proof fn lemma_kept_torrents_dir(ts: Seq<Torrent>, d: Seq<char>)
    ensures
        forall|i: int|
            0 <= i < spec_kept_torrents(ts, d).len() ==> spec_dir_kept(
                (#[trigger] spec_kept_torrents(ts, d)[i]).download_dir@,
                d,
            ),
    decreases ts.len(),
{
    if ts.len() > 0 {
        lemma_kept_torrents_dir(ts.drop_last(), d);
    }
}

/// Filter one response against the ACL. A torrent-get response keeps
/// only the torrents whose directory passes the check; a session-get
/// response reports the forced directory; everything else passes
/// through raw. The response's tag is always the request's tag.
pub fn filter_response(
    request: &Request,
    response: RawResponse,
    acl: &Acl,
    parsed: ParsedArguments,
) -> (r: Result<Response, FilterError>)
    requires
        parsed_consistent(request, acl, &response, &parsed),
    ensures
        r matches Err(e) ==> e.tag == request.tag && e.kind is Serde,
        parsed is Failed <==> r is Err,
        r matches Ok(out) ==> out.tag == request.tag && out.result == response.result,
        parsed matches ParsedArguments::Torrents(t) ==> (r matches Ok(out) && (out.arguments
            matches Some(ResponseKind::Torrents(t2)) && t2.torrents@ == spec_kept_torrents(
            t.torrents@,
            spec_dir(acl),
        ) && t2.extra == t.extra)),
        parsed matches ParsedArguments::Session(sa) ==> (r matches Ok(out) && (out.arguments
            matches Some(ResponseKind::Session(sa2)) && sa2.download_dir@ == spec_dir(acl)
            && sa2.rest == sa.rest)),
        parsed is NotParsed ==> (r matches Ok(out) && match response.arguments {
            None => out.arguments is None,
            Some(v) => out.arguments matches Some(ResponseKind::Other { extra }) && extra == v,
        }),
{
    let tag = request.tag;
    match parsed {
        ParsedArguments::Failed => Err(FilterError { tag, kind: FilterErrorKind::Serde }),
        ParsedArguments::Torrents(t) => {
            let Torrents { torrents, extra } = t;
            let kept = match &acl.download_dir {
                Some(d) => keep_torrents(torrents, d.as_str()),
                None => {
                    // dead arm: torrents are interpreted only under a
                    // forced download directory
                    proof {
                        assert(false);
                    }
                    torrents
                },
            };
            Ok(
                Response {
                    tag,
                    arguments: Some(
                        ResponseKind::Torrents(Torrents { torrents: kept, extra }),
                    ),
                    result: response.result,
                },
            )
        },
        ParsedArguments::Session(sa) => {
            let SessionArguments { download_dir: _, rest } = sa;
            let forced = match &acl.download_dir {
                Some(d) => d.clone(),
                None => {
                    // dead arm: session settings are interpreted only
                    // under a forced download directory
                    proof {
                        assert(false);
                    }
                    String::new()
                },
            };
            Ok(
                Response {
                    tag,
                    arguments: Some(
                        ResponseKind::Session(
                            SessionArguments { download_dir: forced, rest },
                        ),
                    ),
                    result: response.result,
                },
            )
        },
        ParsedArguments::NotParsed => {
            let arguments = match response.arguments {
                None => None,
                Some(v) => Some(ResponseKind::Other { extra: v }),
            };
            Ok(Response { tag, arguments, result: response.result })
        },
    }
}

/// Keep the torrents whose directory passes the check, in order.
fn keep_torrents(ts: Vec<Torrent>, d: &str) -> (r: Vec<Torrent>)
    ensures
        r@ == spec_kept_torrents(ts@, d@),
{
    let ghost orig = ts@;
    let mut out: Vec<Torrent> = Vec::new();
    let mut src = ts;
    proof {
        assert(orig.subrange(0, 0) =~= Seq::<Torrent>::empty());
        assert(orig.subrange(0, orig.len() as int) =~= orig);
    }
    while src.len() > 0
        invariant
            src@.len() <= orig.len(),
            src@ =~= orig.subrange(orig.len() - src@.len(), orig.len() as int),
            out@ == spec_kept_torrents(orig.subrange(0, orig.len() - src@.len()), d@),
        decreases src@.len(),
    {
        let ghost k = orig.len() - src@.len();
        proof {
            assert(orig.subrange(0, k + 1).drop_last() =~= orig.subrange(0, k));
            assert(orig.subrange(0, k + 1).last() == orig[k]);
        }
        let t = src.remove(0);
        proof {
            assert(src@ =~= orig.subrange(k + 1, orig.len() as int));
            assert(t == orig[k]);
        }
        if crate::paths::dir_kept(t.download_dir.as_str(), d) {
            out.push(t);
        }
    }
    out
}

} // verus!
