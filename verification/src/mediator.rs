//! The mediator's own decisions around a call: the access gate that
//! sends denied users to the login page, the proxy's route paths, and
//! the upstream URL rewrite.

use vstd::prelude::*;
use vstd::string::{StrSliceExecFns, StringExecFns};

use crate::acl::Acl;

verus! {

/// A byte percent encoding keeps verbatim: ASCII alphanumerics and
/// `-`, `.`, `_`, `~`.
pub open spec fn spec_unreserved(b: u8) -> bool {
    ||| 48 <= b <= 57
    ||| 65 <= b <= 90
    ||| 97 <= b <= 122
    ||| b == 45
    ||| b == 46
    ||| b == 95
    ||| b == 126
}

/// The uppercase hexadecimal digit of a nibble.
pub open spec fn spec_hex_digit(n: u8) -> char
    recommends
        n < 16,
{
    if n < 10 {
        (n + 48) as char
    } else {
        (n + 55) as char
    }
}

/// The percent encoding of one byte: kept verbatim when unreserved,
/// else a percent sign and two uppercase hex digits.
pub open spec fn spec_encode_byte(b: u8) -> Seq<char> {
    if spec_unreserved(b) {
        seq![b as char]
    } else {
        seq!['%', spec_hex_digit(b / 16), spec_hex_digit(b % 16)]
    }
}

/// The percent encoding of a byte sequence, byte by byte.
pub open spec fn spec_percent_encode_bytes(bs: Seq<u8>) -> Seq<char>
    decreases bs.len(),
{
    if bs.len() == 0 {
        Seq::empty()
    } else {
        spec_encode_byte(bs[0]) + spec_percent_encode_bytes(bs.drop_first())
    }
}

/// The percent encoding of a string: each of its UTF-8 bytes kept or
/// escaped.
pub open spec fn percent_encoded(s: Seq<char>) -> Seq<char> {
    spec_percent_encode_bytes(vstd::utf8::encode_utf8(s))
}

/// Relies on urlencoding::encode: every UTF-8 byte of the input except
/// the unreserved ones becomes a percent sign and two uppercase hex
/// digits, in input order.
#[verifier::external_body]
fn urlencode(s: &str) -> (r: String)
    ensures
        r@ == percent_encoded(s@),
{
    urlencoding::encode(s).into_owned()
}

/// The query parameter a login redirect carries.
pub struct AuthRedirect {
    pub redirect_to: Option<String>,
}

/// `s` with every trailing slash removed.
pub open spec fn spec_trim_slashes(s: Seq<char>) -> Seq<char>
    decreases s.len(),
{
    if s.len() > 0 && s.last() == '/' {
        spec_trim_slashes(s.drop_last())
    } else {
        s
    }
}

/// `s` with every trailing slash removed.
pub fn trim_trailing_slashes(s: &str) -> (r: &str)
    ensures
        r@ == spec_trim_slashes(s@),
{
    let mut n = s.unicode_len();
    proof {
        assert(s@.subrange(0, s@.len() as int) =~= s@);
    }
    while n > 0 && s.get_char(n - 1) == '/'
        invariant
            n <= s@.len(),
            spec_trim_slashes(s@.subrange(0, n as int)) == spec_trim_slashes(s@),
        decreases n,
    {
        proof {
            assert(s@.subrange(0, n as int).drop_last() =~= s@.subrange(0, n as int - 1));
        }
        n -= 1;
    }
    let r = s.substring_char(0, n);
    proof {
        assert(s@.subrange(0, s@.len() as int) =~= s@);
        assert(r@ == spec_trim_slashes(s@.subrange(0, n as int)));
    }
    r
}

/// The well-known paths under the proxy's mount point.
pub struct Paths {
    pub login_path: String,
    pub web_path: String,
}

impl Paths {
    /// The login and web paths under the mount point `base`.
    pub fn new(base: &str) -> (r: Paths)
        ensures
            r.login_path@ == spec_trim_slashes(base@) + "/login"@,
            r.web_path@ == spec_trim_slashes(base@) + "/web/"@,
    {
        let trimmed = trim_trailing_slashes(base);
        Paths {
            login_path: trimmed.to_owned().concat("/login"),
            web_path: trimmed.to_owned().concat("/web/"),
        }
    }
}

/// Join a route under a base path: a base already ending in a slash
/// absorbs the route's leading slash.
pub fn route_path(base: &str, path: &str) -> (r: String)
    requires
        path@.len() > 0,
        path@[0] == '/',
    ensures
        base@.len() > 0 && base@.last() == '/' ==> r@ == base@ + path@.skip(1),
        !(base@.len() > 0 && base@.last() == '/') ==> r@ == base@ + path@,
{
    let n = base.unicode_len();
    if n > 0 && base.get_char(n - 1) == '/' {
        let tail = path.substring_char(1, path.unicode_len());
        proof {
            assert(tail@ =~= path@.skip(1));
        }
        base.to_owned().concat(tail)
    } else {
        base.to_owned().concat(path)
    }
}

/// The upstream target of a request: the upstream origin with the
/// request's own path and query.
pub fn upstream_url(origin: &str, path_and_query: &str) -> (r: String)
    ensures
        r@ == origin@ + path_and_query@,
{
    origin.to_owned().concat(path_and_query)
}

/// The path reaches the RPC endpoint: it ends in `/rpc`.
pub open spec fn spec_is_rpc_path(p: Seq<char>) -> bool {
    p.len() >= 4 && p[p.len() - 4] == '/' && p[p.len() - 3] == 'r' && p[p.len() - 2] == 'p' && p[
        p.len() - 1
    ] == 'c'
}

pub fn is_rpc_path(p: &str) -> (r: bool)
    ensures
        r == spec_is_rpc_path(p@),
{
    let n = p.unicode_len();
    n >= 4 && p.get_char(n - 4) == '/' && p.get_char(n - 3) == 'r' && p.get_char(n - 2) == 'p'
        && p.get_char(n - 1) == 'c'
}

/// The access decision taken on a request ahead of RPC mediation.
pub enum GateDecision {
    /// Forward the request, filtered by the matched rule if any.
    Proceed,
    /// Send the anonymous user to the login page, with a return address.
    RedirectToLogin(String),
    /// Refuse the authenticated but denied user.
    Unauthorized,
}

/// The access gate: a denying rule turns anonymous users toward the
/// login page, carrying the original URI percent-encoded in the
/// `redirect_to` query, and refuses authenticated users; any other
/// outcome proceeds (no rule at all proceeds unfiltered).
pub fn gate(acl: Option<&Acl>, user_is_anonymous: bool, login_path: &str, original_uri: &str) -> (r:
    GateDecision)
    ensures
        match acl {
            None => r is Proceed,
            Some(a) => if !a.deny {
                r is Proceed
            } else if user_is_anonymous {
                r matches GateDecision::RedirectToLogin(loc) && loc@ == login_path@
                    + "?redirect_to="@ + percent_encoded(original_uri@)
            } else {
                r is Unauthorized
            },
        },
{
    match acl {
        None => GateDecision::Proceed,
        Some(a) => {
            if !a.deny {
                GateDecision::Proceed
            } else if user_is_anonymous {
                let encoded = urlencode(original_uri);
                let loc = login_path.to_owned().concat("?redirect_to=").concat(encoded.as_str());
                GateDecision::RedirectToLogin(loc)
            } else {
                GateDecision::Unauthorized
            }
        },
    }
}

} // verus!
