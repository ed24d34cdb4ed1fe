//! Forwarding to the upstream: how an inbound request is retargeted, how the
//! upstream's answer is sanitised, and how the one rewritten route's body is
//! rewritten.

use vstd::prelude::*;
use vstd::utf8::*;

use crate::body::{decode_response_body, encode_body_bytes, decoded, encoded, gunzip, is_gzip, is_gzip_encoded};
use crate::decimal::{decimal_bytes, decimal_digits};
use crate::error::ErrorStatus;
use crate::headers::{
    first_value, has_header, header_value, remove_header, set_header, without, Header, CONTENT_ENCODING,
    CONTENT_LENGTH, HOST, TRANSFER_ENCODING,
};
use crate::routing::{
    lemma_query_start_is_first_mark, lemma_trim_leading_is_suffix, lemma_trim_trailing_is_prefix, normalize_target,
    normalized, path_of, query_start, route_for, route_of, trim_leading_slashes, trim_trailing_slashes,
    needs_normalizing, Route,
};

verus! {

broadcast use {encode_utf8_valid_utf8, encode_utf8_decode_utf8};

/// The upstream's authority; every forwarded request goes there.
pub const UPSTREAM_AUTHORITY: &'static str = "storeapi.kobo.com";

/// The scheme of every forwarded request.
pub const UPSTREAM_SCHEME: &'static str = "https";

/// The upstream's public base URL, as it appears in response bodies.
pub const UPSTREAM_URL: &'static str = "https://storeapi.kobo.com";

/// An inbound request, as the proxy receives it.
pub struct ProxyRequest<B> {
    pub method: String,
    /// The path and query of the request URI, where it has one.
    pub target: Option<String>,
    pub headers: Vec<Header>,
    pub body: B,
}

/// A request retargeted at the upstream.
pub struct ForwardRequest<B> {
    pub method: String,
    pub scheme: String,
    pub authority: String,
    pub path_and_query: String,
    pub headers: Vec<Header>,
    pub body: B,
}

/// A response, from the upstream or to the caller.
pub struct ProxyResponse<B> {
    pub status: u16,
    pub headers: Vec<Header>,
    pub body: B,
}

/// What `http`'s `PathAndQuery` keeps of `s` (its `as_str`) when it parses
/// it, or `None` where it rejects it.
pub uninterp spec fn parsed_path_and_query(s: Seq<char>) -> Option<Seq<char>>;

/// Whether `t` holds no `#`, the start of a fragment.
pub open spec fn has_no_fragment(t: Seq<char>) -> bool {
    forall|j: int| 0 <= j < t.len() ==> t[j] != '#'
}

/// A character that `http` takes in a path as it is: an ASCII letter or
/// digit, or one of `/ - . _ ~`.
pub open spec fn is_plain_path_char(c: char) -> bool {
    ('a' <= c && c <= 'z') || ('A' <= c && c <= 'Z') || ('0' <= c && c <= '9') || c == '/' || c == '-' || c == '.'
        || c == '_' || c == '~'
}

/// A path that `http` accepts as it is: it starts with `/`, is at most
/// 65534 characters long, and holds only plain path characters.
pub open spec fn is_plain_path(s: Seq<char>) -> bool {
    &&& 0 < s.len() <= 65534
    &&& s[0] == '/'
    &&& forall|j: int| 0 <= j < s.len() ==> is_plain_path_char(#[trigger] s[j])
}

/// Relies on `http::uri::PathAndQuery`'s `FromStr` and `as_str`: it rejects
/// empty input; it accepts input of at most 65534 bytes that starts with `/`
/// and holds only bytes of its path class; and where the input holds no `#`
/// and is accepted, it keeps the input as it is.
#[verifier::external_body]
fn parse_path_and_query(s: &str) -> (r: Option<String>)
    ensures
        match r {
            Some(t) => parsed_path_and_query(s@) == Some(t@),
            None => parsed_path_and_query(s@) is None,
        },
        s@.len() == 0 ==> r is None,
        has_no_fragment(s@) ==> (r matches Some(t) ==> t@ == s@),
        is_plain_path(s@) ==> r is Some,
{
    s.parse::<hyper::http::uri::PathAndQuery>().ok().map(|p| p.as_str().to_owned())
}

/// Whether `f` is the request with the given method, headers and body,
/// retargeted at the upstream with the given path and query.
pub open spec fn retargeted<B>(
    f: ForwardRequest<B>,
    method: Seq<char>,
    headers: Seq<Header>,
    body: B,
    path_and_query: Seq<char>,
) -> bool {
    &&& f.method@ == method
    &&& f.scheme@ == UPSTREAM_SCHEME@
    &&& f.authority@ == UPSTREAM_AUTHORITY@
    &&& f.path_and_query@ == path_and_query
    &&& f.headers@.drop_last() == without(headers, HOST@)
    &&& f.headers@.last().name@ == HOST@
    &&& first_value(f.headers@, HOST@) == Some(encode_utf8(UPSTREAM_AUTHORITY@))
    &&& f.body == body
}

/// Retargets a request at the upstream: same method, headers and body, the
/// upstream's scheme and authority, and a `host` field naming the upstream
/// in place of any the request had. A request without a path and query, or
/// whose path and query `http` rejects, is a bad request.
pub fn forward_request<B>(request: ProxyRequest<B>) -> (r: Result<ForwardRequest<B>, ErrorStatus>)
    ensures
        match request.target {
            None => r matches Err(e) && e == ErrorStatus::BadRequest,
            Some(t) => match parsed_path_and_query(t@) {
                None => r matches Err(e) && e == ErrorStatus::BadRequest,
                Some(pq) => r matches Ok(f) && retargeted(f, request.method@, request.headers@, request.body, pq),
            },
        },
        request.target matches Some(t) ==> (has_no_fragment(t@) ==> (r matches Ok(f) ==> f.path_and_query@ == t@)),
        request.target matches Some(t) ==> (is_plain_path(t@) ==> r is Ok),
{
    let ProxyRequest { method, target, headers, body } = request;
    let target = match target {
        Some(t) => t,
        None => return Err(ErrorStatus::BadRequest),
    };
    let path_and_query = match parse_path_and_query(target.as_str()) {
        Some(pq) => pq,
        None => return Err(ErrorStatus::BadRequest),
    };
    let mut headers = headers;
    set_header(&mut headers, HOST, UPSTREAM_AUTHORITY.as_bytes());
    Ok(ForwardRequest {
        method,
        scheme: UPSTREAM_SCHEME.to_string(),
        authority: UPSTREAM_AUTHORITY.to_string(),
        path_and_query,
        headers,
        body,
    })
}

/// Each character of a normalised target is a slash or a character of the
/// target; a target whose path starts with `/` does not grow.
proof fn lemma_normalized_chars(t: Seq<char>)
    ensures
        forall|j: int| 0 <= j < normalized(t).len() ==> normalized(t)[j] == '/' || t.contains(#[trigger] normalized(t)[j]),
        path_of(t).len() > 0 && path_of(t)[0] == '/' ==> normalized(t).len() <= t.len(),
{
    let q = query_start(t);
    lemma_query_start_is_first_mark(t);
    let p = t.subrange(0, q);
    let rest = t.subrange(q, t.len() as int);
    let lead = trim_leading_slashes(p);
    lemma_trim_leading_is_suffix(p);
    lemma_trim_trailing_is_prefix(lead);
    let mid = trim_trailing_slashes(lead);
    let n = normalized(t);
    if needs_normalizing(p) {
        assert(n == seq!['/'] + mid + rest);
        assert forall|j: int| 0 <= j < n.len() implies n[j] == '/' || t.contains(#[trigger] n[j]) by {
            if j > 0 && j < n.len() - rest.len() {
                let k = p.len() - lead.len() + (j - 1);
                assert(n[j] == mid[j - 1]);
                assert(mid[j - 1] == lead[j - 1]);
                assert(lead[j - 1] == p[k]);
                assert(t[k] == n[j]);
            } else if j >= n.len() - rest.len() {
                assert(n[j] == t[q + (j - (n.len() - rest.len()))]);
            }
        }
        if p.len() > 0 && p[0] == '/' {
            assert(lead.len() < p.len()) by {
                assert(trim_leading_slashes(p) == trim_leading_slashes(p.drop_first()));
                lemma_trim_leading_is_suffix(p.drop_first());
            }
        }
    } else {
        assert forall|j: int| 0 <= j < n.len() implies n[j] == '/' || t.contains(#[trigger] n[j]) by {
            assert(t[j] == n[j]);
        }
    }
}

/// A target that holds no `#` keeps none once normalised.
proof fn lemma_normalized_has_no_fragment(t: Seq<char>)
    requires
        has_no_fragment(t),
    ensures
        has_no_fragment(normalized(t)),
{
    lemma_normalized_chars(t);
    let n = normalized(t);
    assert forall|j: int| 0 <= j < n.len() implies n[j] != '#' by {
        if n[j] != '/' {
            assert(t.contains(n[j]));
            let i = choose|i: int| 0 <= i < t.len() && t[i] == n[j];
        }
    }
}

/// A plain path stays a plain path once normalised.
proof fn lemma_normalized_plain(t: Seq<char>)
    requires
        is_plain_path(t),
    ensures
        is_plain_path(normalized(t)),
        has_no_fragment(t),
{
    lemma_normalized_chars(t);
    lemma_query_start_is_first_mark(t);
    let q = query_start(t);
    if q == 0 {
        assert(is_plain_path_char(t[0]));
    }
    assert(path_of(t)[0] == t[0]);
    let n = normalized(t);
    assert(n[0] == '/');
    assert forall|j: int| 0 <= j < n.len() implies is_plain_path_char(#[trigger] n[j]) by {
        if n[j] != '/' {
            assert(t.contains(n[j]));
            let i = choose|i: int| 0 <= i < t.len() && t[i] == n[j];
            assert(is_plain_path_char(t[i]));
        }
    }
    assert forall|j: int| 0 <= j < t.len() implies t[j] != '#' by {
        assert(is_plain_path_char(t[j]));
    }
}

/// Routes and retargets an inbound request: its target is normalised, the
/// route is chosen on the normalised target, and the request is forwarded
/// to the upstream with that target. Without a target, or with one that
/// `http` rejects once normalised, it is a bad request.
pub fn dispatch<B>(request: ProxyRequest<B>) -> (r: Result<(Route, ForwardRequest<B>), ErrorStatus>)
    ensures
        match request.target {
            None => r matches Err(e) && e == ErrorStatus::BadRequest,
            Some(t) => match parsed_path_and_query(normalized(t@)) {
                None => r matches Err(e) && e == ErrorStatus::BadRequest,
                Some(pq) => r matches Ok((route, f))
                    && route == route_of(request.method@, normalized(t@))
                    && retargeted(f, request.method@, request.headers@, request.body, pq),
            },
        },
        request.target matches Some(t) ==> (has_no_fragment(t@) ==> (r matches Ok((_, f)) ==> f.path_and_query@ == normalized(t@))),
        request.target matches Some(t) ==> (is_plain_path(t@) ==> (r matches Ok((_, f)) && f.path_and_query@ == normalized(t@))),
{
    let ProxyRequest { method, target, headers, body } = request;
    let target = match target {
        Some(t) => t,
        None => return Err(ErrorStatus::BadRequest),
    };
    let normal = normalize_target(target.as_str());
    let route = route_for(method.as_str(), normal.as_str());
    proof {
        if is_plain_path(target@) {
            lemma_normalized_plain(target@);
        }
        if has_no_fragment(target@) {
            lemma_normalized_has_no_fragment(target@);
        }
    }
    let forwarded = forward_request(ProxyRequest { method, target: Some(normal), headers, body });
    match forwarded {
        Ok(f) => Ok((route, f)),
        Err(e) => Err(e),
    }
}

/// Sanitises the upstream's answer: a transport failure becomes a bad
/// gateway; a response loses every `transfer-encoding` field and keeps its
/// status, its other fields and its body.
pub fn forward_response<B, E>(outcome: Result<ProxyResponse<B>, E>) -> (r: Result<ProxyResponse<B>, ErrorStatus>)
    ensures
        match outcome {
            Err(_) => r matches Err(e) && e == ErrorStatus::BadGateway,
            Ok(resp) => r matches Ok(out)
                && out.status == resp.status
                && out.headers@ == without(resp.headers@, TRANSFER_ENCODING@)
                && out.body == resp.body,
        },
        r matches Ok(out) ==> !has_header(out.headers@, TRANSFER_ENCODING@),
{
    match outcome {
        Ok(resp) => {
            let ProxyResponse { status, headers, body } = resp;
            let mut headers = headers;
            let ghost received = headers@;
            remove_header(&mut headers, TRANSFER_ENCODING);
            proof {
                crate::headers::lemma_without_has_none(received, TRANSFER_ENCODING@);
            }
            Ok(ProxyResponse { status, headers, body })
        },
        Err(_) => Err(ErrorStatus::BadGateway),
    }
}

/// `s` with every occurrence of `pat` replaced by `rep`, left to right and
/// without overlaps, as `str::replace` does. An empty pattern matches
/// nothing.
pub open spec fn replace_all(s: Seq<u8>, pat: Seq<u8>, rep: Seq<u8>) -> Seq<u8>
    decreases s.len(),
{
    if s.len() == 0 || pat.len() == 0 {
        s
    } else if pat.len() <= s.len() && s.subrange(0, pat.len() as int) == pat {
        rep + replace_all(s.subrange(pat.len() as int, s.len() as int), pat, rep)
    } else {
        seq![s[0]] + replace_all(s.drop_first(), pat, rep)
    }
}

/// Whether `pat` occurs in `s` at `i`.
fn occurs_at(s: &[u8], i: usize, pat: &[u8]) -> (r: bool)
    requires
        i <= s@.len(),
    ensures
        r == (pat@.len() <= s@.len() - i && s@.subrange(i as int, i + pat@.len()) == pat@),
{
    let n = s.len();
    if pat.len() > n - i {
        return false;
    }
    let mut j: usize = 0;
    while j < pat.len()
        invariant
            n == s@.len(),
            i <= s@.len(),
            pat@.len() <= s@.len() - i,
            j <= pat@.len(),
            s@.subrange(i as int, i + j) == pat@.subrange(0, j as int),
        decreases pat@.len() - j,
    {
        if s[i + j] != pat[j] {
            assert(s@.subrange(i as int, i + pat@.len())[j as int] != pat@[j as int]);
            return false;
        }
        j = j + 1;
        assert(s@.subrange(i as int, i + j) =~= s@.subrange(i as int, i + j - 1).push(s@[i + j - 1]));
        assert(pat@.subrange(0, j as int) =~= pat@.subrange(0, j - 1).push(pat@[j - 1]));
    }
    assert(pat@.subrange(0, pat@.len() as int) =~= pat@);
    true
}

/// Replaces every occurrence of `pat` in `s` by `rep`.
pub fn replace_bytes(s: &[u8], pat: &[u8], rep: &[u8]) -> (r: Vec<u8>)
    ensures
        r@ == replace_all(s@, pat@, rep@),
{
    let mut out: Vec<u8> = Vec::new();
    let mut i: usize = 0;
    if pat.len() == 0 {
        assert(replace_all(s@, pat@, rep@) == s@);
    }
    assert(s@.subrange(0, s@.len() as int) =~= s@);
    while i < s.len()
        invariant
            i <= s@.len(),
            pat@.len() == 0 ==> out@ == s@.subrange(0, i as int) && replace_all(s@, pat@, rep@) == s@,
            replace_all(s@, pat@, rep@) == out@ + replace_all(s@.subrange(i as int, s@.len() as int), pat@, rep@),
        decreases s@.len() - i,
    {
        let ghost rest = s@.subrange(i as int, s@.len() as int);
        if pat.len() > 0 && occurs_at(s, i, pat) {
            assert(rest.subrange(0, pat@.len() as int) =~= s@.subrange(i as int, i + pat@.len()));
            assert(rest.subrange(pat@.len() as int, rest.len() as int) =~= s@.subrange(i + pat@.len(), s@.len() as int));
            assert(replace_all(rest, pat@, rep@) == rep@ + replace_all(s@.subrange(i + pat@.len(), s@.len() as int), pat@, rep@));
            let mut j: usize = 0;
            let ghost before = out@;
            while j < rep.len()
                invariant
                    j <= rep@.len(),
                    out@ == before + rep@.subrange(0, j as int),
                decreases rep@.len() - j,
            {
                out.push(rep[j]);
                j = j + 1;
                assert(out@ =~= before + rep@.subrange(0, j as int));
            }
            assert(rep@.subrange(0, rep@.len() as int) =~= rep@);
            assert(out@ + replace_all(s@.subrange(i + pat@.len(), s@.len() as int), pat@, rep@) =~= before + (rep@ + replace_all(s@.subrange(i + pat@.len(), s@.len() as int), pat@, rep@)));
            i = i + pat.len();
        } else {
            assert(rest.drop_first() =~= s@.subrange(i + 1, s@.len() as int));
            let ghost before = out@;
            out.push(s[i]);
            proof {
                if pat@.len() == 0 {
                    assert(out@ =~= s@.subrange(0, i + 1));
                    assert(replace_all(s@.subrange(i + 1, s@.len() as int), pat@, rep@) == s@.subrange(i + 1, s@.len() as int));
                    assert(s@ =~= out@ + s@.subrange(i + 1, s@.len() as int));
                } else {
                    if pat@.len() <= rest.len() {
                        assert(rest.subrange(0, pat@.len() as int) =~= s@.subrange(i as int, i + pat@.len()));
                    }
                    assert(replace_all(rest, pat@, rep@) == seq![s@[i as int]] + replace_all(rest.drop_first(), pat@, rep@));
                    assert(out@ + replace_all(s@.subrange(i + 1, s@.len() as int), pat@, rep@) =~= before + (seq![s@[i as int]] + replace_all(s@.subrange(i + 1, s@.len() as int), pat@, rep@)));
                }
            }
            i = i + 1;
        }
    }
    assert(s@.subrange(i as int, s@.len() as int) =~= Seq::<u8>::empty());
    out
}

/// The plain bytes of a rewritten body: its text, with every occurrence of
/// the upstream's base URL replaced by the front door's URL, as UTF-8.
/// `None` where the body does not decode.
pub open spec fn rewritten(body: Seq<u8>, is_gzipped: bool, frontend_url: Seq<char>) -> Option<Seq<u8>> {
    match decoded(body, is_gzipped) {
        Some(t) => Some(replace_all(encode_utf8(t), encode_utf8(UPSTREAM_URL@), encode_utf8(frontend_url))),
        None => None,
    }
}

/// Whether `out` is `hs` with its `content-length`, where it has one, set
/// to `n`.
pub open spec fn length_recomputed(out: Seq<Header>, hs: Seq<Header>, n: nat) -> bool {
    if has_header(hs, CONTENT_LENGTH@) {
        &&& out.drop_last() == without(hs, CONTENT_LENGTH@)
        &&& out.last().name@ == CONTENT_LENGTH@
        &&& first_value(out, CONTENT_LENGTH@) == Some(decimal_bytes(n))
    } else {
        out == hs
    }
}

/// Rewrites the buffered response of the initialization route: its body is
/// decoded, the upstream's base URL is replaced by `frontend_url`, and the
/// result is encoded again with the compression it arrived with. Status and
/// headers are kept, but for a `content-length`, which is set to the new
/// length. A body that could not be read, decoded or encoded is an internal
/// server error.
pub fn rewrite_response<E>(
    buffered: Result<ProxyResponse<Vec<u8>>, E>,
    frontend_url: &str,
) -> (r: Result<ProxyResponse<Vec<u8>>, ErrorStatus>)
    ensures
        match buffered {
            Err(_) => r matches Err(e) && e == ErrorStatus::InternalServerError,
            Ok(resp) => match rewritten(resp.body@, is_gzip(resp.headers@), frontend_url@) {
                None => r matches Err(e) && e == ErrorStatus::InternalServerError,
                Some(t) => match r {
                    Ok(out) => {
                        &&& out.status == resp.status
                        &&& encoded(t, is_gzip(resp.headers@)) == Some(out.body@)
                        &&& is_gzip(resp.headers@) ==> gunzip(out.body@) == Some(t)
                        &&& length_recomputed(out.headers@, resp.headers@, out.body@.len())
                        &&& is_gzip(out.headers@) == is_gzip(resp.headers@)
                    },
                    Err(e) => encoded(t, is_gzip(resp.headers@)) is None && e == ErrorStatus::InternalServerError,
                },
            },
        },
        buffered matches Ok(resp) ==> (!is_gzip(resp.headers@) ==> r is Ok),
{
    let resp = match buffered {
        Ok(resp) => resp,
        Err(_) => return Err(ErrorStatus::InternalServerError),
    };
    let ProxyResponse { status, headers, body } = resp;
    let is_gzipped = is_gzip_encoded(&headers);
    let text = match decode_response_body(body.as_slice(), is_gzipped) {
        Ok(text) => text,
        Err(e) => return Err(e),
    };
    let replaced = replace_bytes(text.as_str().as_bytes(), UPSTREAM_URL.as_bytes(), frontend_url.as_bytes());
    let new_body = match encode_body_bytes(replaced.as_slice(), is_gzipped) {
        Ok(b) => b,
        Err(e) => return Err(e),
    };
    let mut out_headers = headers;
    if header_value(&out_headers, CONTENT_LENGTH).is_some() {
        let digits = decimal_digits(new_body.len() as u64);
        set_header(&mut out_headers, CONTENT_LENGTH, digits.as_slice());
        proof {
            lemma_content_length_is_not_encoding();
            crate::headers::lemma_without_keeps_others(headers@, CONTENT_LENGTH@, CONTENT_ENCODING@);
            assert(out_headers@.drop_last().push(out_headers@.last()) =~= out_headers@);
        }
    }
    Ok(ProxyResponse { status, headers: out_headers, body: new_body })
}

proof fn lemma_content_length_is_not_encoding()
    ensures
        CONTENT_LENGTH@ != CONTENT_ENCODING@,
{
    reveal_strlit("content-length");
    reveal_strlit("content-encoding");
    assert(CONTENT_LENGTH@[8] != CONTENT_ENCODING@[8]);
}

} // verus!
