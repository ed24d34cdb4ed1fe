//! Request targets: how they are normalised before dispatch, and which
//! handler a request goes to.

use vstd::prelude::*;
use vstd::string::*;

use crate::headers::str_eq;

verus! {

/// The one route whose response body is rewritten.
pub const INITIALIZATION_PATH: &'static str = "/v1/initialization";

/// The method that the rewritten route answers.
pub const GET: &'static str = "GET";

/// Where the query of a target starts: its first `?`, or its end.
pub open spec fn query_start(t: Seq<char>) -> int
    decreases t.len(),
{
    if t.len() == 0 {
        0
    } else if query_start(t.drop_last()) < t.len() - 1 {
        query_start(t.drop_last())
    } else if t.last() == '?' {
        t.len() - 1
    } else {
        t.len() as int
    }
}

/// The path of a target: what precedes its query.
pub open spec fn path_of(t: Seq<char>) -> Seq<char> {
    t.subrange(0, query_start(t))
}

/// The query of a target, with its leading `?`, or nothing.
pub open spec fn query_of(t: Seq<char>) -> Seq<char> {
    t.subrange(query_start(t), t.len() as int)
}

/// `p` without its leading slashes.
pub open spec fn trim_leading_slashes(p: Seq<char>) -> Seq<char>
    decreases p.len(),
{
    if p.len() > 0 && p[0] == '/' {
        trim_leading_slashes(p.drop_first())
    } else {
        p
    }
}

/// `p` without its trailing slashes.
pub open spec fn trim_trailing_slashes(p: Seq<char>) -> Seq<char>
    decreases p.len(),
{
    if p.len() > 0 && p.last() == '/' {
        trim_trailing_slashes(p.drop_last())
    } else {
        p
    }
}

/// Whether a path needs normalising: it starts with two slashes or ends
/// with one.
pub open spec fn needs_normalizing(p: Seq<char>) -> bool {
    (p.len() >= 2 && p[0] == '/' && p[1] == '/') || (p.len() > 0 && p.last() == '/')
}

/// The normalised target: where the path starts with `//` or ends with `/`,
/// it becomes one slash followed by the path without leading and trailing
/// slashes; the query is kept as it is.
pub open spec fn normalized(t: Seq<char>) -> Seq<char> {
    let p = path_of(t);
    if needs_normalizing(p) {
        seq!['/'] + trim_trailing_slashes(trim_leading_slashes(p)) + query_of(t)
    } else {
        t
    }
}

/// Which handler serves a request.
#[derive(Clone, Copy, Debug, PartialEq, Eq, Structural)]
pub enum Route {
    /// Forwarded, and its response body rewritten.
    Initialization,
    /// Forwarded as it is.
    Forward,
}

/// The route of a request with the given method and normalised target.
pub open spec fn route_of(method: Seq<char>, t: Seq<char>) -> Route {
    if method == GET@ && path_of(t) == INITIALIZATION_PATH@ {
        Route::Initialization
    } else {
        Route::Forward
    }
}

/// The query of a target starts inside it.
pub proof fn lemma_query_start_in_range(t: Seq<char>)
    ensures
        0 <= query_start(t) <= t.len(),
    decreases t.len(),
{
    if t.len() > 0 {
        lemma_query_start_in_range(t.drop_last());
    }
}

/// Where the query starts is a `?`, and no `?` comes before it.
pub proof fn lemma_query_start_is_first_mark(t: Seq<char>)
    ensures
        0 <= query_start(t) <= t.len(),
        query_start(t) < t.len() ==> t[query_start(t)] == '?',
    decreases t.len(),
{
    if t.len() > 0 {
        lemma_query_start_is_first_mark(t.drop_last());
    }
}

/// Trimming leading slashes leaves a suffix.
pub proof fn lemma_trim_leading_is_suffix(p: Seq<char>)
    ensures
        trim_leading_slashes(p).len() <= p.len(),
        trim_leading_slashes(p) == p.subrange(p.len() - trim_leading_slashes(p).len(), p.len() as int),
    decreases p.len(),
{
    if p.len() > 0 && p[0] == '/' {
        lemma_trim_leading_is_suffix(p.drop_first());
        let l = trim_leading_slashes(p).len();
        assert(p.drop_first().subrange(p.len() - 1 - l, p.len() - 1) =~= p.subrange(p.len() - l, p.len() as int));
    } else {
        assert(p.subrange(0, p.len() as int) =~= p);
    }
}

/// Trimming trailing slashes leaves a prefix.
pub proof fn lemma_trim_trailing_is_prefix(p: Seq<char>)
    ensures
        trim_trailing_slashes(p).len() <= p.len(),
        trim_trailing_slashes(p) == p.subrange(0, trim_trailing_slashes(p).len() as int),
    decreases p.len(),
{
    if p.len() > 0 && p.last() == '/' {
        lemma_trim_trailing_is_prefix(p.drop_last());
        let l = trim_trailing_slashes(p).len();
        assert(p.drop_last().subrange(0, l as int) =~= p.subrange(0, l as int));
    } else {
        assert(p.subrange(0, p.len() as int) =~= p);
    }
}

/// For a target whose path starts with `/`, normalising gives one slash,
/// then the path with all leading and trailing slashes trimmed, then the
/// query unchanged: `///some/path///?q` becomes `/some/path?q`.
pub proof fn lemma_normalized_collapses_slashes(t: Seq<char>)
    requires
        path_of(t).len() > 0,
        path_of(t)[0] == '/',
    ensures
        normalized(t) == seq!['/'] + trim_trailing_slashes(trim_leading_slashes(path_of(t))) + query_of(t),
{
    let p = path_of(t);
    lemma_query_start_is_first_mark(t);
    if !needs_normalizing(p) {
        let rest = p.drop_first();
        assert(p.len() >= 2);
        assert(rest[0] == p[1]);
        assert(trim_leading_slashes(rest) == rest);
        assert(trim_leading_slashes(p) == rest);
        assert(rest.last() == p.last());
        assert(trim_trailing_slashes(rest) == rest);
        assert(t =~= seq!['/'] + rest + query_of(t));
    }
}

/// Where the first `?` of `t` stands, or its length.
fn find_query_start(t: &str) -> (r: usize)
    ensures
        r == query_start(t@),
{
    let n = t.unicode_len();
    let mut i: usize = 0;
    while i < n
        invariant
            n == t@.len(),
            i <= n,
            query_start(t@.subrange(0, i as int)) == i,
        decreases n - i,
    {
        assert(t@.subrange(0, i as int + 1).drop_last() =~= t@.subrange(0, i as int));
        if t.get_char(i) == '?' {
            proof {
                lemma_query_start_prefix(t@, i as int + 1);
            }
            return i;
        }
        i = i + 1;
    }
    assert(t@.subrange(0, n as int) =~= t@);
    n
}

/// A `?` found in a prefix is the first `?` of the whole.
proof fn lemma_query_start_prefix(t: Seq<char>, i: int)
    requires
        0 <= i <= t.len(),
        query_start(t.subrange(0, i)) < i,
    ensures
        query_start(t) == query_start(t.subrange(0, i)),
    decreases t.len() - i,
{
    if i < t.len() {
        assert(t.subrange(0, i + 1).drop_last() =~= t.subrange(0, i));
        lemma_query_start_prefix(t, i + 1);
    } else {
        assert(t.subrange(0, i) =~= t);
    }
}

/// Normalises a request target: collapses leading slashes and trims
/// trailing ones from its path, keeping its query.
pub fn normalize_target(target: &str) -> (r: String)
    ensures
        r@ == normalized(target@),
{
    let q = find_query_start(target);
    let path = target.substring_char(0, q);
    let n = target.unicode_len();
    let needs = (q >= 2 && path.get_char(0) == '/' && path.get_char(1) == '/') || (q > 0 && path.get_char(q - 1) == '/');
    if !needs {
        return target.to_string();
    }
    let mut a: usize = 0;
    assert(path@.subrange(0, q as int) =~= path@);
    while a < q && path.get_char(a) == '/'
        invariant
            path@.len() == q,
            a <= q,
            trim_leading_slashes(path@) == trim_leading_slashes(path@.subrange(a as int, q as int)),
        decreases q - a,
    {
        assert(path@.subrange(a as int, q as int).drop_first() =~= path@.subrange(a as int + 1, q as int));
        a = a + 1;
    }
    assert(trim_leading_slashes(path@.subrange(a as int, q as int)) == path@.subrange(a as int, q as int));
    let mut b: usize = q;
    while b > a && path.get_char(b - 1) == '/'
        invariant
            path@.len() == q,
            a <= b <= q,
            trim_trailing_slashes(path@.subrange(a as int, q as int)) == trim_trailing_slashes(path@.subrange(a as int, b as int)),
        decreases b - a,
    {
        assert(path@.subrange(a as int, b as int).drop_last() =~= path@.subrange(a as int, b as int - 1));
        b = b - 1;
    }
    let mut r = String::from_str("/");
    r.append(path.substring_char(a, b));
    r.append(target.substring_char(q, n));
    proof {
        reveal_strlit("/");
        assert(r@ =~= normalized(target@));
    }
    r
}

/// The route of a request with the given method and normalised target.
pub fn route_for(method: &str, target: &str) -> (r: Route)
    ensures
        r == route_of(method@, target@),
{
    let q = find_query_start(target);
    if str_eq(method, GET) && str_eq(target.substring_char(0, q), INITIALIZATION_PATH) {
        Route::Initialization
    } else {
        Route::Forward
    }
}

} // verus!
