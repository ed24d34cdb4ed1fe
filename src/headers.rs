//! HTTP header fields as plain values, and the lookups and edits the proxy
//! makes on them.

use vstd::prelude::*;
use vstd::utf8::*;

verus! {

broadcast use {encode_utf8_valid_utf8, encode_utf8_decode_utf8};

/// The `content-encoding` header name.
pub const CONTENT_ENCODING: &'static str = "content-encoding";

/// The `content-length` header name.
pub const CONTENT_LENGTH: &'static str = "content-length";

/// The `transfer-encoding` header name.
pub const TRANSFER_ENCODING: &'static str = "transfer-encoding";

/// The `host` header name.
pub const HOST: &'static str = "host";

/// One header field. Names are held in lower case, as `http` normalises
/// them; a name that occurs several times is several fields.
#[derive(Clone, Debug)]
pub struct Header {
    pub name: String,
    pub value: Vec<u8>,
}

impl Header {
    /// A field with the given name and value.
    pub fn new(name: &str, value: &[u8]) -> (r: Header)
        ensures
            r.name@ == name@,
            r.value@ == value@,
    {
        Header { name: name.to_string(), value: bytes_to_vec(value) }
    }
}

/// The value of the first field named `name`, as `HeaderMap::get` gives it.
pub open spec fn first_value(hs: Seq<Header>, name: Seq<char>) -> Option<Seq<u8>>
    decreases hs.len(),
{
    if hs.len() == 0 {
        None
    } else {
        match first_value(hs.drop_last(), name) {
            Some(v) => Some(v),
            None => if hs.last().name@ == name {
                Some(hs.last().value@)
            } else {
                None
            },
        }
    }
}

/// The fields of `hs` that are not named `name`, in their order.
pub open spec fn without(hs: Seq<Header>, name: Seq<char>) -> Seq<Header>
    decreases hs.len(),
{
    if hs.len() == 0 {
        hs
    } else if hs.last().name@ == name {
        without(hs.drop_last(), name)
    } else {
        without(hs.drop_last(), name).push(hs.last())
    }
}

/// Whether any field is named `name`.
pub open spec fn has_header(hs: Seq<Header>, name: Seq<char>) -> bool {
    first_value(hs, name) is Some
}

/// A first match in a prefix stays the first match of the whole sequence.
pub proof fn lemma_first_value_prefix(hs: Seq<Header>, name: Seq<char>, i: int)
    requires
        0 <= i <= hs.len(),
        first_value(hs.subrange(0, i), name) is Some,
    ensures
        first_value(hs, name) == first_value(hs.subrange(0, i), name),
    decreases hs.len() - i,
{
    if i < hs.len() {
        let next = hs.subrange(0, i + 1);
        assert(next.drop_last() =~= hs.subrange(0, i));
        lemma_first_value_prefix(hs, name, i + 1);
    } else {
        assert(hs.subrange(0, i) =~= hs);
    }
}

/// After the fields named `name` are removed, none is left.
pub proof fn lemma_without_has_none(hs: Seq<Header>, name: Seq<char>)
    ensures
        first_value(without(hs, name), name) is None,
    decreases hs.len(),
{
    if hs.len() > 0 {
        lemma_without_has_none(hs.drop_last(), name);
        let w = without(hs.drop_last(), name);
        if hs.last().name@ != name {
            assert(w.push(hs.last()).drop_last() =~= w);
        }
    }
}

/// Removing fields of one name keeps the first value of every other name.
pub proof fn lemma_without_keeps_others(hs: Seq<Header>, name: Seq<char>, other: Seq<char>)
    requires
        name != other,
    ensures
        first_value(without(hs, name), other) == first_value(hs, other),
    decreases hs.len(),
{
    if hs.len() > 0 {
        lemma_without_keeps_others(hs.drop_last(), name, other);
        let w = without(hs.drop_last(), name);
        if hs.last().name@ != name {
            assert(w.push(hs.last()).drop_last() =~= w);
        }
    }
}

/// A copy of a byte slice.
pub fn bytes_to_vec(b: &[u8]) -> (r: Vec<u8>)
    ensures
        r@ == b@,
{
    let mut r: Vec<u8> = Vec::with_capacity(b.len());
    let mut i: usize = 0;
    while i < b.len()
        invariant
            i <= b@.len(),
            r@ == b@.subrange(0, i as int),
        decreases b@.len() - i,
    {
        r.push(b[i]);
        i = i + 1;
        assert(r@ =~= b@.subrange(0, i as int));
    }
    assert(b@.subrange(0, b@.len() as int) =~= b@);
    r
}

/// Whether two byte slices are equal.
pub fn bytes_eq(a: &[u8], b: &[u8]) -> (r: bool)
    ensures
        r == (a@ == b@),
{
    if a.len() != b.len() {
        return false;
    }
    let mut i: usize = 0;
    while i < a.len()
        invariant
            a@.len() == b@.len(),
            i <= a@.len(),
            a@.subrange(0, i as int) == b@.subrange(0, i as int),
        decreases a@.len() - i,
    {
        if a[i] != b[i] {
            assert(a@[i as int] != b@[i as int]);
            return false;
        }
        i = i + 1;
        assert(a@.subrange(0, i as int) =~= a@.subrange(0, i as int - 1).push(a@[i as int - 1]));
        assert(b@.subrange(0, i as int) =~= b@.subrange(0, i as int - 1).push(b@[i as int - 1]));
    }
    assert(a@.subrange(0, a@.len() as int) =~= a@);
    assert(b@.subrange(0, b@.len() as int) =~= b@);
    true
}

/// Whether two strings are equal.
pub fn str_eq(a: &str, b: &str) -> (r: bool)
    ensures
        r == (a@ == b@),
{
    let r = bytes_eq(a.as_bytes(), b.as_bytes());
    proof {
        if r {
            assert(decode_utf8(encode_utf8(a@)) == a@);
            assert(decode_utf8(encode_utf8(b@)) == b@);
        }
    }
    r
}

/// The value of the first field named `name`.
pub fn header_value<'a>(headers: &'a Vec<Header>, name: &str) -> (r: Option<&'a Vec<u8>>)
    ensures
        match r {
            Some(v) => first_value(headers@, name@) == Some(v@),
            None => first_value(headers@, name@) is None,
        },
{
    let mut i: usize = 0;
    while i < headers.len()
        invariant
            i <= headers@.len(),
            first_value(headers@.subrange(0, i as int), name@) is None,
        decreases headers@.len() - i,
    {
        assert(headers@.subrange(0, i as int + 1).drop_last() =~= headers@.subrange(0, i as int));
        if str_eq(headers[i].name.as_str(), name) {
            proof {
                lemma_first_value_prefix(headers@, name@, i as int + 1);
            }
            return Some(&headers[i].value);
        }
        i = i + 1;
    }
    assert(headers@.subrange(0, headers@.len() as int) =~= headers@);
    None
}

/// Removes every field named `name`, keeping the others in order.
pub fn remove_header(headers: &mut Vec<Header>, name: &str)
    ensures
        final(headers)@ == without(old(headers)@, name@),
{
    let ghost orig = headers@;
    let ghost mut k: int = 0;
    let mut i: usize = 0;
    while i < headers.len()
        invariant
            0 <= i <= k <= orig.len(),
            i <= headers@.len(),
            headers@.len() - i == orig.len() - k,
            headers@.subrange(0, i as int) == without(orig.subrange(0, k), name@),
            headers@.subrange(i as int, headers@.len() as int) == orig.subrange(k, orig.len() as int),
        decreases headers@.len() - i,
    {
        assert(orig.subrange(0, k + 1).drop_last() =~= orig.subrange(0, k));
        assert(headers@.subrange(i as int, headers@.len() as int)[0] == headers@[i as int]);
        assert(headers@[i as int] == orig[k]);
        let ghost before = headers@;
        assert forall|j: int| 0 <= j < orig.len() - k implies #[trigger] before[i + j] == orig[k + j] by {
            assert(before.subrange(i as int, before.len() as int)[j] == before[i + j]);
            assert(orig.subrange(k, orig.len() as int)[j] == orig[k + j]);
        }
        if str_eq(headers[i].name.as_str(), name) {
            headers.remove(i);
            proof {
                assert(headers@.subrange(0, i as int) =~= before.subrange(0, i as int));
                assert forall|j: int| 0 <= j < orig.len() - k - 1 implies #[trigger] headers@.subrange(i as int, headers@.len() as int)[j] == orig.subrange(k + 1, orig.len() as int)[j] by {
                    assert(before[i + (j + 1)] == orig[k + (j + 1)]);
                }
                assert(headers@.subrange(i as int, headers@.len() as int) =~= orig.subrange(k + 1, orig.len() as int));
                k = k + 1;
            }
        } else {
            proof {
                assert(headers@.subrange(0, i as int + 1) =~= headers@.subrange(0, i as int).push(orig[k]));
                assert forall|j: int| 0 <= j < orig.len() - k - 1 implies #[trigger] headers@.subrange(i as int + 1, headers@.len() as int)[j] == orig.subrange(k + 1, orig.len() as int)[j] by {
                    assert(before[i + (j + 1)] == orig[k + (j + 1)]);
                }
                assert(headers@.subrange(i as int + 1, headers@.len() as int) =~= orig.subrange(k + 1, orig.len() as int));
                k = k + 1;
            }
            i = i + 1;
        }
    }
    assert(orig.subrange(0, orig.len() as int) =~= orig);
    assert(headers@.subrange(0, i as int) =~= headers@);
}

/// Replaces every field named `name` by one field with `value`, as
/// `HeaderMap::insert` does.
pub fn set_header(headers: &mut Vec<Header>, name: &str, value: &[u8])
    ensures
        final(headers)@.drop_last() == without(old(headers)@, name@),
        final(headers)@.last().name@ == name@,
        final(headers)@.last().value@ == value@,
        first_value(final(headers)@, name@) == Some(value@),
{
    remove_header(headers, name);
    let h = Header::new(name, value);
    headers.push(h);
    proof {
        lemma_without_has_none(old(headers)@, name@);
        assert(headers@.drop_last() =~= without(old(headers)@, name@));
    }
}

} // verus!
