use vstd::prelude::*;
use vstd::string::StringSliceAdditionalSpecFns;

verus! {

/// What quick_xml's unescaping gives for escaped bytes; `None` where an
/// entity is malformed.
pub uninterp spec fn unescaped_bytes(raw: Seq<u8>) -> Option<Seq<u8>>;

/// The text of escaped bytes: unescaped, then read as UTF-8.
pub open spec fn unescaped(raw: Seq<u8>) -> Option<Seq<char>> {
    match unescaped_bytes(raw) {
        Some(b) => if vstd::utf8::valid_utf8(b) {
            Some(vstd::utf8::decode_utf8(b))
        } else {
            None
        },
        None => None,
    }
}

/// The whitespace-separated words of a string, in order.
pub uninterp spec fn words_of(s: Seq<char>) -> Seq<Seq<char>>;

/// Relies on quick_xml::escape::unescape: entity and character references
/// replaced.
#[verifier::external_body]
fn unescape_bytes(raw: &Vec<u8>) -> (r: Option<Vec<u8>>)
    ensures
        match r {
            Some(b) => unescaped_bytes(raw@) == Some(b@),
            None => unescaped_bytes(raw@) is None,
        },
{
    match quick_xml::escape::unescape(raw) {
        Ok(c) => Some(c.into_owned()),
        Err(_) => None,
    }
}

/// The text of escaped bytes, where they unescape to UTF-8.
pub fn unescape_text(raw: &Vec<u8>) -> (r: Option<String>)
    ensures
        crate::data::opt_chars(r) == unescaped(raw@),
{
    match unescape_bytes(raw) {
        None => None,
        Some(b) => utf8_text(b),
    }
}

/// Relies on str::split_whitespace: the words of `s`, in order.
#[verifier::external_body]
pub fn split_words(s: &String) -> (r: Vec<String>)
    ensures
        r@.map_values(|w: String| w@) == words_of(s@),
{
    s.split_whitespace().map(String::from).collect()
}

/// Relies on String::from_utf8: the text of the bytes where they are valid
/// UTF-8, and nothing otherwise.
#[verifier::external_body]
pub fn utf8_text(b: Vec<u8>) -> (r: Option<String>)
    ensures
        r is Some <==> vstd::utf8::valid_utf8(b@),
        r is Some ==> r->0@ == vstd::utf8::decode_utf8(b@),
{
    String::from_utf8(b).ok()
}

/// Whether two byte strings are equal.
pub fn bytes_eq(a: &[u8], b: &[u8]) -> (r: bool)
    ensures
        r == (a@ == b@),
{
    if a.len() != b.len() {
        return false;
    }
    let mut i: usize = 0;
    while i < a.len()
        invariant
            a@.len() == b@.len(),
            0 <= i <= a@.len(),
            forall|j: int| 0 <= j < i ==> a@[j] == b@[j],
        decreases a.len() - i,
    {
        if a[i] != b[i] {
            return false;
        }
        i = i + 1;
    }
    assert(a@ =~= b@);
    true
}

/// Whether `name` is the tag `t`.
pub fn is_tag(name: &Vec<u8>, t: &str) -> (r: bool)
    ensures
        r == (name@ == t.spec_bytes()),
{
    bytes_eq(name.as_slice(), t.as_bytes())
}

/// Appends the bytes of `src` to `dst`.
pub fn append_bytes(dst: &mut Vec<u8>, src: &Vec<u8>)
    ensures
        final(dst)@ == old(dst)@ + src@,
{
    let mut i: usize = 0;
    while i < src.len()
        invariant
            0 <= i <= src@.len(),
            dst@ == old(dst)@ + src@.subrange(0, i as int),
        decreases src.len() - i,
    {
        dst.push(src[i]);
        i = i + 1;
        assert(dst@ =~= old(dst)@ + src@.subrange(0, i as int));
    }
    assert(src@.subrange(0, src@.len() as int) =~= src@);
}

} // verus!
