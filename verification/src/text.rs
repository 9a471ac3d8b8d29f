//! Names are byte strings as the file holds them; these compare them with
//! literal text.

use vstd::prelude::*;
use vstd::string::StringSliceAdditionalSpecFns;

verus! {

/// `name` is the text `text`.
pub open spec fn is_text(name: Seq<u8>, text: &str) -> bool {
    name == text.spec_bytes()
}

/// `name` starts with the text `text`.
pub open spec fn has_prefix(name: Seq<u8>, text: &str) -> bool {
    text.spec_bytes().is_prefix_of(name)
}

/// The pair (namespace, name) is the pair of texts `text`.
pub open spec fn is_name(name: (Seq<u8>, Seq<u8>), text: (&str, &str)) -> bool {
    is_text(name.0, text.0) && is_text(name.1, text.1)
}

/// Whether `name` starts with `bytes`.
pub fn begins(name: &[u8], bytes: &[u8]) -> (r: bool)
    ensures
        r == bytes@.is_prefix_of(name@),
{
    let n: usize = bytes.len();
    if n > name.len() {
        return false;
    }
    let mut i: usize = 0;
    while i < n
        invariant
            i <= n,
            n == bytes@.len(),
            n <= name@.len(),
            forall|j: int| 0 <= j < i ==> bytes@[j] == name@[j],
        decreases n - i,
    {
        if bytes[i] != name[i] {
            return false;
        }
        i = i + 1;
    }
    assert(bytes@ =~= name@.subrange(0, n as int));
    true
}

/// Whether `name` and `bytes` are the same bytes.
pub fn same(name: &[u8], bytes: &[u8]) -> (r: bool)
    ensures
        r == (name@ == bytes@),
{
    let r: bool = name.len() == bytes.len() && begins(name, bytes);
    proof {
        if r {
            assert(name@ =~= bytes@);
        }
    }
    r
}

pub fn starts_with(name: &Vec<u8>, text: &str) -> (r: bool)
    ensures
        r == has_prefix(name@, text),
{
    begins(name.as_slice(), text.as_bytes())
}

pub fn text_eq(name: &Vec<u8>, text: &str) -> (r: bool)
    ensures
        r == is_text(name@, text),
{
    same(name.as_slice(), text.as_bytes())
}

pub fn name_eq(name: &(Vec<u8>, Vec<u8>), text: (&str, &str)) -> (r: bool)
    ensures
        r == is_name((name.0@, name.1@), text),
{
    text_eq(&name.0, text.0) && text_eq(&name.1, text.1)
}

} // verus!
