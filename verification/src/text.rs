//! Strings: trimming what users write, minting fresh identifiers, and copies.

use crate::types::Text;
use vstd::prelude::*;
use vstd::std_specs::iter::IteratorSpec;
use vstd::string::StrSliceExecFns;

verus! {

/// Whether the character is white space, as `char::is_whitespace` tells it.
pub uninterp spec fn is_white_space(c: char) -> bool;

/// `char::is_whitespace`.
///
/// Trusted: the result is a function of the character alone.
#[verifier::external_body]
pub(crate) fn is_space(c: char) -> (r: bool)
    ensures
        r == is_white_space(c),
{
    c.is_whitespace()
}

/// Every character of `s` is white space.
pub open spec fn blank(s: Text) -> bool {
    forall|k: int| 0 <= k < s.len() ==> is_white_space(#[trigger] s[k])
}

/// `i` is the position of the first character of `s` that is not white space.
pub open spec fn is_first_solid(s: Text, i: int) -> bool {
    &&& 0 <= i < s.len()
    &&& !is_white_space(s[i])
    &&& forall|k: int| 0 <= k < i ==> is_white_space(#[trigger] s[k])
}

/// `j` is the position of the last character of `s` that is not white space.
pub open spec fn is_last_solid(s: Text, j: int) -> bool {
    &&& 0 <= j < s.len()
    &&& !is_white_space(s[j])
    &&& forall|k: int| j < k < s.len() ==> is_white_space(#[trigger] s[k])
}

/// `s` without the white space at its two ends: the part from its first to
/// its last character that is not white space, and nothing if there is none.
pub open spec fn trimmed(s: Text) -> Text {
    if blank(s) {
        Seq::empty()
    } else {
        s.subrange(choose|i: int| is_first_solid(s, i), (choose|j: int| is_last_solid(s, j)) + 1)
    }
}

/// What is trimmed is empty exactly if all was white space; otherwise it
/// begins and ends with a character that is not white space, and trimming it
/// again changes nothing.
pub proof fn lemma_trimmed(s: Text)
    ensures
        trimmed(s).len() <= s.len(),
        blank(s) <==> trimmed(s).len() == 0,
        !blank(s) ==> !is_white_space(trimmed(s).first()) && !is_white_space(trimmed(s).last()),
        trimmed(trimmed(s)) == trimmed(s),
{
    if !blank(s) {
        let k = choose|k: int| 0 <= k < s.len() && !is_white_space(#[trigger] s[k]);
        lemma_solid_ends_exist(s, k);
        let i = choose|i: int| is_first_solid(s, i);
        let j = choose|j: int| is_last_solid(s, j);
        let t = trimmed(s);
        assert(t.first() == s[i] && t.last() == s[j]);
        assert(is_first_solid(t, 0));
        assert(is_last_solid(t, t.len() - 1));
        assert(!blank(t));
        assert(t.subrange(0, t.len() as int) =~= t);
    } else {
        assert(blank(trimmed(s)));
    }
}

/// Where a character is not white space, there is a first and a last such.
proof fn lemma_solid_ends_exist(s: Text, k: int)
    requires
        0 <= k < s.len(),
        !is_white_space(s[k]),
    ensures
        exists|i: int| is_first_solid(s, i),
        exists|j: int| is_last_solid(s, j),
{
    lemma_first_solid_exists(s, k);
    lemma_last_solid_exists(s, k);
}

proof fn lemma_first_solid_exists(s: Text, k: int)
    requires
        0 <= k < s.len(),
        !is_white_space(s[k]),
    ensures
        exists|i: int| is_first_solid(s, i),
    decreases k,
{
    if exists|m: int| 0 <= m < k && !is_white_space(#[trigger] s[m]) {
        let m = choose|m: int| 0 <= m < k && !is_white_space(#[trigger] s[m]);
        lemma_first_solid_exists(s, m);
    } else {
        assert(is_first_solid(s, k));
    }
}

proof fn lemma_last_solid_exists(s: Text, k: int)
    requires
        0 <= k < s.len(),
        !is_white_space(s[k]),
    ensures
        exists|j: int| is_last_solid(s, j),
    decreases s.len() - k,
{
    if exists|m: int| k < m < s.len() && !is_white_space(#[trigger] s[m]) {
        let m = choose|m: int| k < m < s.len() && !is_white_space(#[trigger] s[m]);
        lemma_last_solid_exists(s, m);
    } else {
        assert(is_last_solid(s, k));
    }
}

/// The string without the white space at its two ends, as `str::trim` gives
/// it: found in one pass over the characters.
pub fn trim(s: &String) -> (r: String)
    ensures
        r@ == trimmed(s@),
{
    broadcast use vstd::string::group_string_axioms;

    let text = s.as_str();
    let n = text.unicode_len();
    let mut chars = text.chars();
    let mut i: usize = 0;
    let mut found = false;
    let mut first: usize = 0;
    let mut end: usize = 0;
    while i < n
        invariant
            i <= n,
            n == s@.len(),
            chars.remaining() == s@.subrange(i as int, n as int),
            !found ==> forall|k: int| 0 <= k < i ==> is_white_space(#[trigger] s@[k]),
            found ==> is_first_solid(s@, first as int) && first < end <= i,
            found ==> !is_white_space(s@[end - 1]),
            found ==> forall|k: int| end <= k < i ==> is_white_space(#[trigger] s@[k]),
        decreases n - i,
    {
        // While `i < n` the iterator has a character left: the one at `i`.
        if let Some(c) = chars.next() {
            if !is_space(c) {
                if !found {
                    first = i;
                    found = true;
                }
                end = i + 1;
            }
        }
        i += 1;
    }
    if found {
        proof {
            assert(is_last_solid(s@, end - 1));
            assert(!blank(s@));
        }
        text.substring_char(first, end).to_owned()
    } else {
        String::new()
    }
}

/// `uuid::Uuid::new_v4`, written out in its hyphenated form.
///
/// Trusted for nothing: the identifier is random, and no contract says which
/// string comes back. The call aborts the process if the operating system
/// cannot supply randomness.
#[verifier::external_body]
pub(crate) fn fresh_id() -> (r: String) {
    uuid::Uuid::new_v4().to_string()
}

/// Whether the string has no characters.
pub fn is_blank(s: &String) -> (r: bool)
    ensures
        r == (s@.len() == 0),
{
    s.as_str().is_empty()
}

/// A copy of an optional string.
pub fn copy_opt(s: &Option<String>) -> (r: Option<String>)
    ensures
        r == *s,
{
    match s {
        Some(t) => Some(t.clone()),
        None => None,
    }
}

/// A copy of a list of strings.
pub fn copy_strings(v: &Vec<String>) -> (r: Vec<String>)
    ensures
        r@ == v@,
{
    let mut out: Vec<String> = Vec::new();
    let mut i: usize = 0;
    while i < v.len()
        invariant
            i <= v.len(),
            out@ == v@.take(i as int),
        decreases v.len() - i,
    {
        out.push(v[i].clone());
        i += 1;
    }
    out
}

} // verus!
