//! Locating a marker that must occur exactly once, and turning a text
//! into an optional trimmed segment.

use crate::trim::{chars_of, trim_bounds, trimmed};
use vstd::prelude::*;
use vstd::string::StrSliceExecFns;
use vstd::string::StringExecFns;

verus! {

/// `needle` stands in `haystack` at character offset `i`.
pub open spec fn occurs_at(haystack: Seq<char>, needle: Seq<char>, i: int) -> bool {
    &&& 0 <= i
    &&& i + needle.len() <= haystack.len()
    &&& haystack.subrange(i, i + needle.len()) == needle
}

/// `needle` stands in `haystack` at offset `i` and at no other offset.
pub open spec fn is_single_index(haystack: Seq<char>, needle: Seq<char>, i: int) -> bool {
    &&& occurs_at(haystack, needle, i)
    &&& forall|j: int| #[trigger] occurs_at(haystack, needle, j) ==> j == i
}

/// The offset of the only occurrence of `needle` in `haystack`; `None`
/// where it occurs nowhere or more than once.
pub open spec fn single_index(haystack: Seq<char>, needle: Seq<char>) -> Option<int> {
    if exists|i: int| is_single_index(haystack, needle, i) {
        Some(choose|i: int| is_single_index(haystack, needle, i))
    } else {
        None
    }
}

/// The segment that a slice of text stands for: its trimmed form, or
/// nothing where that is empty.
pub open spec fn segment_of(s: Seq<char>) -> Option<Seq<char>> {
    if trimmed(s).len() == 0 {
        None
    } else {
        Some(trimmed(s))
    }
}

/// An offset that is the single index is the value of `single_index`.
pub proof fn lemma_single_index_is(haystack: Seq<char>, needle: Seq<char>, i: int)
    requires
        is_single_index(haystack, needle, i),
    ensures
        single_index(haystack, needle) == Some(i),
{
    let k = choose|k: int| is_single_index(haystack, needle, k);
    assert(occurs_at(haystack, needle, k));
}

/// Where a marker has a single index, every offset at which it stands
/// is that index.
pub proof fn lemma_single_index_at(haystack: Seq<char>, needle: Seq<char>, i: int)
    requires
        single_index(haystack, needle) is Some,
        occurs_at(haystack, needle, i),
    ensures
        single_index(haystack, needle) == Some(i),
{
    let k = choose|k: int| is_single_index(haystack, needle, k);
    assert(k == i);
}

/// A marker that occurs nowhere has no single index.
pub proof fn lemma_single_index_of_absent(haystack: Seq<char>, needle: Seq<char>)
    requires
        forall|i: int| !occurs_at(haystack, needle, i),
    ensures
        single_index(haystack, needle) is None,
{
}

/// A marker that occurs at exactly one offset has that offset as its
/// single index.
pub proof fn lemma_single_index_of_unique(haystack: Seq<char>, needle: Seq<char>, i: int)
    requires
        occurs_at(haystack, needle, i),
        forall|j: int| j != i ==> !occurs_at(haystack, needle, j),
    ensures
        single_index(haystack, needle) == Some(i),
{
    lemma_single_index_is(haystack, needle, i);
}

/// A marker that occurs at two offsets has no single index, however
/// often it occurs besides.
pub proof fn lemma_single_index_of_repeated(
    haystack: Seq<char>,
    needle: Seq<char>,
    i: int,
    j: int,
)
    requires
        occurs_at(haystack, needle, i),
        occurs_at(haystack, needle, j),
        i != j,
    ensures
        single_index(haystack, needle) is None,
{
    if exists|k: int| is_single_index(haystack, needle, k) {
        let k = choose|k: int| is_single_index(haystack, needle, k);
        assert(i == k);
        assert(j == k);
    }
}

/// Whether `needle` stands in `haystack` at offset `i`.
fn matches_at(haystack: &Vec<char>, needle: &Vec<char>, i: usize) -> (b: bool)
    requires
        i + needle.len() <= haystack.len(),
    ensures
        b == occurs_at(haystack@, needle@, i as int),
{
    let mut k: usize = 0;
    while k < needle.len()
        invariant
            k <= needle.len(),
            i + needle.len() <= haystack.len(),
            forall|j: int| 0 <= j < k ==> haystack@[i + j] == needle@[j],
        decreases needle.len() - k,
    {
        if haystack[i + k] != needle[k] {
            proof {
                let part = haystack@.subrange(i as int, i + needle.len());
                assert(part[k as int] == haystack@[i + k]);
            }
            return false;
        }
        k += 1;
    }
    assert(haystack@.subrange(i as int, i + needle.len()) =~= needle@);
    true
}

/// The first offset at or after `from` at which `needle` stands in
/// `haystack`.
fn find_from(haystack: &Vec<char>, needle: &Vec<char>, from: usize) -> (r: Option<usize>)
    ensures
        match r {
            Some(i) => {
                &&& from <= i
                &&& occurs_at(haystack@, needle@, i as int)
                &&& forall|j: int| from <= j < i ==> !occurs_at(haystack@, needle@, j)
            },
            None => forall|j: int| from <= j ==> !occurs_at(haystack@, needle@, j),
        },
{
    if needle.len() > haystack.len() {
        return None;
    }
    let last: usize = haystack.len() - needle.len();
    let mut i: usize = from;
    while i < last
        invariant
            from <= i,
            last + needle.len() == haystack.len(),
            forall|j: int| from <= j < i ==> !occurs_at(haystack@, needle@, j),
        decreases last - i,
    {
        if matches_at(haystack, needle, i) {
            return Some(i);
        }
        i += 1;
    }
    if i == last && matches_at(haystack, needle, i) {
        return Some(i);
    }
    None
}

/// Whether `text` starts with `prefix`.
pub fn starts_with(text: &str, prefix: &str) -> (r: bool)
    ensures
        r == prefix@.is_prefix_of(text@),
{
    let t = chars_of(text);
    let p = chars_of(prefix);
    if p.len() > t.len() {
        return false;
    }
    matches_at(&t, &p, 0)
}

/// Whether `text` ends with `suffix`.
pub fn ends_with(text: &str, suffix: &str) -> (r: bool)
    ensures
        r == suffix@.is_suffix_of(text@),
{
    let t = chars_of(text);
    let s = chars_of(suffix);
    if s.len() > t.len() {
        return false;
    }
    matches_at(&t, &s, t.len() - s.len())
}

/// Whether `a` and `b` hold the same characters.
pub(crate) fn same_chars(a: &Vec<char>, b: &Vec<char>) -> (r: bool)
    ensures
        r == (a@ == b@),
{
    if a.len() != b.len() {
        return false;
    }
    let r = matches_at(a, b, 0);
    assert(a@.subrange(0, a@.len() as int) =~= a@);
    r
}

/// Whether `a` and `b` are the same text.
pub fn same_text(a: &str, b: &str) -> (r: bool)
    ensures
        r == (a@ == b@),
{
    let x = chars_of(a);
    let y = chars_of(b);
    same_chars(&x, &y)
}

/// The offset of the only occurrence of `needle` in `haystack`, both
/// given by their characters.
pub(crate) fn single_index_of(haystack: &Vec<char>, needle: &Vec<char>) -> (r: Option<usize>)
    ensures
        match r {
            Some(i) => single_index(haystack@, needle@) == Some(i as int),
            None => single_index(haystack@, needle@) is None,
        },
        r matches Some(i) ==> is_single_index(haystack@, needle@, i as int),
{
    match find_from(haystack, needle, 0) {
        None => None,
        Some(first) => {
            if first >= haystack.len() {
                proof {
                    lemma_single_index_is(haystack@, needle@, first as int);
                }
                return Some(first);
            }
            match find_from(haystack, needle, first + 1) {
                None => {
                    proof {
                        lemma_single_index_is(haystack@, needle@, first as int);
                    }
                    Some(first)
                },
                Some(second) => {
                    proof {
                        lemma_single_index_of_repeated(
                            haystack@,
                            needle@,
                            first as int,
                            second as int,
                        );
                    }
                    None
                },
            }
        },
    }
}

/// Tries getting the only index of `needle` in `haystack`, counted in
/// characters. Where `haystack` holds `needle` not exactly one time,
/// `None` is returned.
pub fn get_single_index(haystack: &str, needle: &str) -> (r: Option<usize>)
    ensures
        match r {
            Some(i) => single_index(haystack@, needle@) == Some(i as int),
            None => single_index(haystack@, needle@) is None,
        },
        r matches Some(i) ==> is_single_index(haystack@, needle@, i as int),
        r is None ==> forall|i: int| !is_single_index(haystack@, needle@, i),
{
    let h = chars_of(haystack);
    let n = chars_of(needle);
    single_index_of(&h, &n)
}

/// The segment that the part `from..to` of `source` stands for, where
/// `chars` holds the characters of `source`.
pub(crate) fn segment_between(source: &str, chars: &Vec<char>, from: usize, to: usize) -> (r: Option<
    String,
>)
    requires
        chars@ == source@,
        from <= to <= chars.len(),
    ensures
        option_view(r) == segment_of(source@.subrange(from as int, to as int)),
{
    let (lo, hi) = trim_bounds(chars, from, to);
    if lo == hi {
        None
    } else {
        Some(String::from_str(source.substring_char(lo, hi)))
    }
}

/// The text of an optional string.
pub open spec fn option_view(o: Option<String>) -> Option<Seq<char>> {
    match o {
        Some(s) => Some(s@),
        None => None,
    }
}

/// Turns `text` into an optional string: `None` where it is empty or
/// holds whitespace only, else its trimmed form.
pub fn optionize(text: &str) -> (r: Option<String>)
    ensures
        option_view(r) == segment_of(text@),
{
    let chars = chars_of(text);
    assert(text@.subrange(0, chars.len() as int) =~= text@);
    segment_between(text, &chars, 0, chars.len())
}

} // verus!
