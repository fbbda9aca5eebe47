//! Whitespace and trimming of text, over sequences of characters.

use vstd::prelude::*;
use vstd::string::StrSliceExecFns;

verus! {

/// Whether `c` is a whitespace character: one of the code points that
/// carry the Unicode property `White_Space`.
pub open spec fn is_whitespace(c: char) -> bool {
    let n = c as u32;
    ||| 0x09 <= n <= 0x0d
    ||| n == 0x20
    ||| n == 0x85
    ||| n == 0xa0
    ||| n == 0x1680
    ||| 0x2000 <= n <= 0x200a
    ||| n == 0x2028
    ||| n == 0x2029
    ||| n == 0x202f
    ||| n == 0x205f
    ||| n == 0x3000
}

/// `s` without its leading whitespace.
pub open spec fn trim_start(s: Seq<char>) -> Seq<char>
    decreases s.len(),
{
    if s.len() > 0 && is_whitespace(s[0]) {
        trim_start(s.drop_first())
    } else {
        s
    }
}

/// `s` without its trailing whitespace.
pub open spec fn trim_end(s: Seq<char>) -> Seq<char>
    decreases s.len(),
{
    if s.len() > 0 && is_whitespace(s.last()) {
        trim_end(s.drop_last())
    } else {
        s
    }
}

/// `s` without its leading and trailing whitespace.
pub open spec fn trimmed(s: Seq<char>) -> Seq<char> {
    trim_end(trim_start(s))
}

/// Every character of `s` is whitespace (true of the empty text).
pub open spec fn is_blank(s: Seq<char>) -> bool {
    forall|i: int| 0 <= i < s.len() ==> is_whitespace(#[trigger] s[i])
}

/// `s` is not empty and does not start with whitespace.
pub open spec fn starts_tight(s: Seq<char>) -> bool {
    s.len() > 0 && !is_whitespace(s[0])
}

/// `s` is not empty and does not end with whitespace.
pub open spec fn ends_tight(s: Seq<char>) -> bool {
    s.len() > 0 && !is_whitespace(s.last())
}

/// `s` is not empty and neither starts nor ends with whitespace.
pub open spec fn is_tight(s: Seq<char>) -> bool {
    starts_tight(s) && ends_tight(s)
}

/// Leading whitespace can be skipped before trimming the start.
pub proof fn lemma_trim_start_skips(s: Seq<char>, k: int)
    requires
        0 <= k <= s.len(),
        forall|i: int| 0 <= i < k ==> is_whitespace(#[trigger] s[i]),
    ensures
        trim_start(s) == trim_start(s.subrange(k, s.len() as int)),
    decreases k,
{
    if k == 0 {
        assert(s.subrange(0, s.len() as int) =~= s);
    } else {
        assert(is_whitespace(s[0]));
        let t = s.drop_first();
        assert forall|i: int| 0 <= i < k - 1 implies is_whitespace(#[trigger] t[i]) by {
            assert(t[i] == s[i + 1]);
        }
        lemma_trim_start_skips(t, k - 1);
        assert(t.subrange(k - 1, t.len() as int) =~= s.subrange(k, s.len() as int));
    }
}

/// Trailing whitespace can be skipped before trimming the end.
pub proof fn lemma_trim_end_skips(s: Seq<char>, k: int)
    requires
        0 <= k <= s.len(),
        forall|i: int| k <= i < s.len() ==> is_whitespace(#[trigger] s[i]),
    ensures
        trim_end(s) == trim_end(s.subrange(0, k)),
    decreases s.len() - k,
{
    if k == s.len() {
        assert(s.subrange(0, k) =~= s);
    } else {
        assert(is_whitespace(s.last()));
        let t = s.drop_last();
        assert forall|i: int| k <= i < t.len() implies is_whitespace(#[trigger] t[i]) by {
            assert(t[i] == s[i]);
        }
        lemma_trim_end_skips(t, k);
        assert(t.subrange(0, k) =~= s.subrange(0, k));
    }
}

/// The bounds of the trimmed text determine it: between a whitespace
/// prefix and a whitespace suffix lies either nothing or a tight text.
pub proof fn lemma_trimmed_is_subrange(s: Seq<char>, lo: int, hi: int)
    requires
        0 <= lo <= hi <= s.len(),
        forall|i: int| 0 <= i < lo ==> is_whitespace(#[trigger] s[i]),
        forall|i: int| hi <= i < s.len() ==> is_whitespace(#[trigger] s[i]),
        lo < hi ==> !is_whitespace(s[lo]) && !is_whitespace(s[hi - 1]),
    ensures
        trimmed(s) == s.subrange(lo, hi),
{
    let n = s.len() as int;
    if lo == hi {
        // The whole text is whitespace.
        assert forall|i: int| 0 <= i < n implies is_whitespace(#[trigger] s[i]) by {
            if i < lo {
            } else {
            }
        }
        lemma_trim_start_skips(s, n);
        let e = s.subrange(n, n);
        assert(e.len() == 0);
        assert(trim_start(e) == e);
        assert(trim_end(e) == e);
        assert(e =~= s.subrange(lo, hi));
    } else {
        lemma_trim_start_skips(s, lo);
        let t = s.subrange(lo, n);
        assert(t[0] == s[lo]);
        assert(trim_start(t) == t);
        assert forall|i: int| hi - lo <= i < t.len() implies is_whitespace(#[trigger] t[i]) by {
            assert(t[i] == s[i + lo]);
        }
        lemma_trim_end_skips(t, hi - lo);
        let u = t.subrange(0, hi - lo);
        assert(u =~= s.subrange(lo, hi));
        assert(u.last() == s[hi - 1]);
        assert(trim_end(u) == u);
    }
}

/// Bounds as in `lemma_trimmed_is_subrange` exist for every text.
pub proof fn lemma_trimmed_bounds_exist(s: Seq<char>) -> (b: (int, int))
    ensures
        0 <= b.0 <= b.1 <= s.len(),
        forall|i: int| 0 <= i < b.0 ==> is_whitespace(#[trigger] s[i]),
        forall|i: int| b.1 <= i < s.len() ==> is_whitespace(#[trigger] s[i]),
        b.0 < b.1 ==> !is_whitespace(s[b.0]) && !is_whitespace(s[b.1 - 1]),
        trimmed(s) == s.subrange(b.0, b.1),
    decreases s.len(),
{
    let n = s.len() as int;
    let b = if n == 0 {
        (0int, 0int)
    } else if is_whitespace(s[0]) {
        let t = s.drop_first();
        let c = lemma_trimmed_bounds_exist(t);
        assert forall|i: int| 0 <= i < c.0 + 1 implies is_whitespace(#[trigger] s[i]) by {
            if i > 0 {
                assert(s[i] == t[i - 1]);
            }
        }
        assert forall|i: int| c.1 + 1 <= i < n implies is_whitespace(#[trigger] s[i]) by {
            assert(s[i] == t[i - 1]);
        }
        if c.0 < c.1 {
            assert(s[c.0 + 1] == t[c.0]);
            assert(s[c.1] == t[c.1 - 1]);
        }
        (c.0 + 1, c.1 + 1)
    } else if is_whitespace(s.last()) {
        let t = s.drop_last();
        let c = lemma_trimmed_bounds_exist(t);
        assert forall|i: int| 0 <= i < c.0 implies is_whitespace(#[trigger] s[i]) by {
            assert(s[i] == t[i]);
        }
        assert forall|i: int| c.1 <= i < n implies is_whitespace(#[trigger] s[i]) by {
            if i < n - 1 {
                assert(s[i] == t[i]);
            }
        }
        if c.0 < c.1 {
            assert(s[c.0] == t[c.0]);
            assert(s[c.1 - 1] == t[c.1 - 1]);
        }
        c
    } else {
        (0int, n)
    };
    lemma_trimmed_is_subrange(s, b.0, b.1);
    b
}

/// A trimmed text is empty or tight: it never starts or ends with
/// whitespace.
pub proof fn lemma_trimmed_is_empty_or_tight(s: Seq<char>)
    ensures
        trimmed(s).len() == 0 || is_tight(trimmed(s)),
        trimmed(s).len() <= s.len(),
{
    let b = lemma_trimmed_bounds_exist(s);
    let t = s.subrange(b.0, b.1);
    if b.0 < b.1 {
        assert(t[0] == s[b.0]);
        assert(t.last() == s[b.1 - 1]);
    }
}

/// Trimming leaves a tight text as it is.
pub proof fn lemma_trimmed_of_tight(s: Seq<char>)
    requires
        is_tight(s),
    ensures
        trimmed(s) == s,
{
    lemma_trimmed_is_subrange(s, 0, s.len() as int);
    assert(s.subrange(0, s.len() as int) =~= s);
}

/// Trimming twice is trimming once.
pub proof fn lemma_trimmed_idempotent(s: Seq<char>)
    ensures
        trimmed(trimmed(s)) == trimmed(s),
{
    lemma_trimmed_is_empty_or_tight(s);
    let t = trimmed(s);
    if t.len() == 0 {
        assert(trim_start(t) == t);
        assert(trim_end(t) == t);
    } else {
        lemma_trimmed_of_tight(t);
    }
}

/// The trimmed text is empty exactly when the text is blank.
pub proof fn lemma_trimmed_empty_iff_blank(s: Seq<char>)
    ensures
        trimmed(s).len() == 0 <==> is_blank(s),
{
    let b = lemma_trimmed_bounds_exist(s);
    if is_blank(s) {
        if b.0 < b.1 {
            assert(is_whitespace(s[b.0]));
        }
    }
    if trimmed(s).len() == 0 {
        assert(b.0 == b.1);
        assert forall|i: int| 0 <= i < s.len() implies is_whitespace(#[trigger] s[i]) by {
            if i < b.0 {
            } else {
            }
        }
    }
}

/// Whether `c` is a whitespace character.
pub fn is_whitespace_char(c: char) -> (b: bool)
    ensures
        b == is_whitespace(c),
{
    let n: u32 = c as u32;
    (0x09 <= n && n <= 0x0d) || n == 0x20 || n == 0x85 || n == 0xa0 || n == 0x1680 || (0x2000 <= n
        && n <= 0x200a) || n == 0x2028 || n == 0x2029 || n == 0x202f || n == 0x205f || n == 0x3000
}

/// The characters of `s`, in order.
pub fn chars_of(s: &str) -> (v: Vec<char>)
    ensures
        v@ == s@,
{
    let mut v: Vec<char> = Vec::new();
    for c in it: s.chars()
        invariant
            v@ == it.seq().take(it.index() as int),
            it.seq() == s@,
    {
        v.push(c);
    }
    v
}

/// Where the trimmed form of the part `from..to` of `v` starts and ends.
pub(crate) fn trim_bounds(v: &Vec<char>, from: usize, to: usize) -> (b: (usize, usize))
    requires
        from <= to <= v.len(),
    ensures
        from <= b.0 <= b.1 <= to,
        v@.subrange(b.0 as int, b.1 as int) == trimmed(v@.subrange(from as int, to as int)),
{
    let mut lo: usize = from;
    while lo < to && is_whitespace_char(v[lo])
        invariant
            from <= lo <= to <= v.len(),
            forall|i: int| from <= i < lo ==> is_whitespace(#[trigger] v@[i]),
        decreases to - lo,
    {
        lo += 1;
    }
    let mut hi: usize = to;
    while hi > lo && is_whitespace_char(v[hi - 1])
        invariant
            lo <= hi <= to <= v.len(),
            forall|i: int| hi <= i < to ==> is_whitespace(#[trigger] v@[i]),
        decreases hi - lo,
    {
        hi -= 1;
    }
    proof {
        let s = v@.subrange(from as int, to as int);
        assert forall|i: int| 0 <= i < lo - from implies is_whitespace(#[trigger] s[i]) by {
            assert(s[i] == v@[i + from]);
        }
        assert forall|i: int| hi - from <= i < s.len() implies is_whitespace(#[trigger] s[i]) by {
            assert(s[i] == v@[i + from]);
        }
        if lo < hi {
            assert(s[lo - from] == v@[lo as int]);
            assert(s[hi - from - 1] == v@[hi - 1]);
        }
        lemma_trimmed_is_subrange(s, lo - from, hi - from);
        assert(s.subrange(lo - from, hi - from) =~= v@.subrange(lo as int, hi as int));
    }
    (lo, hi)
}

/// `s` without its leading and trailing whitespace.
pub fn trim(s: &str) -> (r: &str)
    ensures
        r@ == trimmed(s@),
{
    let v = chars_of(s);
    let (lo, hi) = trim_bounds(&v, 0, v.len());
    assert(v@.subrange(0, v.len() as int) =~= v@);
    s.substring_char(lo, hi)
}

} // verus!
