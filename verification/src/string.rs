//! Joining the trimmed forms of texts.

use crate::trim::{trim, trimmed};
use vstd::prelude::*;
use vstd::string::StringExecFns;

verus! {

/// The texts `parts` in a row, `separator` between each two.
pub open spec fn joined(parts: Seq<Seq<char>>, separator: Seq<char>) -> Seq<char>
    decreases parts.len(),
{
    if parts.len() == 0 {
        Seq::empty()
    } else if parts.len() == 1 {
        parts[0]
    } else {
        joined(parts.drop_last(), separator) + separator + parts.last()
    }
}

/// The trimmed forms of `elements` that are not empty, in their order.
pub open spec fn trimmed_parts(elements: Seq<Seq<char>>) -> Seq<Seq<char>> {
    elements.map_values(|element: Seq<char>| trimmed(element)).filter(
        |part: Seq<char>| part.len() > 0,
    )
}

/// Joins the trimmed forms of `elements` with `separator`; an element
/// that is empty or holds whitespace only is left out.
pub fn join_trimmed(separator: &str, elements: &Vec<&str>) -> (r: String)
    ensures
        r@ == joined(trimmed_parts(elements.deep_view()), separator@),
{
    let ghost all = elements.deep_view();
    let ghost to_trimmed = |element: Seq<char>| trimmed(element);
    let ghost is_part = |part: Seq<char>| part.len() > 0;
    let mut result = String::new();
    let mut first = true;
    let mut i: usize = 0;
    proof {
        reveal(Seq::filter);
        assert(all.take(0).map_values(to_trimmed) =~= Seq::<Seq<char>>::empty());
    }
    while i < elements.len()
        invariant
            i <= elements.len(),
            all == elements.deep_view(),
            to_trimmed == |element: Seq<char>| trimmed(element),
            is_part == |part: Seq<char>| part.len() > 0,
            first == (trimmed_parts(all.take(i as int)).len() == 0),
            result@ == joined(trimmed_parts(all.take(i as int)), separator@),
        decreases elements.len() - i,
    {
        let part = trim(elements[i]);
        proof {
            let seen = all.take(i as int);
            let parts = trimmed_parts(seen);
            assert(all[i as int] == elements[i as int]@);
            assert(all.take(i + 1) =~= seen.push(all[i as int]));
            assert(seen.push(all[i as int]).map_values(to_trimmed) =~= seen.map_values(
                to_trimmed,
            ).push(part@));
            seen.map_values(to_trimmed).lemma_filter_push(part@, is_part);
            if part@.len() > 0 {
                assert(parts.push(part@).drop_last() =~= parts);
                assert(parts.push(part@).last() == part@);
            }
        }
        if !part.is_empty() {
            if !first {
                result.append(separator);
            }
            result.append(part);
            first = false;
        }
        i += 1;
    }
    assert(all.take(elements.len() as int) =~= all);
    result
}

} // verus!
