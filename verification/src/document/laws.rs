//! What holds of every configuration: of reading, of setting the theme
//! and of writing the text out again.

use crate::document::config::{
    between, lead_of, parsed, separator, tail_of, text_of, ConfigView,
    DEFAULT_INDICATOR_THEME_END, DEFAULT_INDICATOR_THEME_START,
};
use crate::document::error::ConfigError;
use crate::strings::{
    is_single_index, lemma_single_index_at, lemma_single_index_is, occurs_at, segment_of,
    single_index,
};
use crate::trim::{
    ends_tight, is_tight, is_whitespace, lemma_trimmed_bounds_exist,
    lemma_trimmed_is_empty_or_tight, lemma_trimmed_is_subrange, starts_tight, trimmed,
};
use vstd::prelude::*;

verus! {

/// `s` holds no line break.
pub open spec fn is_line(s: Seq<char>) -> bool {
    forall|i: int| 0 <= i < s.len() ==> #[trigger] s[i] != '\n'
}

/// `needle` stands nowhere in `haystack`.
pub open spec fn never_occurs(haystack: Seq<char>, needle: Seq<char>) -> bool {
    forall|i: int| !occurs_at(haystack, needle, i)
}

/// `needle` stands in `haystack` at one offset at most.
pub open spec fn occurs_at_most_once(haystack: Seq<char>, needle: Seq<char>) -> bool {
    forall|i: int, j: int|
        occurs_at(haystack, needle, i) && occurs_at(haystack, needle, j) ==> i == j
}

/// `start` and `end` are indicator lines: each is a tight text without a
/// line break, and neither stands in the other.
pub open spec fn are_indicator_lines(start: Seq<char>, end: Seq<char>) -> bool {
    &&& is_tight(start)
    &&& is_tight(end)
    &&& is_line(start)
    &&& is_line(end)
    &&& never_occurs(start, end)
    &&& never_occurs(end, start)
}

/// Reading a text gives a configuration whose present parts are all
/// segments, with the indicators that were used.
pub proof fn lemma_parsed_is_wf(source: Seq<char>, start: Seq<char>, end: Seq<char>)
    ensures
        parsed(source, start, end) matches Ok(v) ==> v.wf() && v.indicator_theme_start == start
            && v.indicator_theme_end == end,
{
    if let (Some(s), Some(e)) = (single_index(source, start), single_index(source, end)) {
        lemma_trimmed_is_empty_or_tight(source.subrange(0, s));
        lemma_trimmed_is_empty_or_tight(between(source, s + start.len(), e));
        lemma_trimmed_is_empty_or_tight(source.subrange(e + end.len(), source.len() as int));
    }
    lemma_trimmed_is_empty_or_tight(source);
}

/// A text in which the start indicator stands exactly once and the end
/// indicator nowhere cannot be read: an indicator is missing. The same
/// holds with the two indicators exchanged.
pub proof fn lemma_parsed_asymmetric(source: Seq<char>, start: Seq<char>, end: Seq<char>)
    requires
        single_index(source, start) is Some != single_index(source, end) is Some,
    ensures
        parsed(source, start, end) == Err::<ConfigView, ConfigError>(
            ConfigError::MissingThemeIndicator,
        ),
{
}

/// A text in which each indicator stands exactly once, the end indicator
/// at the smaller offset, cannot be read: the order is wrong.
pub proof fn lemma_parsed_reversed(
    source: Seq<char>,
    start: Seq<char>,
    end: Seq<char>,
    s: int,
    e: int,
)
    requires
        single_index(source, start) == Some(s),
        single_index(source, end) == Some(e),
        e < s,
    ensures
        parsed(source, start, end) == Err::<ConfigView, ConfigError>(
            ConfigError::ThemeIndicatorsWrongOrder,
        ),
{
}

/// Reading succeeds exactly where both indicators stand in the text
/// exactly once, start not after end, or neither does.
pub proof fn lemma_parsed_ok_iff(source: Seq<char>, start: Seq<char>, end: Seq<char>)
    ensures
        parsed(source, start, end) is Ok <==> {
            ||| single_index(source, start) is None && single_index(source, end) is None
            ||| single_index(source, start) is Some && single_index(source, end) is Some
                && single_index(source, start)->0 <= single_index(source, end)->0
        },
{
}

/// The rendered text is empty or starts and ends with a character that
/// is no whitespace.
pub proof fn lemma_rendered_is_empty_or_tight(v: ConfigView)
    ensures
        v.rendered().len() == 0 || is_tight(v.rendered()),
{
    lemma_trimmed_is_empty_or_tight(v.assembled());
}

/// The rendered text written out. Where the final trim leaves both
/// indicators whole, the text is the first static part, the start
/// indicator, the theme, the end indicator and the second static part,
/// each two of them a blank line apart, and an absent static part takes
/// its blank line with it.
pub proof fn lemma_rendered_is_canonical(v: ConfigView)
    requires
        v.wf(),
        v.keeps_indicators(),
    ensures
        v.rendered() == v.canonical(),
{
    let a = v.assembled();
    let n = a.len() as int;
    let sep = separator();
    assert(is_whitespace('\n'));
    assert(sep.len() == 2 && sep[0] == '\n' && sep[1] == '\n');
    let first = text_of(v.static_first);
    let second = text_of(v.static_second);
    let core = v.indicator_theme_start + sep + text_of(v.theme) + sep + v.indicator_theme_end;
    assert(a =~= first + sep + core + sep + second);
    let lo: int = if v.static_first is Some { 0 } else { 2 };
    let hi: int = if v.static_second is Some { n } else { n - 2 };
    assert(core.len() > 0) by {
        if v.static_first is None {
        } else if v.static_second is None {
        } else {
        }
    }
    assert(lo < hi);
    assert forall|i: int| 0 <= i < lo implies is_whitespace(#[trigger] a[i]) by {
        assert(a[i] == sep[i]);
    }
    assert forall|i: int| hi <= i < n implies is_whitespace(#[trigger] a[i]) by {
        assert(a[i] == sep[i - hi]);
    }
    assert(!is_whitespace(a[lo])) by {
        if v.static_first is Some {
            assert(a[0] == first[0]);
        } else {
            assert(a[2] == v.indicator_theme_start[0]);
        }
    }
    assert(!is_whitespace(a[hi - 1])) by {
        if v.static_second is Some {
            assert(a[n - 1] == second.last());
        } else {
            assert(a[n - 3] == v.indicator_theme_end.last());
        }
    }
    lemma_trimmed_is_subrange(a, lo, hi);
    assert(a.subrange(lo, hi) =~= v.canonical());
}

/// Setting the theme changes the theme only, and the text written out
/// afterwards holds the untouched static parts, both indicators and the
/// trimmed theme, each two of them a blank line apart.
pub proof fn lemma_theme_set_then_rendered(v: ConfigView, theme: Seq<char>)
    requires
        v.wf(),
        v.keeps_indicators(),
    ensures
        v.with_theme(theme).wf(),
        v.with_theme(theme).static_first == v.static_first,
        v.with_theme(theme).static_second == v.static_second,
        v.with_theme(theme).indicator_theme_start == v.indicator_theme_start,
        v.with_theme(theme).indicator_theme_end == v.indicator_theme_end,
        v.with_theme(theme).theme == segment_of(theme),
        v.with_theme(theme).rendered() == lead_of(v.static_first) + v.indicator_theme_start
            + separator() + text_of(segment_of(theme)) + separator() + v.indicator_theme_end
            + tail_of(v.static_second),
{
    lemma_trimmed_is_empty_or_tight(theme);
    lemma_rendered_is_canonical(v.with_theme(theme));
}

/// A text in which neither indicator stands is read as a configuration
/// without a theme. After its theme is set, the text written out is the
/// trimmed source, the start indicator, the trimmed theme and the end
/// indicator, each two of them a blank line apart, where the final trim
/// leaves both indicators whole.
pub proof fn lemma_theme_set_after_reading_plain_text(
    source: Seq<char>,
    start: Seq<char>,
    end: Seq<char>,
    theme: Seq<char>,
)
    requires
        never_occurs(source, start),
        never_occurs(source, end),
        segment_of(source) is None ==> starts_tight(start),
        ends_tight(end),
    ensures
        parsed(source, start, end) matches Ok(v) && v.theme is None && v.static_first
            == segment_of(source) && v.static_second is None && v.with_theme(theme).rendered()
            == lead_of(segment_of(source)) + start + separator() + text_of(segment_of(theme))
            + separator() + end,
{
    lemma_parsed_is_wf(source, start, end);
    let v = parsed(source, start, end)->Ok_0;
    lemma_theme_set_then_rendered(v, theme);
    assert(lead_of(v.static_first) + start + separator() + text_of(segment_of(theme))
        + separator() + end + tail_of(v.static_second) =~= lead_of(segment_of(source)) + start
        + separator() + text_of(segment_of(theme)) + separator() + end);
}

/// A separator and a segment around each other trim to the segment.
proof fn lemma_segment_of_padded(segment: Option<Seq<char>>, before: bool, after: bool)
    requires
        segment matches Some(s) ==> is_tight(s),
    ensures
        segment_of(
            (if before {
                separator()
            } else {
                Seq::empty()
            }) + text_of(segment) + (if after {
                separator()
            } else {
                Seq::empty()
            }),
        ) == segment,
{
    let sep = separator();
    assert(is_whitespace('\n'));
    let left = if before {
        sep
    } else {
        Seq::empty()
    };
    let right = if after {
        sep
    } else {
        Seq::empty()
    };
    let body = text_of(segment);
    let padded = left + body + right;
    let lo = left.len() as int;
    let hi = lo + body.len();
    assert forall|i: int| 0 <= i < lo implies is_whitespace(#[trigger] padded[i]) by {
        assert(padded[i] == sep[i]);
    }
    assert forall|i: int| hi <= i < padded.len() implies is_whitespace(#[trigger] padded[i]) by {
        assert(padded[i] == sep[i - hi]);
    }
    if lo < hi {
        assert(padded[lo] == body[0]);
        assert(padded[hi - 1] == body.last());
    }
    lemma_trimmed_is_subrange(padded, lo, hi);
    assert(padded.subrange(lo, hi) =~= body);
}

/// The five parts of a text that is put together from them.
proof fn lemma_five_parts(
    a: Seq<char>,
    b: Seq<char>,
    c: Seq<char>,
    d: Seq<char>,
    e: Seq<char>,
)
    ensures
        ({
            let all = a + b + c + d + e;
            let i = a.len() as int;
            let j = i + b.len();
            let k = j + c.len();
            let l = k + d.len();
            &&& all.len() == l + e.len()
            &&& all.subrange(0, i) == a
            &&& all.subrange(i, j) == b
            &&& all.subrange(j, k) == c
            &&& all.subrange(k, l) == d
            &&& all.subrange(l, all.len() as int) == e
        }),
{
    let all = a + b + c + d + e;
    let i = a.len() as int;
    let j = i + b.len();
    let k = j + c.len();
    let l = k + d.len();
    assert(all.subrange(0, i) =~= a);
    assert(all.subrange(i, j) =~= b);
    assert(all.subrange(j, k) =~= c);
    assert(all.subrange(k, l) =~= d);
    assert(all.subrange(l, all.len() as int) =~= e);
}

/// The rendered text, where it is the canonical one, holds the parts of
/// the configuration at their offsets.
proof fn lemma_canonical_parts(v: ConfigView)
    ensures
        ({
            let c = v.canonical();
            let so = v.start_offset();
            let eo = v.end_offset();
            let start = v.indicator_theme_start;
            let end = v.indicator_theme_end;
            &&& 0 <= so
            &&& so + start.len() <= eo
            &&& eo + end.len() <= c.len()
            &&& c.subrange(0, so) == lead_of(v.static_first)
            &&& c.subrange(so, so + start.len()) == start
            &&& c.subrange(so + start.len(), eo) == separator() + text_of(v.theme) + separator()
            &&& c.subrange(eo, eo + end.len()) == end
            &&& c.subrange(eo + end.len(), c.len() as int) == tail_of(v.static_second)
        }),
{
    let middle = separator() + text_of(v.theme) + separator();
    assert(v.canonical() =~= lead_of(v.static_first) + v.indicator_theme_start + middle
        + v.indicator_theme_end + tail_of(v.static_second));
    lemma_five_parts(
        lead_of(v.static_first),
        v.indicator_theme_start,
        middle,
        v.indicator_theme_end,
        tail_of(v.static_second),
    );
}

/// Reading the rendered text with the same indicators gives the
/// configuration back, with the same parts, where the final trim leaves
/// both indicators whole and each indicator stands in the rendered text
/// exactly once.
pub proof fn lemma_rendered_reads_back(v: ConfigView)
    requires
        v.wf(),
        v.keeps_indicators(),
        single_index(v.rendered(), v.indicator_theme_start) is Some,
        single_index(v.rendered(), v.indicator_theme_end) is Some,
    ensures
        single_index(v.rendered(), v.indicator_theme_start) == Some(v.start_offset()),
        single_index(v.rendered(), v.indicator_theme_end) == Some(v.end_offset()),
        parsed(v.rendered(), v.indicator_theme_start, v.indicator_theme_end) == Ok::<
            ConfigView,
            ConfigError,
        >(v),
{
    lemma_rendered_is_canonical(v);
    lemma_canonical_parts(v);
    let r = v.rendered();
    let start = v.indicator_theme_start;
    let end = v.indicator_theme_end;
    let so = v.start_offset();
    let eo = v.end_offset();
    lemma_single_index_at(r, start, so);
    lemma_single_index_at(r, end, eo);
    let first = r.subrange(0, so);
    let theme = between(r, so + start.len(), eo);
    let second = r.subrange(eo + end.len(), r.len() as int);
    assert(segment_of(first) == v.static_first) by {
        lemma_segment_of_padded(v.static_first, false, v.static_first is Some);
        assert(first =~= Seq::<char>::empty() + text_of(v.static_first) + (if v.static_first is Some {
            separator()
        } else {
            Seq::empty()
        }));
    }
    assert(segment_of(theme) == v.theme) by {
        lemma_segment_of_padded(v.theme, true, true);
    }
    assert(segment_of(second) == v.static_second) by {
        lemma_segment_of_padded(v.static_second, v.static_second is Some, false);
        assert(second =~= (if v.static_second is Some {
            separator()
        } else {
            Seq::empty()
        }) + text_of(v.static_second) + Seq::<char>::empty());
    }
}

/// A text that stands in a part of `text` stands in `text`.
proof fn lemma_occurs_in_part(text: Seq<char>, from: int, to: int, needle: Seq<char>, i: int)
    requires
        0 <= from <= to <= text.len(),
        occurs_at(text.subrange(from, to), needle, i),
    ensures
        occurs_at(text, needle, from + i),
        from + i + needle.len() <= to,
{
    let part = text.subrange(from, to);
    assert(part.subrange(i, i + needle.len()) =~= text.subrange(
        from + i,
        from + i + needle.len(),
    ));
}

/// A text that stands in the trimmed form of `text` stands in `text`.
proof fn lemma_occurs_in_trimmed(text: Seq<char>, needle: Seq<char>, i: int) -> (k: int)
    requires
        occurs_at(trimmed(text), needle, i),
    ensures
        occurs_at(text, needle, k),
{
    let b = lemma_trimmed_bounds_exist(text);
    lemma_occurs_in_part(text, b.0, b.1, needle, i);
    b.0 + i
}

/// A line that stands in two texts a blank line apart stands in the
/// first or in the second of them.
proof fn lemma_line_avoids_separator(
    first: Seq<char>,
    second: Seq<char>,
    needle: Seq<char>,
    p: int,
)
    requires
        is_line(needle),
        needle.len() > 0,
        occurs_at(first + separator() + second, needle, p),
    ensures
        occurs_at(first, needle, p) || (p >= first.len() + 2 && occurs_at(
            second,
            needle,
            p - first.len() - 2,
        )),
{
    let sep = separator();
    let whole = first + sep + second;
    let n = needle.len() as int;
    let a = first.len() as int;
    let found = whole.subrange(p, p + n);
    if p + n <= a {
        assert(first.subrange(p, p + n) =~= found);
    } else if p >= a + 2 {
        assert(second.subrange(p - a - 2, p - a - 2 + n) =~= found);
    } else {
        let q = if p >= a {
            p
        } else {
            a
        };
        assert(whole[q] == '\n') by {
            assert(whole[q] == sep[q - a]);
        }
        assert(found[q - p] == whole[q]);
        assert(needle[q - p] == '\n');
    }
}

/// Where a line stands in the canonical text, it stands in one of its
/// five blocks.
proof fn lemma_line_in_canonical(v: ConfigView, needle: Seq<char>, p: int)
    requires
        is_line(needle),
        needle.len() > 0,
        occurs_at(v.canonical(), needle, p),
    ensures
        ({
            ||| v.static_first matches Some(first) && occurs_at(first, needle, p)
            ||| occurs_at(v.indicator_theme_start, needle, p - v.start_offset())
            ||| v.theme matches Some(theme) && occurs_at(
                theme,
                needle,
                p - v.start_offset() - v.indicator_theme_start.len() - 2,
            )
            ||| occurs_at(v.indicator_theme_end, needle, p - v.end_offset())
            ||| v.static_second matches Some(second) && occurs_at(
                second,
                needle,
                p - v.end_offset() - v.indicator_theme_end.len() - 2,
            )
        }),
{
    let sep = separator();
    let start = v.indicator_theme_start;
    let end = v.indicator_theme_end;
    let theme = text_of(v.theme);
    let so = v.start_offset();
    let eo = v.end_offset();
    let from_end = end + tail_of(v.static_second);
    let from_theme = theme + sep + from_end;
    let from_start = start + sep + from_theme;
    assert(v.canonical() =~= lead_of(v.static_first) + from_start);
    let q1 = p - so;
    let q2 = q1 - start.len() - 2;
    let q3 = q2 - theme.len() - 2;
    assert(q3 == p - eo);
    // Before the start indicator, or from it on.
    if v.static_first is Some {
        let first = v.static_first->0;
        assert(lead_of(v.static_first) + from_start =~= first + sep + from_start);
        lemma_line_avoids_separator(first, from_start, needle, p);
    } else {
        assert(lead_of(v.static_first) + from_start =~= from_start);
    }
    if occurs_at(from_start, needle, q1) {
        lemma_line_avoids_separator(start, from_theme, needle, q1);
        if occurs_at(from_theme, needle, q2) {
            lemma_line_avoids_separator(theme, from_end, needle, q2);
            if occurs_at(from_end, needle, q3) {
                if v.static_second is Some {
                    let second = v.static_second->0;
                    assert(from_end =~= end + sep + second);
                    lemma_line_avoids_separator(end, second, needle, q3);
                } else {
                    assert(from_end =~= end);
                }
            }
        }
    }
}

/// The parts of a configuration that was read from a text in which each
/// indicator stands once at most hold neither indicator.
proof fn lemma_parts_hold_no_indicator(
    source: Seq<char>,
    start: Seq<char>,
    end: Seq<char>,
    v: ConfigView,
    needle: Seq<char>,
)
    requires
        start.len() > 0,
        end.len() > 0,
        needle == start || needle == end,
        occurs_at_most_once(source, start),
        occurs_at_most_once(source, end),
        parsed(source, start, end) == Ok::<ConfigView, ConfigError>(v),
    ensures
        v.static_first matches Some(first) ==> never_occurs(first, needle),
        v.theme matches Some(theme) ==> never_occurs(theme, needle),
        v.static_second matches Some(second) ==> never_occurs(second, needle),
{
    let n = source.len() as int;
    match (single_index(source, start), single_index(source, end)) {
        (Some(s), Some(e)) => {
            assert(occurs_at(source, start, s));
            assert(occurs_at(source, end, e));
            if v.static_first is Some {
                let first = v.static_first->0;
                assert forall|i: int| !occurs_at(first, needle, i) by {
                    if occurs_at(first, needle, i) {
                        let b = lemma_trimmed_bounds_exist(source.subrange(0, s));
                        lemma_occurs_in_part(source.subrange(0, s), b.0, b.1, needle, i);
                        lemma_occurs_in_part(source, 0, s, needle, b.0 + i);
                    }
                }
            }
            if v.theme is Some {
                let theme = v.theme->0;
                let inner = between(source, s + start.len(), e);
                assert(s + start.len() <= e) by {
                    if s + start.len() > e {
                        assert(inner.len() == 0);
                        assert(trimmed(inner) == inner);
                    }
                }
                assert forall|i: int| !occurs_at(theme, needle, i) by {
                    if occurs_at(theme, needle, i) {
                        let b = lemma_trimmed_bounds_exist(inner);
                        lemma_occurs_in_part(inner, b.0, b.1, needle, i);
                        lemma_occurs_in_part(source, s + start.len(), e, needle, b.0 + i);
                    }
                }
            }
            if v.static_second is Some {
                let second = v.static_second->0;
                let rest = source.subrange(e + end.len(), n);
                assert forall|i: int| !occurs_at(second, needle, i) by {
                    if occurs_at(second, needle, i) {
                        let b = lemma_trimmed_bounds_exist(rest);
                        lemma_occurs_in_part(rest, b.0, b.1, needle, i);
                        lemma_occurs_in_part(source, e + end.len(), n, needle, b.0 + i);
                    }
                }
            }
        },
        (None, None) => {
            if v.static_first is Some {
                let first = v.static_first->0;
                assert forall|i: int| !occurs_at(first, needle, i) by {
                    if occurs_at(first, needle, i) {
                        let k = lemma_occurs_in_trimmed(source, needle, i);
                        assert(is_single_index(source, needle, k));
                        lemma_single_index_is(source, needle, k);
                    }
                }
            }
        },
        _ => {},
    }
}

/// An indicator line stands in the canonical text of a configuration
/// only where the text holds it as the indicator, if the parts of the
/// configuration do not hold it.
proof fn lemma_indicator_line_stands_once(v: ConfigView, needle: Seq<char>, at: int)
    requires
        are_indicator_lines(v.indicator_theme_start, v.indicator_theme_end),
        needle == v.indicator_theme_start && at == v.start_offset() || needle
            == v.indicator_theme_end && at == v.end_offset(),
        v.static_first matches Some(first) ==> never_occurs(first, needle),
        v.theme matches Some(theme) ==> never_occurs(theme, needle),
        v.static_second matches Some(second) ==> never_occurs(second, needle),
    ensures
        is_single_index(v.canonical(), needle, at),
{
    lemma_canonical_parts(v);
    let c = v.canonical();
    assert forall|j: int| #[trigger] occurs_at(c, needle, j) implies j == at by {
        lemma_line_in_canonical(v, needle, j);
    }
}

/// Reading, writing out and reading again gives the first reading back
/// for every text in which each indicator stands once at most, where the
/// indicators are indicator lines: the canonical text holds each
/// indicator exactly once, where the configuration has it.
pub proof fn lemma_reading_survives_rendering(
    source: Seq<char>,
    start: Seq<char>,
    end: Seq<char>,
    v: ConfigView,
)
    requires
        are_indicator_lines(start, end),
        occurs_at_most_once(source, start),
        occurs_at_most_once(source, end),
        parsed(source, start, end) == Ok::<ConfigView, ConfigError>(v),
    ensures
        single_index(v.rendered(), start) == Some(v.start_offset()),
        single_index(v.rendered(), end) == Some(v.end_offset()),
        parsed(v.rendered(), start, end) == Ok::<ConfigView, ConfigError>(v),
{
    lemma_parsed_is_wf(source, start, end);
    lemma_rendered_is_canonical(v);
    lemma_parts_hold_no_indicator(source, start, end, v, start);
    lemma_indicator_line_stands_once(v, start, v.start_offset());
    lemma_single_index_is(v.rendered(), start, v.start_offset());
    lemma_parts_hold_no_indicator(source, start, end, v, end);
    lemma_indicator_line_stands_once(v, end, v.end_offset());
    lemma_single_index_is(v.rendered(), end, v.end_offset());
    lemma_rendered_reads_back(v);
}

/// The default indicators are indicator lines.
pub proof fn lemma_default_indicators_are_lines()
    ensures
        are_indicator_lines(DEFAULT_INDICATOR_THEME_START@, DEFAULT_INDICATOR_THEME_END@),
{
    reveal_strlit("### apas_75 theme start ###");
    reveal_strlit("### apas_75 theme end ###");
    let start = DEFAULT_INDICATOR_THEME_START@;
    let end = DEFAULT_INDICATOR_THEME_END@;
    assert(start.len() == 27);
    assert(end.len() == 25);
    assert(start[0] == '#' && start[26] == '#');
    assert(end[0] == '#' && end[24] == '#');
    assert forall|i: int| !occurs_at(start, end, i) by {
        if occurs_at(start, end, i) {
            // The end indicator would stand at offset 0, 1 or 2.
            let found = start.subrange(i, i + 25);
            assert(found[17] == end[17]);
            assert(found[18] == end[18]);
            assert(found[19] == end[19]);
            assert(start[i + 17] == found[17]);
            assert(start[i + 18] == found[18]);
            assert(start[i + 19] == found[19]);
        }
    }
    assert forall|i: int| !occurs_at(end, start, i) by {
    }
}

} // verus!
