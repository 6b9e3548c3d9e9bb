//! The specifier classifier: one pass over a template string that emits,
//! in order, a classified argument-kind tag per conversion specifier and the
//! literal text segment preceding each specifier (plus one trailing segment).
//!
//! By convention the template always ends in a two-character sentinel that is
//! not a real specifier; the scan therefore never classifies a specifier that
//! would consume either of the template's last two characters.

use vstd::prelude::*;
use crate::cursor::DoublePeekIterator;

verus! {

/// The most specifiers one template may yield; entries past this many are
/// dropped silently (a tuning parameter, not a semantic contract).
pub const MAX_SPECIFIERS: usize = 50;

/// The closed set of argument kinds a conversion specifier can denote.
#[derive(Debug, Clone, Copy, PartialEq, Eq, Structural)]
pub enum ArgType {
    Integer,
    UnsignedInteger,
    UnsignedIntegerHex,
    FloatingPoint,
    Character,
    String,
    Pointer,
    WriteBytes,
    Literal,
    Unknown,
}

/// One classified specifier: its argument kind and whether an `l` length
/// modifier asked for the long (64-bit) width.
#[derive(Debug, Clone, Copy, PartialEq, Eq, Structural)]
pub struct Tag {
    pub kind: ArgType,
    pub long: bool,
}

/// A literal piece of the template, as a (start, length) pair of character
/// indices into the original string; owning no text keeps segments zero-copy.
#[derive(Debug, Clone, Copy, PartialEq, Eq, Structural)]
pub struct Segment {
    pub start: usize,
    pub len: usize,
}

/// The kind a plain (unmodified) conversion letter maps to.
pub open spec fn plain_kind(c: char) -> ArgType {
    if c == 'd' || c == 'i' {
        ArgType::Integer
    } else if c == 'u' || c == 'o' {
        ArgType::UnsignedInteger
    } else if c == 'x' || c == 'X' {
        ArgType::UnsignedIntegerHex
    } else if c == 'f' || c == 'F' || c == 'e' || c == 'E' || c == 'g' || c == 'G' || c == 'a'
        || c == 'A' {
        ArgType::FloatingPoint
    } else if c == 'c' {
        ArgType::Character
    } else if c == 's' {
        ArgType::String
    } else if c == 'p' {
        ArgType::Pointer
    } else if c == 'n' {
        ArgType::WriteBytes
    } else if c == '%' {
        ArgType::Literal
    } else {
        ArgType::Unknown
    }
}

/// The kind a conversion letter maps to after an `l` length modifier.
pub open spec fn long_kind(c: char) -> ArgType {
    if c == 'd' || c == 'i' {
        ArgType::Integer
    } else if c == 'u' || c == 'o' {
        ArgType::UnsignedInteger
    } else {
        ArgType::Unknown
    }
}

/// The tag of the specifier starting at position `p` (where `s[p] == '%'`
/// and at least two characters follow `p`), and how many characters the
/// whole specifier spans.
pub open spec fn spec_at(s: Seq<char>, p: int) -> (int, Tag) {
    if s[p + 1] == 'l' {
        (3, Tag { kind: long_kind(s[p + 2]), long: true })
    } else {
        (2, Tag { kind: plain_kind(s[p + 1]), long: false })
    }
}

/// The trailing literal segment: what lies between `start` and the two-byte
/// sentinel, if that is non-empty.
pub open spec fn tail_segs(s: Seq<char>, start: int) -> Seq<(int, int)> {
    if start < s.len() - 2 {
        seq![(start, s.len() - 2 - start)]
    } else {
        Seq::<(int, int)>::empty()
    }
}

/// One scan of the template from position `p`, with the pending literal
/// segment open since `start`: yields the remaining tags and segments.
/// The scan stops as soon as fewer than two characters remain after the
/// current position, which is how the trailing sentinel escapes
/// classification.
pub open spec fn scan(s: Seq<char>, p: int, start: int) -> (Seq<Tag>, Seq<(int, int)>)
    decreases s.len() - p,
{
    if p + 3 > s.len() {
        (Seq::<Tag>::empty(), tail_segs(s, start))
    } else if s[p] == '%' {
        let st = spec_at(s, p);
        let rest = scan(s, p + st.0, p + st.0);
        (seq![st.1] + rest.0, seq![(start, p - start)] + rest.1)
    } else {
        scan(s, p + 1, start)
    }
}

/// A sequence cut off at a fixed capacity: what a bounded container retains
/// when entries past `cap` are dropped.
pub open spec fn capped<A>(q: Seq<A>, cap: int) -> Seq<A> {
    if q.len() <= cap {
        q
    } else {
        q.take(cap)
    }
}

/// All tags classified from a template, bounded by the fixed capacity.
pub open spec fn spec_tags(t: Seq<char>) -> Seq<Tag> {
    capped(scan(t, 0, 0).0, MAX_SPECIFIERS as int)
}

/// All literal segments of a template, bounded by the fixed capacity.
pub open spec fn spec_segs(t: Seq<char>) -> Seq<(int, int)> {
    capped(scan(t, 0, 0).1, MAX_SPECIFIERS as int)
}

/// The (start, length) pairs a list of segments denotes.
pub open spec fn seg_views(v: Seq<Segment>) -> Seq<(int, int)> {
    v.map_values(|sg: Segment| (sg.start as int, sg.len as int))
}

/// Scanning from `(p, start)` with `start <= p` yields well-formed output:
/// segment lists one longer than the tag list or equally long, and every
/// segment lying at or after `start` and ending before the sentinel.
pub proof fn lemma_scan_wf(s: Seq<char>, p: int, start: int)
    requires
        0 <= start <= p,
    ensures
        ({
            let r = scan(s, p, start);
            &&& r.1.len() == r.0.len() || r.1.len() == r.0.len() + 1
            &&& forall|k: int|
                0 <= k < r.1.len() ==> (start <= #[trigger] r.1[k].0 && 0 <= r.1[k].1 && r.1[k].0
                    + r.1[k].1 <= s.len() - 2)
        }),
    decreases s.len() - p,
{
    if p + 3 > s.len() {
    } else if s[p] == '%' {
        let st = spec_at(s, p);
        lemma_scan_wf(s, p + st.0, p + st.0);
        let rest = scan(s, p + st.0, p + st.0);
        let r = scan(s, p, start);
        assert(r.1 =~= seq![(start, p - start)] + rest.1);
        assert forall|k: int|
            0 <= k < r.1.len() implies (start <= #[trigger] r.1[k].0 && 0 <= r.1[k].1 && r.1[k].0
            + r.1[k].1 <= s.len() - 2) by {
            if k == 0 {
                assert(r.1[0] == (start, p - start));
            } else {
                assert(r.1[k] == rest.1[k - 1]);
            }
        }
    } else {
        lemma_scan_wf(s, p + 1, start);
    }
}

/// No specifier is ever classified out of a template's final two
/// characters: a template whose every `%` (if any) lies within those two
/// characters classifies to zero tags, and its whole text up to the
/// two-character sentinel is one literal segment (or none, when that text
/// is empty).
pub proof fn lemma_sentinel_never_classified(t: Seq<char>)
    requires
        forall|k: int| 0 <= k < t.len() - 2 ==> t[k] != '%',
    ensures
        spec_tags(t).len() == 0,
        spec_segs(t) == tail_segs(t, 0),
{
    lemma_scan_no_percent(t, 0, 0);
}

/// If no `%` occurs anywhere from position `p` up to the template's final
/// two characters, the scan from `(p, start)` classifies nothing and yields
/// only the trailing segment.
proof fn lemma_scan_no_percent(s: Seq<char>, p: int, start: int)
    requires
        0 <= start <= p,
        forall|k: int| p <= k < s.len() - 2 ==> s[k] != '%',
    ensures
        scan(s, p, start) == (Seq::<Tag>::empty(), tail_segs(s, start)),
    decreases s.len() - p,
{
    if p + 3 > s.len() {
    } else {
        lemma_scan_no_percent(s, p + 1, start);
    }
}

/// Walks the template once and returns its classified argument-kind tags and
/// its literal segments, index-aligned and capped at the fixed capacity.
/// Exceeding the capacity drops further entries without disturbing the ones
/// already classified.
pub fn extract_types(format_string: &str) -> (r: (Vec<Tag>, Vec<Segment>))
    ensures
        r.0@ == spec_tags(format_string@),
        seg_views(r.1@) == spec_segs(format_string@),
        r.1@.len() == r.0@.len() || r.1@.len() == r.0@.len() + 1,
        forall|k: int|
            0 <= k < r.1@.len() ==> #[trigger] r.1@[k].start + r.1@[k].len <= format_string@.len(),
{
    let ghost t = format_string@;
    let mut tags: Vec<Tag> = Vec::new();
    let mut segs: Vec<Segment> = Vec::new();
    let n = format_string.unicode_len();
    // the scan never looks at the template's final two characters as the
    // start of a specifier, so it ends two positions early
    let bound: usize = if n >= 3 {
        n - 2
    } else {
        0
    };
    let mut chars = DoublePeekIterator::new(format_string);
    let mut i: usize = 0;
    let mut start_index: usize = 0;
    let ghost total = scan(t, 0, 0);
    let ghost mut done_tags: Seq<Tag> = Seq::empty();
    let ghost mut done_segs: Seq<(int, int)> = Seq::empty();

    proof {
        assert(total.0 =~= done_tags + scan(t, i as int, start_index as int).0);
        assert(total.1 =~= done_segs + scan(t, i as int, start_index as int).1);
    }

    while i < bound
        invariant
            bound == (if n >= 3 {
                n - 2
            } else {
                0
            }),
            n == t.len(),
            chars.wf(),
            chars.chars() == t,
            chars.position() == i as int,
            start_index <= i <= n,
            total == scan(t, 0, 0),
            total.0 == done_tags + scan(t, i as int, start_index as int).0,
            total.1 == done_segs + scan(t, i as int, start_index as int).1,
            done_tags.len() == done_segs.len(),
            tags@ == capped(done_tags, MAX_SPECIFIERS as int),
            seg_views(segs@) == capped(done_segs, MAX_SPECIFIERS as int),
        decreases n - i,
    {
        let c = chars.next().unwrap();
        if c == '%' {
            let next_char = chars.peek().unwrap();
            let (skipped_chars, tag): (usize, Tag) = if next_char == 'l' {
                let after = chars.peek2().unwrap();
                let kind = if after == 'd' || after == 'i' {
                    ArgType::Integer
                } else if after == 'u' || after == 'o' {
                    ArgType::UnsignedInteger
                } else {
                    ArgType::Unknown
                };
                (3, Tag { kind, long: true })
            } else {
                let kind = if next_char == 'd' || next_char == 'i' {
                    ArgType::Integer
                } else if next_char == 'u' || next_char == 'o' {
                    ArgType::UnsignedInteger
                } else if next_char == 'x' || next_char == 'X' {
                    ArgType::UnsignedIntegerHex
                } else if next_char == 'f' || next_char == 'F' || next_char == 'e' || next_char
                    == 'E' || next_char == 'g' || next_char == 'G' || next_char == 'a' || next_char
                    == 'A' {
                    ArgType::FloatingPoint
                } else if next_char == 'c' {
                    ArgType::Character
                } else if next_char == 's' {
                    ArgType::String
                } else if next_char == 'p' {
                    ArgType::Pointer
                } else if next_char == 'n' {
                    ArgType::WriteBytes
                } else if next_char == '%' {
                    ArgType::Literal
                } else {
                    ArgType::Unknown
                };
                (2, Tag { kind, long: false })
            };
            proof {
                assert(spec_at(t, i as int) == (skipped_chars as int, tag));
            }
            if tags.len() < MAX_SPECIFIERS {
                tags.push(tag);
                segs.push(Segment { start: start_index, len: i - start_index });
            }
            proof {
                let rest = scan(t, i as int, start_index as int);
                assert(rest.0 =~= seq![tag] + scan(
                    t,
                    i + skipped_chars,
                    i + skipped_chars,
                ).0);
                assert(rest.1 =~= seq![(start_index as int, i - start_index)] + scan(
                    t,
                    i + skipped_chars,
                    i + skipped_chars,
                ).1);
                done_tags = done_tags + seq![tag];
                done_segs = done_segs + seq![(start_index as int, i - start_index)];
                assert(total.0 =~= done_tags + scan(t, i + skipped_chars, i + skipped_chars).0);
                assert(total.1 =~= done_segs + scan(t, i + skipped_chars, i + skipped_chars).1);
                if done_tags.len() <= MAX_SPECIFIERS {
                    assert(capped(done_tags, MAX_SPECIFIERS as int) =~= capped(
                        done_tags.drop_last(),
                        MAX_SPECIFIERS as int,
                    ).push(tag));
                    assert(capped(done_segs, MAX_SPECIFIERS as int) =~= capped(
                        done_segs.drop_last(),
                        MAX_SPECIFIERS as int,
                    ).push((start_index as int, i - start_index)));
                    assert(seg_views(segs@) =~= capped(done_segs, MAX_SPECIFIERS as int));
                } else {
                    assert(capped(done_tags, MAX_SPECIFIERS as int) =~= capped(
                        done_tags.drop_last(),
                        MAX_SPECIFIERS as int,
                    ));
                    assert(capped(done_segs, MAX_SPECIFIERS as int) =~= capped(
                        done_segs.drop_last(),
                        MAX_SPECIFIERS as int,
                    ));
                }
            }
            // advance past the rest of the specifier (its first character,
            // the '%', is already consumed)
            let _ = chars.next();
            if skipped_chars == 3 {
                let _ = chars.next();
            }
            i = i + skipped_chars;
            start_index = i;
        } else {
            i = i + 1;
        }
    }
    proof {
        // past the loop, fewer than two characters remain after position i
        assert(scan(t, i as int, start_index as int) == (
            Seq::<Tag>::empty(),
            tail_segs(t, start_index as int),
        ));
        assert(total.0 =~= done_tags);
    }
    // everything from the last specifier up to the two-character sentinel
    // is the trailing literal segment, if it is non-empty
    if n >= 2 && start_index < n - 2 {
        if segs.len() < MAX_SPECIFIERS {
            segs.push(Segment { start: start_index, len: n - 2 - start_index });
        }
        proof {
            done_segs = done_segs + seq![(start_index as int, n - 2 - start_index)];
            if done_segs.len() <= MAX_SPECIFIERS {
                assert(seg_views(segs@) =~= capped(done_segs, MAX_SPECIFIERS as int));
            } else {
                assert(capped(done_segs, MAX_SPECIFIERS as int) =~= capped(
                    done_segs.drop_last(),
                    MAX_SPECIFIERS as int,
                ));
            }
        }
    }
    proof {
        assert(total.1 =~= done_segs);
        lemma_scan_wf(t, 0, 0);
        assert(seg_views(segs@) =~= spec_segs(t));
        assert forall|k: int| 0 <= k < segs@.len() implies #[trigger] segs@[k].start
            + segs@[k].len <= t.len() by {
            assert(seg_views(segs@)[k] == (segs@[k].start as int, segs@[k].len as int));
            assert(capped(total.1, MAX_SPECIFIERS as int)[k] == total.1[k]);
            assert(scan(t, 0, 0).1[k].0 + scan(t, 0, 0).1[k].1 <= t.len() - 2);
        }
    }
    (tags, segs)
}

} // verus!
