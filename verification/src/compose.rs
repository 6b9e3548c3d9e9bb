//! The variadic value extractor and message composer: consumes one argument
//! value per value-consuming tag, renders it with the kind-specific rules,
//! and interleaves literal segments with the rendered fragments into one
//! length-bounded message.
//!
//! Every failure degrades instead of aborting: a full buffer drops the whole
//! append, a value of the wrong shape or a missing value yields an empty
//! fragment, and an unsupported kind renders a visible diagnostic
//! placeholder.

use vstd::prelude::*;
use vstd::string::StrSliceExecFns;
use vstd::string::StringExecFns;
use crate::classify::Segment;
use crate::classify::Tag;
use crate::classify::ArgType;
use crate::classify::extract_types;
use crate::classify::seg_views;
use crate::classify::spec_segs;
use crate::classify::spec_tags;
use crate::render::placeholder;
use crate::render::radix_seq;
use crate::render::render_placeholder;
use crate::render::render_radix;
use crate::render::render_signed_dec;
use crate::render::signed_dec_seq;

verus! {

/// The most characters one composed message may hold; an append that would
/// push the buffer past this many characters is dropped whole (a tuning
/// parameter, not a semantic contract).
pub const MAX_MESSAGE_LEN: usize = 500;

/// One value pulled off the variadic argument cursor, already carried at
/// the width the tag asked for. The raw cursor itself lives outside this
/// crate: whoever owns the unsafe calling-convention mechanics extracts one
/// plain value per value-consuming tag and hands the values over in order.
pub enum ArgValue {
    /// A signed integer (`%d`/`%i`, long or standard width).
    Int(i64),
    /// An unsigned integer (`%u`/`%o`/`%x`/`%X`, long or standard width).
    Uint(u64),
    /// A floating-point value, always extracted at double precision; the
    /// extraction boundary renders its decimal text, since this crate holds
    /// no floating point of its own.
    Float(String),
    /// A string argument: the text behind the pointer, or nothing when its
    /// bytes were not valid text (that fragment is then omitted).
    Str(Option<String>),
    /// A pointer argument: the raw address value.
    Ptr(usize),
}

impl Clone for ArgValue {
    fn clone(&self) -> (r: Self)
        ensures
            r == *self,
    {
        match self {
            ArgValue::Int(i) => ArgValue::Int(*i),
            ArgValue::Uint(u) => ArgValue::Uint(*u),
            ArgValue::Float(s) => ArgValue::Float(s.clone()),
            ArgValue::Str(o) => ArgValue::Str(
                match o {
                    Some(s) => Some(s.clone()),
                    None => None,
                },
            ),
            ArgValue::Ptr(p) => ArgValue::Ptr(*p),
        }
    }
}

/// Whether a tag of this kind pulls one value off the argument cursor.
/// Unsupported kinds consume nothing and render a placeholder instead.
pub open spec fn consumes_value(k: ArgType) -> bool {
    match k {
        ArgType::Integer => true,
        ArgType::UnsignedInteger => true,
        ArgType::UnsignedIntegerHex => true,
        ArgType::FloatingPoint => true,
        ArgType::String => true,
        ArgType::Pointer => true,
        ArgType::Character => false,
        ArgType::WriteBytes => false,
        ArgType::Literal => false,
        ArgType::Unknown => false,
    }
}

/// The text fragment a value-consuming tag produces from the value in its
/// slot. Hexadecimal renders upper case with a `0x` prefix; a pointer
/// renders in the debug form, lower-case hex with a `0x` prefix; a value of
/// the wrong shape for its tag yields nothing.
pub open spec fn frag_of(tag: Tag, v: ArgValue) -> Seq<char> {
    match tag.kind {
        ArgType::Integer => match v {
            ArgValue::Int(i) => signed_dec_seq(i as int),
            _ => Seq::<char>::empty(),
        },
        ArgType::UnsignedInteger => match v {
            ArgValue::Uint(u) => radix_seq(u as nat, 10, false),
            _ => Seq::<char>::empty(),
        },
        ArgType::UnsignedIntegerHex => match v {
            ArgValue::Uint(u) => seq!['0', 'x'] + radix_seq(u as nat, 16, true),
            _ => Seq::<char>::empty(),
        },
        ArgType::FloatingPoint => match v {
            ArgValue::Float(s) => s@,
            _ => Seq::<char>::empty(),
        },
        ArgType::String => match v {
            ArgValue::Str(Some(s)) => s@,
            _ => Seq::<char>::empty(),
        },
        ArgType::Pointer => match v {
            ArgValue::Ptr(p) => seq!['0', 'x'] + radix_seq(p as nat, 16, false),
            _ => Seq::<char>::empty(),
        },
        _ => placeholder(tag.kind),
    }
}

/// A bounded append: the whole piece when it fits within the fixed message
/// capacity, otherwise the buffer unchanged.
pub open spec fn buf_app(b: Seq<char>, x: Seq<char>) -> Seq<char> {
    if b.len() + x.len() <= MAX_MESSAGE_LEN {
        b + x
    } else {
        b
    }
}

/// The literal text a segment denotes within the template.
pub open spec fn seg_text(t: Seq<char>, sg: (int, int)) -> Seq<char> {
    t.subrange(sg.0, sg.0 + sg.1)
}

/// The composed message continued from segment/tag index `i`, argument
/// index `j`, and the text accumulated so far: segment `i`, then the
/// fragment of tag `i`, and so on; one trailing segment follows the last
/// tag when the segment list is the longer one.
pub open spec fn compose_rec(
    t: Seq<char>,
    tags: Seq<Tag>,
    segs: Seq<(int, int)>,
    vals: Seq<ArgValue>,
    i: int,
    j: int,
    acc: Seq<char>,
) -> Seq<char>
    decreases tags.len() - i,
{
    if i < 0 || i >= tags.len() {
        if segs.len() > tags.len() {
            buf_app(acc, seg_text(t, segs[segs.len() - 1]))
        } else {
            acc
        }
    } else {
        let with_seg = buf_app(acc, seg_text(t, segs[i]));
        if consumes_value(tags[i].kind) {
            let frag = if 0 <= j < vals.len() {
                frag_of(tags[i], vals[j])
            } else {
                Seq::<char>::empty()
            };
            compose_rec(t, tags, segs, vals, i + 1, j + 1, buf_app(with_seg, frag))
        } else {
            compose_rec(t, tags, segs, vals, i + 1, j, buf_app(with_seg, placeholder(tags[i].kind)))
        }
    }
}

/// The message decoded from a template and the argument values its tags
/// pulled off the cursor, bounded by the fixed message capacity.
pub open spec fn decode_spec(t: Seq<char>, vals: Seq<ArgValue>) -> Seq<char> {
    compose_rec(t, spec_tags(t), spec_segs(t), vals, 0, 0, Seq::<char>::empty())
}

/// Appends a piece to the output buffer if the whole piece fits within the
/// fixed capacity, and drops it otherwise, never truncating mid-way.
fn append_bounded(out: &mut String, piece: &str)
    ensures
        final(out)@ == buf_app(old(out)@, piece@),
{
    let out_len = out.as_str().unicode_len();
    let piece_len = piece.unicode_len();
    if piece_len <= MAX_MESSAGE_LEN && out_len <= MAX_MESSAGE_LEN - piece_len {
        out.append(piece);
    }
}

/// Renders the fragment for one value-consuming tag from the value in its
/// slot.
fn fragment_for(tag: Tag, val: &ArgValue) -> (r: String)
    requires
        consumes_value(tag.kind),
    ensures
        r@ == frag_of(tag, *val),
{
    match tag.kind {
        ArgType::Integer => match val {
            ArgValue::Int(i) => render_signed_dec(*i),
            _ => String::new(),
        },
        ArgType::UnsignedInteger => match val {
            ArgValue::Uint(u) => render_radix(*u, 10, false),
            _ => String::new(),
        },
        ArgType::UnsignedIntegerHex => match val {
            ArgValue::Uint(u) => {
                let mut r = String::from_str("0x");
                r.append(render_radix(*u, 16, true).as_str());
                proof {
                    reveal_strlit("0x");
                    assert(r@ =~= frag_of(tag, *val));
                }
                r
            },
            _ => String::new(),
        },
        ArgType::FloatingPoint => match val {
            ArgValue::Float(s) => s.clone(),
            _ => String::new(),
        },
        ArgType::String => match val {
            ArgValue::Str(Some(s)) => s.clone(),
            _ => String::new(),
        },
        ArgType::Pointer => match val {
            ArgValue::Ptr(p) => {
                let mut r = String::from_str("0x");
                let as_wide: u64 = *p as u64;
                r.append(render_radix(as_wide, 16, false).as_str());
                proof {
                    reveal_strlit("0x");
                    assert(r@ =~= frag_of(tag, *val));
                }
                r
            },
            _ => String::new(),
        },
        _ => String::new(),
    }
}

/// Interleaves the literal segments with the rendered argument values into
/// one composed message of at most the fixed capacity, consuming one value
/// per value-consuming tag, in order.
pub fn compose(template: &str, tags: &Vec<Tag>, segs: &Vec<Segment>, vals: &Vec<ArgValue>) -> (r:
    String)
    requires
        segs@.len() == tags@.len() || segs@.len() == tags@.len() + 1,
        forall|k: int|
            0 <= k < segs@.len() ==> #[trigger] segs@[k].start + segs@[k].len <= template@.len(),
    ensures
        r@ == compose_rec(template@, tags@, seg_views(segs@), vals@, 0, 0, Seq::<char>::empty()),
        r@.len() <= MAX_MESSAGE_LEN,
{
    let ghost t = template@;
    let ghost sv = seg_views(segs@);
    let n = template.unicode_len();
    let mut out = String::new();
    let mut j: usize = 0;
    let mut i: usize = 0;
    while i < tags.len()
        invariant
            n == t.len(),
            t == template@,
            sv == seg_views(segs@),
            segs@.len() == tags@.len() || segs@.len() == tags@.len() + 1,
            forall|k: int|
                0 <= k < segs@.len() ==> #[trigger] segs@[k].start + segs@[k].len <= t.len(),
            i <= tags@.len(),
            j <= i,
            out@.len() <= MAX_MESSAGE_LEN,
            compose_rec(t, tags@, sv, vals@, i as int, j as int, out@) == compose_rec(
                t,
                tags@,
                sv,
                vals@,
                0,
                0,
                Seq::<char>::empty(),
            ),
        decreases tags@.len() - i,
    {
        let sg = segs[i];
        proof {
            assert(sv[i as int] == (sg.start as int, sg.len as int));
            assert(segs@[i as int].start + segs@[i as int].len <= t.len());
        }
        let piece = template.substring_char(sg.start, sg.start + sg.len);
        append_bounded(&mut out, piece);
        let tag = tags[i];
        if arg_consumes(tag.kind) {
            let frag = if j < vals.len() {
                fragment_for(tag, &vals[j])
            } else {
                String::new()
            };
            append_bounded(&mut out, frag.as_str());
            j = j + 1;
        } else {
            let frag = render_placeholder(tag.kind);
            append_bounded(&mut out, frag.as_str());
        }
        i = i + 1;
    }
    if segs.len() > tags.len() {
        let sg = segs[segs.len() - 1];
        proof {
            assert(sv[segs@.len() - 1] == (sg.start as int, sg.len as int));
            assert(segs@[segs@.len() - 1].start + segs@[segs@.len() - 1].len <= t.len());
        }
        let piece = template.substring_char(sg.start, sg.start + sg.len);
        append_bounded(&mut out, piece);
    }
    out
}

/// Whether a tag of this kind pulls one value off the argument cursor.
fn arg_consumes(k: ArgType) -> (b: bool)
    ensures
        b == consumes_value(k),
{
    match k {
        ArgType::Integer => true,
        ArgType::UnsignedInteger => true,
        ArgType::UnsignedIntegerHex => true,
        ArgType::FloatingPoint => true,
        ArgType::String => true,
        ArgType::Pointer => true,
        ArgType::Character => false,
        ArgType::WriteBytes => false,
        ArgType::Literal => false,
        ArgType::Unknown => false,
    }
}

/// Decodes one logged event: classifies the template's specifiers, then
/// interleaves its literal segments with the rendered argument values into
/// one bounded message. Each call is independent and the result is a
/// function of the template and the values alone.
pub fn decode_message(template: &str, vals: &Vec<ArgValue>) -> (r: String)
    ensures
        r@ == decode_spec(template@, vals@),
        r@.len() <= MAX_MESSAGE_LEN,
{
    let (tags, segs) = extract_types(template);
    compose(template, &tags, &segs, vals)
}

/// Decoding is deterministic: the same severity-independent inputs (one
/// template and one list of equivalent argument values) always compose the
/// same message text, no matter how often the decoder runs.
pub proof fn lemma_decode_idempotent(
    t1: Seq<char>,
    vals1: Seq<ArgValue>,
    t2: Seq<char>,
    vals2: Seq<ArgValue>,
)
    requires
        t1 == t2,
        vals1 == vals2,
    ensures
        decode_spec(t1, vals1) == decode_spec(t2, vals2),
{
}

/// A template with zero specifiers composes to exactly its own text with
/// the trailing two-character sentinel removed, whatever argument values
/// are offered, provided that text fits the fixed message capacity.
pub proof fn lemma_no_specifiers_output(t: Seq<char>, vals: Seq<ArgValue>)
    requires
        t.len() >= 2,
        t.len() - 2 <= MAX_MESSAGE_LEN,
        spec_tags(t).len() == 0,
    ensures
        decode_spec(t, vals) == t.take(t.len() - 2),
{
    lemma_scan_tags_empty(t, 0, 0);
    let segs = spec_segs(t);
    if t.len() > 2 {
        assert(segs =~= seq![(0int, t.len() - 2)]);
        assert(seg_text(t, segs[0]) =~= t.take(t.len() - 2));
    } else {
        assert(segs =~= Seq::<(int, int)>::empty());
        assert(decode_spec(t, vals) =~= t.take(t.len() - 2));
    }
}

/// If a scan yields no tags, it yields exactly the trailing segment:
/// no `%` before the sentinel ever went unclassified.
proof fn lemma_scan_tags_empty(t: Seq<char>, p: int, start: int)
    requires
        0 <= start <= p,
        crate::classify::scan(t, p, start).0.len() == 0,
    ensures
        crate::classify::scan(t, p, start).1 == crate::classify::tail_segs(t, start),
    decreases t.len() - p,
{
    if p + 3 > t.len() {
    } else if t[p] == '%' {
        assert(false);
    } else {
        lemma_scan_tags_empty(t, p + 1, start);
    }
}

} // verus!
