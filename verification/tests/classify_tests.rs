use printf_decode::ArgType;
use printf_decode::DoublePeekIterator;
use printf_decode::Level;
use printf_decode::MAX_SPECIFIERS;
use printf_decode::Segment;
use printf_decode::Tag;
use printf_decode::extract_types;

fn seg_text<'a>(template: &'a str, seg: &Segment) -> &'a str {
    &template[seg.start..seg.start + seg.len]
}

#[test]
fn cursor_peeking_is_idempotent() {
    let mut it = DoublePeekIterator::new("ab");
    assert_eq!(it.peek(), Some('a'));
    assert_eq!(it.peek(), Some('a'));
    assert_eq!(it.peek2(), Some('b'));
    assert_eq!(it.peek2(), Some('b'));
    assert_eq!(it.next(), Some('a'));
    assert_eq!(it.peek(), Some('b'));
    assert_eq!(it.peek2(), None);
    assert_eq!(it.next(), Some('b'));
    assert_eq!(it.next(), None);
    assert_eq!(it.peek(), None);
}

#[test]
fn cursor_empty_input_yields_nothing() {
    let mut it = DoublePeekIterator::new("");
    assert_eq!(it.peek(), None);
    assert_eq!(it.peek2(), None);
    assert_eq!(it.next(), None);
}

#[test]
fn classifies_value_end_template() {
    let template = "value=%d end%s";
    let (tags, segs) = extract_types(template);
    assert_eq!(tags, vec![Tag { kind: ArgType::Integer, long: false }]);
    assert_eq!(segs.len(), 2);
    assert_eq!(seg_text(template, &segs[0]), "value=");
    assert_eq!(seg_text(template, &segs[1]), " end");
}

#[test]
fn long_modifier_sets_the_long_width() {
    let (tags, _) = extract_types("%ld");
    assert_eq!(tags, vec![Tag { kind: ArgType::Integer, long: true }]);
    let (tags, _) = extract_types("%lu");
    assert_eq!(tags, vec![Tag { kind: ArgType::UnsignedInteger, long: true }]);
    // after `l`, only d/i/u/o are conversion letters this decoder knows
    let (tags, _) = extract_types("%lx");
    assert_eq!(tags, vec![Tag { kind: ArgType::Unknown, long: true }]);
}

#[test]
fn every_plain_conversion_letter_maps_to_its_kind() {
    let cases = [
        ("%d%s", ArgType::Integer),
        ("%i%s", ArgType::Integer),
        ("%u%s", ArgType::UnsignedInteger),
        ("%o%s", ArgType::UnsignedInteger),
        ("%x%s", ArgType::UnsignedIntegerHex),
        ("%X%s", ArgType::UnsignedIntegerHex),
        ("%f%s", ArgType::FloatingPoint),
        ("%g%s", ArgType::FloatingPoint),
        ("%c%s", ArgType::Character),
        ("%s%s", ArgType::String),
        ("%p%s", ArgType::Pointer),
        ("%n%s", ArgType::WriteBytes),
        ("%%%s", ArgType::Literal),
        ("%q%s", ArgType::Unknown),
    ];
    for (template, kind) in cases {
        let (tags, _) = extract_types(template);
        assert_eq!(tags, vec![Tag { kind, long: false }], "template {template:?}");
    }
}

#[test]
fn segment_list_is_one_longer_than_tags_or_equal() {
    let cases = [
        "value=%d end%s",
        "%d%s",
        "%d tail%s",
        "no specifiers%s",
        "%s",
        "",
        "a%db%uc%s",
    ];
    for template in cases {
        let (tags, segs) = extract_types(template);
        assert!(
            segs.len() == tags.len() || segs.len() == tags.len() + 1,
            "template {template:?}: {} segments for {} tags",
            segs.len(),
            tags.len(),
        );
    }
}

#[test]
fn adjacent_specifiers_are_all_classified() {
    let template = "%d%d%s";
    let (tags, segs) = extract_types(template);
    assert_eq!(
        tags,
        vec![
            Tag { kind: ArgType::Integer, long: false },
            Tag { kind: ArgType::Integer, long: false },
        ]
    );
    assert_eq!(segs.len(), 2);
    assert_eq!(seg_text(template, &segs[0]), "");
    assert_eq!(seg_text(template, &segs[1]), "");
}

#[test]
fn specifiers_past_the_capacity_are_dropped_silently() {
    let mut template = String::new();
    for _ in 0..60 {
        template.push_str("%d");
    }
    template.push_str("%s");
    let (tags, segs) = extract_types(&template);
    assert_eq!(tags.len(), MAX_SPECIFIERS);
    assert_eq!(segs.len(), MAX_SPECIFIERS);
    for tag in &tags {
        assert_eq!(*tag, Tag { kind: ArgType::Integer, long: false });
    }
    for seg in &segs {
        assert_eq!(seg.len, 0);
    }
}

#[test]
fn sentinel_is_never_classified() {
    // the template's final two characters never start a specifier, even
    // when they look like one and are not the expected sentinel
    let (tags, segs) = extract_types("abc%d");
    assert_eq!(tags.len(), 0);
    assert_eq!(segs.len(), 1);
    assert_eq!(seg_text("abc%d", &segs[0]), "abc");

    let (tags, segs) = extract_types("%s");
    assert_eq!(tags.len(), 0);
    assert_eq!(segs.len(), 0);

    let (tags, segs) = extract_types("");
    assert_eq!(tags.len(), 0);
    assert_eq!(segs.len(), 0);
}

#[test]
fn level_codes_map_in_order() {
    assert_eq!(Level::from_code(0), Some(Level::Trace));
    assert_eq!(Level::from_code(1), Some(Level::Debug));
    assert_eq!(Level::from_code(2), Some(Level::Warn));
    assert_eq!(Level::from_code(3), Some(Level::Error));
    assert_eq!(Level::from_code(4), None);
}
