use skryn::gui::segment::{
    breaking_class, class_from_code, group_segments, resolve_class, segment_text, RawClass,
    ResolvedClass, Span, CLASS_COUNT,
};
use unicode_bidi::BidiClass;

fn span(start: usize, len: usize, rtl: bool, class: ResolvedClass, script: u32) -> Span {
    Span { start, len, rtl, class, script }
}

#[test]
fn classes_resolve_by_direction() {
    assert_eq!(resolve_class(false, RawClass::L), ResolvedClass::L);
    assert_eq!(resolve_class(true, RawClass::L), ResolvedClass::R);
    assert_eq!(resolve_class(true, RawClass::WS), ResolvedClass::WS);
    assert_eq!(resolve_class(false, RawClass::B), ResolvedClass::B);
    assert_eq!(resolve_class(true, RawClass::S), ResolvedClass::S);
    assert_eq!(resolve_class(true, RawClass::AL), ResolvedClass::R);
    assert_eq!(resolve_class(false, RawClass::EN), ResolvedClass::L);
    assert_eq!(resolve_class(true, RawClass::L), ResolvedClass::R);
}

#[test]
fn separators_and_whitespace_break_lines() {
    assert!(breaking_class(ResolvedClass::B));
    assert!(breaking_class(ResolvedClass::S));
    assert!(breaking_class(ResolvedClass::WS));
    assert!(!breaking_class(ResolvedClass::L));
    assert!(!breaking_class(ResolvedClass::R));
}

#[test]
fn empty_text_has_no_segments() {
    assert!(group_segments(&vec![], &vec![]).is_empty());
}

#[test]
fn words_and_spaces_alternate() {
    let o = (false, RawClass::L);
    let w = (false, RawClass::WS);
    let bidi = vec![o, o, w, o, o];
    let spans = group_segments(&bidi, &vec![1, 1, 1, 1, 1]);
    assert_eq!(
        spans,
        vec![
            span(0, 2, false, ResolvedClass::L, 1),
            span(2, 1, false, ResolvedClass::WS, 1),
            span(3, 2, false, ResolvedClass::L, 1),
        ]
    );
}

#[test]
fn a_change_of_script_starts_a_segment() {
    let o = (false, RawClass::L);
    let spans = group_segments(&vec![o, o, o], &vec![1, 2, 2]);
    assert_eq!(
        spans,
        vec![span(0, 1, false, ResolvedClass::L, 1), span(1, 2, false, ResolvedClass::L, 2)]
    );
}

#[test]
fn each_paragraph_separator_stands_alone() {
    let o = (false, RawClass::L);
    let b = (false, RawClass::B);
    let spans = group_segments(&vec![o, b, b, o], &vec![0, 0, 0, 0]);
    assert_eq!(
        spans,
        vec![
            span(0, 1, false, ResolvedClass::L, 0),
            span(1, 1, false, ResolvedClass::B, 0),
            span(2, 1, false, ResolvedClass::B, 0),
            span(3, 1, false, ResolvedClass::L, 0),
        ]
    );
}

#[test]
fn a_leading_separator_leaves_an_empty_first_segment() {
    let b = (false, RawClass::B);
    let o = (false, RawClass::L);
    let spans = group_segments(&vec![b, o], &vec![0, 0]);
    assert_eq!(
        spans,
        vec![
            span(0, 0, false, ResolvedClass::B, 0),
            span(0, 1, false, ResolvedClass::B, 0),
            span(1, 1, false, ResolvedClass::L, 0),
        ]
    );
}

#[test]
fn latin_words_split_at_the_space() {
    let text: Vec<char> = "ab cd".chars().collect();
    let (spans, rtl) = segment_text(&text, &vec![7; 5]);
    assert_eq!(rtl, vec![false; 5]);
    assert_eq!(
        spans,
        vec![
            span(0, 2, false, ResolvedClass::L, 7),
            span(2, 1, false, ResolvedClass::WS, 7),
            span(3, 2, false, ResolvedClass::L, 7),
        ]
    );
}

#[test]
fn arabic_letters_run_right_to_left() {
    let text: Vec<char> = "\u{0627}\u{0628}".chars().collect();
    let (spans, rtl) = segment_text(&text, &vec![3, 3]);
    assert_eq!(rtl, vec![true, true]);
    assert_eq!(spans, vec![span(0, 2, true, ResolvedClass::R, 3)]);
}

#[test]
fn a_newline_separates_paragraphs_of_text() {
    let text: Vec<char> = "a\nb".chars().collect();
    let (spans, _) = segment_text(&text, &vec![0, 0, 0]);
    assert_eq!(spans.len(), 3);
    assert_eq!(spans[1], span(1, 1, false, ResolvedClass::B, 0));
    assert_eq!(spans[2], span(2, 1, false, ResolvedClass::L, 0));
}

#[test]
fn class_codes_follow_the_bidi_class_table() {
    assert_eq!(CLASS_COUNT, BidiClass::WS as u8 + 1);
    assert_eq!(class_from_code(BidiClass::AL as u8), RawClass::AL);
    assert_eq!(class_from_code(BidiClass::B as u8), RawClass::B);
    assert_eq!(class_from_code(BidiClass::L as u8), RawClass::L);
    assert_eq!(class_from_code(BidiClass::R as u8), RawClass::R);
    assert_eq!(class_from_code(BidiClass::S as u8), RawClass::S);
    assert_eq!(class_from_code(BidiClass::WS as u8), RawClass::WS);
    assert_eq!(class_from_code(BidiClass::NSM as u8), RawClass::NSM);
}

#[test]
fn segments_cover_mixed_text() {
    let text: Vec<char> = "ab \u{0627}\u{0628} 12".chars().collect();
    let (spans, rtl) = segment_text(&text, &vec![0; text.len()]);
    assert_eq!(rtl.len(), text.len());
    let mut next = 0;
    for s in spans.iter() {
        assert_eq!(s.start, next);
        next += s.len;
    }
    assert_eq!(next, text.len());
}
