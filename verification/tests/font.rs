use skryn::gui::font::{order_line, plan_paragraphs, LineOrder, SegmentInfo};

fn seg(rtl: bool, separator: bool) -> SegmentInfo {
    SegmentInfo { rtl, separator }
}

#[test]
fn no_segments_make_one_empty_paragraph() {
    let plans = plan_paragraphs(&vec![]);
    assert_eq!(plans.len(), 1);
    assert_eq!(plans[0].len, 0);
    assert!(!plans[0].rtl);
    assert!(plans[0].runs.is_empty());
}

#[test]
fn separators_end_paragraphs() {
    let segs = vec![seg(false, false), seg(true, false), seg(false, true), seg(true, false)];
    let plans = plan_paragraphs(&segs);
    assert_eq!(plans.len(), 2);
    assert!(!plans[0].rtl);
    assert_eq!(plans[0].len, 3);
    assert_eq!(plans[0].runs, vec![(1, false), (2, true), (2, false)]);
    assert!(plans[1].rtl);
    assert_eq!(plans[1].len, 1);
    assert_eq!(plans[1].runs, vec![(1, true)]);
}

#[test]
fn a_trailing_separator_leaves_an_empty_paragraph() {
    let plans = plan_paragraphs(&vec![seg(true, false), seg(true, true)]);
    assert_eq!(plans.len(), 2);
    assert!(plans[0].rtl);
    assert_eq!(plans[0].runs, vec![(1, true)]);
    assert_eq!(plans[1].len, 0);
}

#[test]
fn ltr_paragraph_reverses_rtl_runs() {
    assert_eq!(order_line(&vec![false, false, false], false), vec![0, 1, 2]);
    assert_eq!(order_line(&vec![false, true, true, false], false), vec![0, 2, 1, 3]);
}

#[test]
fn rtl_paragraph_keeps_ltr_runs_in_order() {
    assert_eq!(order_line(&vec![true, true, true], true), vec![2, 1, 0]);
    assert_eq!(order_line(&vec![true, false, false, true], true), vec![3, 1, 2, 0]);
}

#[test]
fn line_order_restarts_on_a_new_line() {
    let mut o = LineOrder::new(false);
    assert_eq!(o.place(true, 0), 0);
    assert_eq!(o.place(true, 1), 0);
    o.new_line();
    assert_eq!(o.place(false, 0), 0);
    assert_eq!(o.place(true, 1), 1);
}

#[test]
fn paragraph_lengths_add_up_to_the_segments() {
    let segs = vec![
        seg(false, false),
        seg(false, true),
        seg(true, true),
        seg(true, false),
        seg(false, false),
    ];
    let plans = plan_paragraphs(&segs);
    assert_eq!(plans.len(), 3);
    let total: usize = plans.iter().map(|p| p.len).sum();
    assert_eq!(total, segs.len());
    assert_eq!(plans[1].runs, vec![(0, true)]);
    assert_eq!(plans[2].runs, vec![(1, true), (2, false)]);
}

#[test]
fn every_segment_is_shown_once() {
    let mut line = order_line(&vec![true, false, true, false, false, true], false);
    line.sort();
    assert_eq!(line, vec![0, 1, 2, 3, 4, 5]);
    let mut line = order_line(&vec![false, true, false, false, true], true);
    line.sort();
    assert_eq!(line, vec![0, 1, 2, 3, 4]);
}

#[test]
fn one_paragraph_per_separator_and_one_more() {
    let segs = vec![seg(false, true), seg(false, false), seg(true, true), seg(false, true)];
    assert_eq!(plan_paragraphs(&segs).len(), 4);
    assert_eq!(plan_paragraphs(&vec![seg(false, false), seg(true, false)]).len(), 1);
}
