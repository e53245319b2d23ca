use pdfix::units::{unit_of, Unit};
use pdfix::counters::{OpCounter, PageCounters};
use pdfix::pages::{page_mode_of, page_plan, page_replacement, PageMode, PageReplacement, PageSelection};
use pdfix::stroke::{decide_stroke, is_closed_fillable, PathOp, StrokeAction};

fn selection(mode: PageMode) -> PageSelection {
    PageSelection { mode, current_page: None, range_from: None, range_to: None, rule_pages: vec![] }
}

#[test]
fn page_mode_names() {
    assert_eq!(page_mode_of("rule"), PageMode::Rule);
    assert_eq!(page_mode_of("range"), PageMode::Range);
    assert_eq!(page_mode_of("current"), PageMode::Current);
    assert_eq!(page_mode_of("all"), PageMode::All);
    assert_eq!(page_mode_of("Range"), PageMode::All);
}

#[test]
fn all_mode_replaces_every_page() {
    let plan = page_plan(&selection(PageMode::All), 3);
    assert_eq!(plan, vec![PageReplacement::Default; 3]);
}

#[test]
fn range_mode_is_inclusive_and_open_ended() {
    let mut s = selection(PageMode::Range);
    s.range_from = Some(2);
    s.range_to = Some(3);
    assert_eq!(
        page_plan(&s, 4),
        vec![PageReplacement::Passthrough, PageReplacement::Default, PageReplacement::Default, PageReplacement::Passthrough]
    );
    s.range_to = None;
    assert_eq!(page_replacement(&s, 4, 4), PageReplacement::Default);
    assert_eq!(page_replacement(&s, 5, 4), PageReplacement::Passthrough);
    s.range_from = None;
    assert_eq!(page_replacement(&s, 1, 4), PageReplacement::Default);
}

#[test]
fn current_mode_defaults_to_first_page() {
    let mut s = selection(PageMode::Current);
    assert_eq!(page_plan(&s, 2), vec![PageReplacement::Default, PageReplacement::Passthrough]);
    s.current_page = Some(2);
    assert_eq!(page_plan(&s, 2), vec![PageReplacement::Passthrough, PageReplacement::Default]);
}

#[test]
fn rule_mode_takes_first_matching_rule() {
    let mut s = selection(PageMode::Rule);
    s.rule_pages = vec![">=2".to_string(), "2, 3".to_string(), "1".to_string()];
    assert_eq!(
        page_plan(&s, 4),
        vec![PageReplacement::Rule(2), PageReplacement::Rule(0), PageReplacement::Rule(0), PageReplacement::Rule(0)]
    );
    s.rule_pages = vec!["2".to_string()];
    assert_eq!(page_plan(&s, 2), vec![PageReplacement::Passthrough, PageReplacement::Rule(0)]);
    s.rule_pages = vec![];
    assert_eq!(page_plan(&s, 1), vec![PageReplacement::Passthrough]);
}

#[test]
fn closed_paths_are_fillable() {
    assert!(!is_closed_fillable(&vec![]));
    assert!(!is_closed_fillable(&vec![PathOp::MoveTo, PathOp::LineTo, PathOp::CurveTo]));
    assert!(is_closed_fillable(&vec![PathOp::MoveTo, PathOp::LineTo, PathOp::Close]));
    assert!(is_closed_fillable(&vec![PathOp::Rect]));
}

#[test]
fn stroke_decisions() {
    assert_eq!(decide_stroke(true, true, false, true), StrokeAction::Substitute);
    assert_eq!(decide_stroke(true, true, true, false), StrokeAction::Substitute);
    assert_eq!(decide_stroke(true, true, true, true), StrokeAction::KeepFilledShape);
    assert_eq!(decide_stroke(false, true, true, true), StrokeAction::KeepFilledShape);
    assert_eq!(decide_stroke(true, false, false, false), StrokeAction::Keep);
    assert_eq!(decide_stroke(false, true, false, false), StrokeAction::Keep);
}

#[test]
fn counters_tally_strokes_and_substitutions() {
    let mut c = PageCounters::default();
    c.record_fill();
    c.record_stroke(true);
    c.record_stroke(false);
    assert_eq!((c.fills(), c.strokes(), c.substituted()), (1, 2, 1));
    let mut totals = PageCounters::new();
    totals.add(&c);
    totals.add(&c);
    assert_eq!((totals.fills(), totals.strokes(), totals.substituted()), (2, 4, 2));
    let mut ops = OpCounter::new();
    assert_eq!(ops.next_index(), 0);
    assert_eq!(ops.next_index(), 1);
}

// The synthetic fixture: page 1 strokes of 0.05, 0.1 and 1.0 pt, page 2
// strokes of 0.05 and 2.0 pt, one fill; hairline threshold 0.5 pt.
fn substitutions(sel: &PageSelection) -> (u64, u64, u64) {
    let pages: [&[f32]; 2] = [&[0.05, 0.1, 1.0], &[0.05, 2.0]];
    let plan = page_plan(sel, 2);
    let mut totals = PageCounters::new();
    for (i, widths) in pages.iter().enumerate() {
        let mut c = PageCounters::new();
        if i == 0 {
            c.record_fill();
        }
        for w in widths.iter() {
            let has = plan[i] != PageReplacement::Passthrough;
            let action = decide_stroke(has, *w <= 0.5, false, false);
            c.record_stroke(action == StrokeAction::Substitute);
        }
        totals.add(&c);
    }
    (totals.strokes(), totals.fills(), totals.substituted())
}

#[test]
fn fixture_substitution_counts() {
    assert_eq!(substitutions(&selection(PageMode::All)), (5, 1, 3));
    let mut range = selection(PageMode::Range);
    range.range_from = Some(1);
    range.range_to = Some(1);
    assert_eq!(substitutions(&range).2, 2);
    let mut current = selection(PageMode::Current);
    current.current_page = Some(2);
    assert_eq!(substitutions(&current).2, 1);
    let mut rule = selection(PageMode::Rule);
    rule.rule_pages = vec!["2".to_string()];
    assert_eq!(substitutions(&rule).2, 1);
    rule.rule_pages = vec!["1".to_string(), "2".to_string()];
    assert_eq!(substitutions(&rule).2, 3);
}

#[test]
fn unit_names() {
    assert_eq!(unit_of("Points"), Unit::Points);
    assert_eq!(unit_of("Picas"), Unit::Picas);
    assert_eq!(unit_of("Inches"), Unit::Inches);
    assert_eq!(unit_of("Milimiters"), Unit::Millimeters);
    assert_eq!(unit_of("Millimeters"), Unit::Millimeters);
    assert_eq!(unit_of("Centimeters"), Unit::Centimeters);
    assert_eq!(unit_of("Furlongs"), Unit::Points);
}
