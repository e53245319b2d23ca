use pdfix::path::PathStyle;
use pdfix::batch::{phase_name, Batch, Phase};
use pdfix::counters::PageCounters;
use pdfix::report::{color_line, decimal_string, filled_shapes_line, log_opening, page_mode_line, totals_line};
use pdfix::shell::{greet, menu_command, windows_to_close, MenuCommand};

#[test]
fn menu_items() {
    assert_eq!(menu_command("close::viewer-3"), MenuCommand::CloseWindow("viewer-3".to_string()));
    assert_eq!(menu_command("close::"), MenuCommand::CloseWindow(String::new()));
    assert_eq!(menu_command("add_pdf"), MenuCommand::Emit("menu:add-pdf".to_string()));
    assert_eq!(menu_command("sort_list"), MenuCommand::Emit("menu:sort-list".to_string()));
    assert_eq!(menu_command("clear_list"), MenuCommand::Emit("menu:clear-list".to_string()));
    assert_eq!(menu_command("reset_settings"), MenuCommand::Emit("menu:reset-settings".to_string()));
    assert_eq!(menu_command("toggle_theme"), MenuCommand::Emit("menu:toggle-theme".to_string()));
    assert_eq!(menu_command("exit"), MenuCommand::Exit);
    assert_eq!(menu_command("about"), MenuCommand::ShowAbout);
    assert_eq!(menu_command("close:x"), MenuCommand::Nothing);
    assert_eq!(menu_command(""), MenuCommand::Nothing);
}

#[test]
fn closing_main_closes_the_others() {
    let open = vec!["main".to_string(), "viewer-1".to_string(), "about".to_string()];
    assert_eq!(windows_to_close("main", &open), vec!["viewer-1".to_string(), "about".to_string()]);
    assert_eq!(windows_to_close("viewer-1", &open), Vec::<String>::new());
}

#[test]
fn greeting() {
    assert_eq!(greet("Ada"), "Hello, Ada! You've been greeted from Rust!");
}

#[test]
fn log_lines() {
    assert_eq!(decimal_string(0), "0");
    assert_eq!(decimal_string(1203), "1203");
    assert_eq!(decimal_string(u64::MAX), "18446744073709551615");
    assert_eq!(page_mode_line("range", None, None, 0, "Points", None), "  page-mode : range [1..=end]");
    assert_eq!(page_mode_line("range", Some(2), Some(5), 0, "Points", None), "  page-mode : range [2..=5]");
    assert_eq!(page_mode_line("rule", None, None, 3, "Inches", None), "  page-mode : rule (3 rules in Inches)");
    assert_eq!(page_mode_line("current", None, None, 0, "Points", Some(7)), "  page-mode : current [page 7]");
    assert_eq!(page_mode_line("all", Some(2), None, 3, "Points", Some(7)), "  page-mode : all");
    let mut c = PageCounters::new();
    c.record_fill();
    for s in [true, true, false, true, false] {
        c.record_stroke(s);
    }
    assert_eq!(totals_line(2, &c), "Totals: pages=2 strokes=5 fills=1 strokes-substituted=3");
}

#[test]
fn decimal_reads_back_as_a_page_rule() {
    for n in [0u32, 7, 10, 99, 12345, u32::MAX] {
        assert!(pdfix::rules::rule_matches(&decimal_string(n as u64), n));
    }
}

#[test]
fn batch_reports_and_outputs() {
    let mut b = Batch::new(2);
    let p = b.started(0, "/d/a.pdf", PathStyle::Posix);
    assert_eq!((p.index, p.total, p.file.as_str(), p.phase), (0, 2, "a.pdf", Phase::Start));
    let p = b.finished(0, "/d/a.pdf", PathStyle::Posix, Ok("/d/a.pdf".to_string()));
    assert_eq!((p.phase, p.output.as_deref(), p.error.as_deref()), (Phase::Done, Some("/d/a.pdf"), None));
    let p = b.finished(1, "/d/b.pdf", PathStyle::Posix, Err("boom".to_string()));
    assert_eq!((p.phase, p.output.as_deref(), p.error.as_deref()), (Phase::Error, None, Some("boom")));
    assert_eq!(b.into_outputs(), vec!["/d/a.pdf".to_string()]);
    assert_eq!((phase_name(Phase::Start), phase_name(Phase::Done), phase_name(Phase::Error)), ("start", "done", "error"));
}

#[test]
fn log_header_lines() {
    assert_eq!(log_opening("/d/in.pdf", "/d/out.pdf"), "Conversion log\n  input : /d/in.pdf\n  output: /d/out.pdf");
    assert_eq!(color_line(true), "  color : RANDOM (per path), lineCap=Round, lineJoin=Round, alpha=1.000");
    assert_eq!(color_line(false), "  color : BLACK, lineCap=Round, lineJoin=Round, alpha=1.000");
    assert_eq!(filled_shapes_line(true), "  ignoreFilledShapes : true");
    assert_eq!(filled_shapes_line(false), "  ignoreFilledShapes : false");
}
