use pdfix::path::PathStyle;
use pdfix::staging::{start, Action, Event, Stage};

fn convert(input: &str, output: &str) -> Action {
    Action::Convert { input: input.to_string(), output: output.to_string() }
}

fn rename(from: &str, to: &str) -> Action {
    Action::Rename { from: from.to_string(), to: to.to_string() }
}

#[test]
fn empty_suffix_writes_beside_the_original() {
    let (mut m, a) = start("/d/doc.pdf", "rename", "", PathStyle::Posix).unwrap();
    assert_eq!(m.stage, Stage::Direct);
    assert_eq!(a, convert("/d/doc.pdf", "/d/doc_rs.pdf"));
    assert_eq!(m.step(Event::Succeeded), Action::Finish(Ok("/d/doc_rs.pdf".to_string())));
    let (mut m, _) = start("/d/doc.pdf", "rename", "", PathStyle::Posix).unwrap();
    assert_eq!(m.step(Event::Failed("bad pdf".to_string())), Action::Finish(Err("bad pdf".to_string())));
}

#[test]
fn rename_mode_stages_then_swaps() {
    let (mut m, a) = start("/d/doc.pdf", "rename", "_old", PathStyle::Posix).unwrap();
    assert_eq!(a, Action::CheckExists("/d/doc_old.pdf".to_string()));
    assert_eq!(m.step(Event::Exists(false)), convert("/d/doc.pdf", "/d/.doc.pdf.converting"));
    assert_eq!(m.step(Event::Succeeded), rename("/d/doc.pdf", "/d/doc_old.pdf"));
    assert_eq!(m.step(Event::Succeeded), rename("/d/.doc.pdf.converting", "/d/doc.pdf"));
    assert_eq!(m.step(Event::Succeeded), Action::Finish(Ok("/d/doc.pdf".to_string())));
    assert_eq!(m.stage, Stage::Finished);
}

#[test]
fn delete_mode_removes_the_safety_copy() {
    let (mut m, a) = start("/d/doc.pdf", "delete", "_old", PathStyle::Posix).unwrap();
    assert_eq!(a, Action::CheckExists("/d/doc.pdfix-bak.pdf".to_string()));
    assert_eq!(m.step(Event::Exists(false)), convert("/d/doc.pdf", "/d/.doc.pdf.converting"));
    assert_eq!(m.step(Event::Succeeded), rename("/d/doc.pdf", "/d/doc.pdfix-bak.pdf"));
    assert_eq!(m.step(Event::Succeeded), rename("/d/.doc.pdf.converting", "/d/doc.pdf"));
    assert_eq!(m.step(Event::Succeeded), Action::Remove("/d/doc.pdfix-bak.pdf".to_string()));
    assert_eq!(m.step(Event::Failed("busy".to_string())), Action::Finish(Ok("/d/doc.pdf".to_string())));
}

#[test]
fn taken_rename_target_is_refused() {
    let (mut m, _) = start("/d/doc.pdf", "rename", "_old", PathStyle::Posix).unwrap();
    assert_eq!(
        m.step(Event::Exists(true)),
        Action::Finish(Err("rename target already exists: /d/doc_old.pdf".to_string()))
    );
}

#[test]
fn failed_conversion_leaves_everything_in_place() {
    let (mut m, _) = start("/d/x.pdf", "rename", "_old", PathStyle::Posix).unwrap();
    m.step(Event::Exists(false));
    assert_eq!(m.step(Event::Failed("not a pdf".to_string())), Action::Finish(Err("not a pdf".to_string())));
}

#[test]
fn failed_move_removes_the_staged_file() {
    let (mut m, _) = start("/d/doc.pdf", "rename", "_old", PathStyle::Posix).unwrap();
    m.step(Event::Exists(false));
    m.step(Event::Succeeded);
    assert_eq!(m.step(Event::Failed("denied".to_string())), Action::Remove("/d/.doc.pdf.converting".to_string()));
    assert_eq!(m.step(Event::Succeeded), Action::Finish(Err("denied".to_string())));
}

#[test]
fn failed_install_moves_the_original_back() {
    let (mut m, _) = start("/d/doc.pdf", "rename", "_old", PathStyle::Posix).unwrap();
    m.step(Event::Exists(false));
    m.step(Event::Succeeded);
    m.step(Event::Succeeded);
    assert_eq!(m.step(Event::Failed("denied".to_string())), rename("/d/doc_old.pdf", "/d/doc.pdf"));
    assert_eq!(m.step(Event::Failed("ignored".to_string())), Action::Remove("/d/.doc.pdf.converting".to_string()));
    assert_eq!(m.step(Event::Succeeded), Action::Finish(Err("denied".to_string())));
}

#[test]
fn input_without_file_name_is_refused() {
    assert_eq!(start("/", "delete", "", PathStyle::Posix).err(), Some("invalid filename".to_string()));
    assert!(start("/", "rename", "", PathStyle::Posix).is_ok());
}

#[test]
fn windows_paths_are_staged_in_their_directory() {
    let (m, a) = start(r"C:\d\doc.pdf", "rename", "_old", PathStyle::Windows).unwrap();
    assert_eq!(m.renamed, r"C:\d\doc_old.pdf");
    assert_eq!(m.temp, r"C:\d\.doc.pdf.converting");
    assert_eq!(a, Action::CheckExists(r"C:\d\doc_old.pdf".to_string()));
}
