//! Decisions of the desktop shell: what a menu item does, which windows close
//! with the main window, and the greeting command.
use vstd::prelude::*;

use crate::text::same_text;

verus! {

/// What choosing a menu item does.
#[derive(Debug, PartialEq, Eq)]
pub enum MenuCommand {
    /// Close the viewer window with this label (`close::<label>` items).
    CloseWindow(String),
    /// Send this event to the front end.
    Emit(String),
    /// Quit the application.
    Exit,
    /// Show the About window.
    ShowAbout,
    /// Unknown item: do nothing.
    Nothing,
}

/// The front-end event a menu item sends, if it sends one.
pub open spec fn menu_event(id: Seq<char>) -> Option<Seq<char>> {
    if id == "add_pdf"@ {
        Some("menu:add-pdf"@)
    } else if id == "sort_list"@ {
        Some("menu:sort-list"@)
    } else if id == "clear_list"@ {
        Some("menu:clear-list"@)
    } else if id == "reset_settings"@ {
        Some("menu:reset-settings"@)
    } else if id == "toggle_theme"@ {
        Some("menu:toggle-theme"@)
    } else {
        None
    }
}

/// Whether a menu item closes a viewer window: its id starts with `close::`.
pub open spec fn closes_window(id: Seq<char>) -> bool {
    id.len() >= 7 && id.take(7) == "close::"@
}

/// What the menu item `id` does: `close::<label>` closes that window; the
/// File, Edit and Help items send their event, quit or show About; any other
/// id does nothing.
pub fn menu_command(id: &str) -> (r: MenuCommand)
    ensures
        closes_window(id@) ==> (r matches MenuCommand::CloseWindow(label) && label@ == id@.skip(7)),
        !closes_window(id@) ==> match r {
            MenuCommand::CloseWindow(_) => false,
            MenuCommand::Emit(e) => menu_event(id@) == Some(e@),
            MenuCommand::Exit => menu_event(id@) is None && id@ == "exit"@,
            MenuCommand::ShowAbout => menu_event(id@) is None && id@ == "about"@,
            MenuCommand::Nothing => menu_event(id@) is None && id@ != "exit"@ && id@ != "about"@,
        },
{
    proof {
        reveal_strlit("close::");
    }
    let n = id.unicode_len();
    if n >= 7 && same_text(id.substring_char(0, 7), "close::") {
        return MenuCommand::CloseWindow(String::from_str(id.substring_char(7, n)));
    }
    assert(!closes_window(id@)) by {
        if closes_window(id@) {
            assert(id@.subrange(0, 7) =~= id@.take(7));
        }
    }
    if same_text(id, "add_pdf") {
        MenuCommand::Emit(String::from_str("menu:add-pdf"))
    } else if same_text(id, "sort_list") {
        MenuCommand::Emit(String::from_str("menu:sort-list"))
    } else if same_text(id, "clear_list") {
        MenuCommand::Emit(String::from_str("menu:clear-list"))
    } else if same_text(id, "reset_settings") {
        MenuCommand::Emit(String::from_str("menu:reset-settings"))
    } else if same_text(id, "toggle_theme") {
        MenuCommand::Emit(String::from_str("menu:toggle-theme"))
    } else if same_text(id, "exit") {
        MenuCommand::Exit
    } else if same_text(id, "about") {
        MenuCommand::ShowAbout
    } else {
        MenuCommand::Nothing
    }
}

/// The labels of `labels` other than `main`, in order.
pub open spec fn other_than_main(labels: Seq<Seq<char>>) -> Seq<Seq<char>>
    decreases labels.len(),
{
    if labels.len() == 0 {
        Seq::empty()
    } else {
        let rest = other_than_main(labels.drop_last());
        if labels.last() == "main"@ {
            rest
        } else {
            rest.push(labels.last())
        }
    }
}

/// The windows to close when the window `closed` is destroyed: every other
/// window when the main one goes, so that the application exits; none
/// otherwise.
pub fn windows_to_close(closed: &str, open: &Vec<String>) -> (r: Vec<String>)
    ensures
        r@.map_values(|s: String| s@) == (if closed@ == "main"@ {
            other_than_main(open@.map_values(|s: String| s@))
        } else {
            Seq::empty()
        }),
{
    let mut r: Vec<String> = Vec::new();
    if !same_text(closed, "main") {
        assert(r@.map_values(|s: String| s@) =~= Seq::<Seq<char>>::empty());
        return r;
    }
    let ghost labels = open@.map_values(|s: String| s@);
    let mut i: usize = 0;
    while i < open.len()
        invariant
            0 <= i <= open.len(),
            labels == open@.map_values(|s: String| s@),
            r@.map_values(|s: String| s@) == other_than_main(labels.take(i as int)),
        decreases open.len() - i,
    {
        assert(labels.take(i + 1).drop_last() =~= labels.take(i as int));
        let ghost before = r@;
        if !same_text(open[i].as_str(), "main") {
            r.push(open[i].clone());
            assert(r@.map_values(|s: String| s@) =~= before.map_values(|s: String| s@).push(
                open@[i as int]@,
            ));
        }
        i = i + 1;
    }
    assert(labels.take(open.len() as int) =~= labels);
    r
}

/// The greeting of the front end's demo command.
pub fn greet(name: &str) -> (r: String)
    ensures
        r@ == "Hello, "@ + name@ + "! You've been greeted from Rust!"@,
{
    let mut r = String::from_str("Hello, ");
    r.append(name);
    r.append("! You've been greeted from Rust!");
    r
}

/// When the main window goes, every other open window is closed and the
/// main one is not: each open label other than `main` is among those
/// closed, and each label closed is an open one other than `main`.
pub proof fn law_other_windows_close(labels: Seq<Seq<char>>)
    ensures
        forall|i: int|
            0 <= i < labels.len() && labels[i] != "main"@ ==> other_than_main(labels).contains(
                #[trigger] labels[i],
            ),
        forall|j: int|
            0 <= j < other_than_main(labels).len() ==> #[trigger] other_than_main(labels)[j]
                != "main"@ && labels.contains(other_than_main(labels)[j]),
    decreases labels.len(),
{
    if labels.len() > 0 {
        let init = labels.drop_last();
        law_other_windows_close(init);
        let rest = other_than_main(init);
        let r = other_than_main(labels);
        assert forall|i: int| 0 <= i < labels.len() && labels[i] != "main"@ implies r.contains(
            #[trigger] labels[i],
        ) by {
            if i < labels.len() - 1 {
                assert(init[i] == labels[i]);
                let k = choose|k: int| 0 <= k < rest.len() && rest[k] == init[i];
                if labels.last() != "main"@ {
                    assert(r[k] == rest[k]);
                }
            } else {
                assert(r[r.len() - 1] == labels.last());
            }
        }
        assert forall|j: int| 0 <= j < r.len() implies #[trigger] r[j] != "main"@ && labels.contains(
            r[j],
        ) by {
            if j < rest.len() {
                assert(r[j] == rest[j]);
                let k = choose|k: int| 0 <= k < init.len() && init[k] == rest[j];
                assert(labels[k] == init[k]);
            } else {
                assert(r[j] == labels.last());
                assert(labels[labels.len() - 1] == labels.last());
            }
        }
    }
}

} // verus!
