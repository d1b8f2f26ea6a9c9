//! The native menu bar and the About box: which menus and items they hold,
//! with their actions and key equivalents, and the texts of the About box.
//! Building the platform's menu objects from this description is the
//! caller's part.
use vstd::prelude::*;

use crate::text::copy_string;

verus! {

pub const APP_NAME: &'static str = "pfauterminal";

pub const APP_AUTHOR: &'static str = "Andrey Pfau";

/// An item of a native menu: its title, the action it sends, its key
/// equivalent (empty for none), and whether the key needs Option as well
/// as Command.
#[derive(Debug)]
pub struct NativeMenuItem {
    pub title: String,
    pub action: &'static str,
    pub key: &'static str,
    pub command_option: bool,
}

#[derive(Debug)]
pub enum NativeMenuEntry {
    Item(NativeMenuItem),
    Separator,
}

/// A menu of the menu bar.
#[derive(Debug)]
pub struct NativeMenu {
    pub title: String,
    pub entries: Vec<NativeMenuEntry>,
}

/// The plain contents of a [`NativeMenuEntry`].
pub enum EntryView {
    Item { title: Seq<char>, action: Seq<char>, key: Seq<char>, command_option: bool },
    Separator,
}

pub open spec fn entry_view(e: NativeMenuEntry) -> EntryView {
    match e {
        NativeMenuEntry::Item(it) => EntryView::Item {
            title: it.title@,
            action: it.action@,
            key: it.key@,
            command_option: it.command_option,
        },
        NativeMenuEntry::Separator => EntryView::Separator,
    }
}

pub open spec fn entries_view(v: Seq<NativeMenuEntry>) -> Seq<EntryView> {
    v.map_values(|e: NativeMenuEntry| entry_view(e))
}

pub open spec fn item_view(title: Seq<char>, action: Seq<char>, key: Seq<char>) -> EntryView {
    EntryView::Item { title, action, key, command_option: false }
}

/// The application menu: About, Hide, Hide Others (Command-Option-H),
/// Show All and Quit.
pub open spec fn spec_app_menu() -> Seq<EntryView> {
    seq![
        item_view("About "@ + APP_NAME@, "showAbout:"@, ""@),
        EntryView::Separator,
        item_view("Hide "@ + APP_NAME@, "hide:"@, "h"@),
        EntryView::Item {
            title: "Hide Others"@,
            action: "hideOtherApplications:"@,
            key: "h"@,
            command_option: true,
        },
        item_view("Show All"@, "unhideAllApplications:"@, ""@),
        EntryView::Separator,
        item_view("Quit "@ + APP_NAME@, "terminate:"@, "q"@),
    ]
}

/// The Edit menu: Copy, Paste, Select All.
pub open spec fn spec_edit_menu() -> Seq<EntryView> {
    seq![
        item_view("Copy"@, "copy:"@, "c"@),
        item_view("Paste"@, "paste:"@, "v"@),
        item_view("Select All"@, "selectAll:"@, "a"@),
    ]
}

/// The Window menu: Minimize, Zoom.
pub open spec fn spec_window_menu() -> Seq<EntryView> {
    seq![
        item_view("Minimize"@, "performMiniaturize:"@, "m"@),
        item_view("Zoom"@, "performZoom:"@, ""@),
    ]
}

fn item(title: String, action: &'static str, key: &'static str) -> (r: NativeMenuEntry)
    ensures
        entry_view(r) == item_view(title@, action@, key@),
{
    NativeMenuEntry::Item(NativeMenuItem { title, action, key, command_option: false })
}

fn titled(prefix: &str) -> (r: String)
    ensures
        r@ == prefix@ + APP_NAME@,
{
    let mut s = copy_string(prefix);
    s.append(APP_NAME);
    s
}

/// The menus of the menu bar: the application menu (untitled), Edit and Window.
pub fn menu_bar() -> (r: Vec<NativeMenu>)
    ensures
        r@.len() == 3,
        r@[0].title@.len() == 0,
        entries_view(r@[0].entries@) == spec_app_menu(),
        r@[1].title@ == "Edit"@,
        entries_view(r@[1].entries@) == spec_edit_menu(),
        r@[2].title@ == "Window"@,
        entries_view(r@[2].entries@) == spec_window_menu(),
{
    let mut app: Vec<NativeMenuEntry> = Vec::new();
    app.push(item(titled("About "), "showAbout:", ""));
    app.push(NativeMenuEntry::Separator);
    app.push(item(titled("Hide "), "hide:", "h"));
    app.push(
        NativeMenuEntry::Item(
            NativeMenuItem {
                title: copy_string("Hide Others"),
                action: "hideOtherApplications:",
                key: "h",
                command_option: true,
            },
        ),
    );
    app.push(item(copy_string("Show All"), "unhideAllApplications:", ""));
    app.push(NativeMenuEntry::Separator);
    app.push(item(titled("Quit "), "terminate:", "q"));
    assert(entries_view(app@) =~= spec_app_menu());

    let mut edit: Vec<NativeMenuEntry> = Vec::new();
    edit.push(item(copy_string("Copy"), "copy:", "c"));
    edit.push(item(copy_string("Paste"), "paste:", "v"));
    edit.push(item(copy_string("Select All"), "selectAll:", "a"));
    assert(entries_view(edit@) =~= spec_edit_menu());

    let mut window: Vec<NativeMenuEntry> = Vec::new();
    window.push(item(copy_string("Minimize"), "performMiniaturize:", "m"));
    window.push(item(copy_string("Zoom"), "performZoom:", ""));
    assert(entries_view(window@) =~= spec_window_menu());

    let mut bar: Vec<NativeMenu> = Vec::new();
    bar.push(NativeMenu { title: String::new(), entries: app });
    bar.push(NativeMenu { title: copy_string("Edit"), entries: edit });
    bar.push(NativeMenu { title: copy_string("Window"), entries: window });
    bar
}

/// The version shown in the About box: the release, then the commit in
/// parentheses.
pub fn app_version(release: &str, commit: &str) -> (r: String)
    ensures
        r@ == release@ + " ("@ + commit@ + ")"@,
{
    let mut s = copy_string(release);
    s.append(" (");
    s.append(commit);
    s.append(")");
    s
}

/// The options of the macOS About panel: the application's name, its
/// version, and the copyright line of `year`.
pub fn about_panel_options(version: &str, year: &str) -> (r: Vec<(String, String)>)
    ensures
        r@.len() == 3,
        r@[0].0@ == "ApplicationName"@ && r@[0].1@ == APP_NAME@,
        r@[1].0@ == "Version"@ && r@[1].1@ == version@,
        r@[2].0@ == "Copyright"@ && r@[2].1@ == "Copyright © "@ + year@ + " "@ + APP_AUTHOR@,
{
    let mut copyright = copy_string("Copyright © ");
    copyright.append(year);
    copyright.append(" ");
    copyright.append(APP_AUTHOR);
    let mut v: Vec<(String, String)> = Vec::new();
    v.push((copy_string("ApplicationName"), copy_string(APP_NAME)));
    v.push((copy_string("Version"), copy_string(version)));
    v.push((copy_string("Copyright"), copyright));
    v
}

/// The title and text of the About message box on Windows.
pub fn about_dialog_text(version: &str) -> (r: (String, String))
    ensures
        r.0@ == "About "@ + APP_NAME@,
        r.1@ == APP_NAME@ + "\nVersion "@ + version@ + "\n\nCopyright © 2025 "@ + APP_AUTHOR@,
{
    let title = titled("About ");
    let mut message = copy_string(APP_NAME);
    message.append("\nVersion ");
    message.append(version);
    message.append("\n\nCopyright © 2025 ");
    message.append(APP_AUTHOR);
    (title, message)
}

} // verus!
