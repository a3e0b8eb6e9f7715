//! The context menu of the painting surface.

use vstd::prelude::*;
use crate::delegate::Command;

verus! {

/// One line of the context menu: its label and the command it sends.
#[derive(Debug, PartialEq, Eq)]
pub struct MenuEntry {
    pub label: &'static str,
    pub command: Command,
}

/// What to do with a pointer press on the painting surface.
#[derive(Debug, PartialEq, Eq)]
pub enum MenuAction {
    /// Show the context menu with these lines where the pointer is.
    ShowContextMenu(Vec<MenuEntry>),
    /// Hand the event on to the painting surface.
    Forward,
}

/// The lines of the context menu as labels and commands.
pub open spec fn context_menu() -> Seq<(Seq<char>, Command)> {
    seq![
        ("Save"@, Command::SaveCanvas),
        ("Clear"@, Command::ClearCanvas),
        ("Show Map"@, Command::ShowMapWindow),
    ]
}

/// The labels and commands of a list of menu lines.
pub open spec fn menu_view(entries: Seq<MenuEntry>) -> Seq<(Seq<char>, Command)> {
    Seq::new(entries.len(), |i: int| (entries[i].label@, entries[i].command))
}

/// The context menu: save, clear, show the map.
pub fn make_context_menu() -> (entries: Vec<MenuEntry>)
    ensures
        menu_view(entries@) == context_menu(),
{
    let mut entries: Vec<MenuEntry> = Vec::new();
    entries.push(MenuEntry { label: "Save", command: Command::SaveCanvas });
    entries.push(MenuEntry { label: "Clear", command: Command::ClearCanvas });
    entries.push(MenuEntry { label: "Show Map", command: Command::ShowMapWindow });
    assert(menu_view(entries@) =~= context_menu());
    entries
}

/// Puts the context menu in front of the painting surface.
pub struct ContextMenuController;

impl ContextMenuController {
    /// A press of the secondary button shows the context menu; every other
    /// event goes on to the painting surface.
    pub fn event(&mut self, secondary_button_down: bool) -> (action: MenuAction)
        ensures
            match action {
                MenuAction::ShowContextMenu(entries) => secondary_button_down && menu_view(entries@)
                    == context_menu(),
                MenuAction::Forward => !secondary_button_down,
            },
    {
        if secondary_button_down {
            MenuAction::ShowContextMenu(make_context_menu())
        } else {
            MenuAction::Forward
        }
    }
}

} // verus!
