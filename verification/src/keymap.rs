//! Commands and their key bindings.
use vstd::prelude::*;

use crate::keys::{chords_from, normalized_chord, sequence_label, sequence_of, KeyChord, KeyEvent, KeySequence};
use crate::text::{chars_of, push_str, same_chars, sorted_unique, string_of, string_views, strictly_sorted};

verus! {

/// Everything a key binding can trigger.
#[derive(Debug, Clone, Copy, PartialEq, Eq, Structural, Hash)]
pub enum AppCommand {
    Quit,
    FocusNext,
    FocusPrevious,
    MoveDown,
    MoveUp,
    GoFirst,
    GoLast,
    Activate,
    ShowHelp,
    ReloadFiles,
    ReloadConfig,
    OpenQuickSearch,
    FindInBuffer,
    OpenGraph,
    OpenTaskView,
    OpenThemeSelector,
    OpenJournal,
    HistoryBack,
    HistoryForward,
    ToggleSidebar,
    ToggleOutline,
    ShrinkPanel,
    GrowPanel,
    ToggleZen,
    OpenSelected,
    ContentAction,
    NextTarget,
    PreviousTarget,
    ToggleFloatingCursor,
    HalfPageDown,
    HalfPageUp,
    ToggleFrontmatter,
    ToggleFold,
    FoldAll,
    UnfoldAll,
    EditNote,
    CreateNote,
    CreateFolder,
    DeleteItem,
    RenameItem,
    CutItem,
    PasteItem,
    CancelCut,
    SidebarSearch,
    CycleSort,
    ToggleEditorMode,
}

/// Position of a command in [`AppCommand::all`].
pub open spec fn command_index(c: AppCommand) -> int {
    match c {
        AppCommand::Quit => 0,
        AppCommand::FocusNext => 1,
        AppCommand::FocusPrevious => 2,
        AppCommand::MoveDown => 3,
        AppCommand::MoveUp => 4,
        AppCommand::GoFirst => 5,
        AppCommand::GoLast => 6,
        AppCommand::Activate => 7,
        AppCommand::ShowHelp => 8,
        AppCommand::ReloadFiles => 9,
        AppCommand::ReloadConfig => 10,
        AppCommand::OpenQuickSearch => 11,
        AppCommand::FindInBuffer => 12,
        AppCommand::OpenGraph => 13,
        AppCommand::OpenTaskView => 14,
        AppCommand::OpenThemeSelector => 15,
        AppCommand::OpenJournal => 16,
        AppCommand::HistoryBack => 17,
        AppCommand::HistoryForward => 18,
        AppCommand::ToggleSidebar => 19,
        AppCommand::ToggleOutline => 20,
        AppCommand::ShrinkPanel => 21,
        AppCommand::GrowPanel => 22,
        AppCommand::ToggleZen => 23,
        AppCommand::OpenSelected => 24,
        AppCommand::ContentAction => 25,
        AppCommand::NextTarget => 26,
        AppCommand::PreviousTarget => 27,
        AppCommand::ToggleFloatingCursor => 28,
        AppCommand::HalfPageDown => 29,
        AppCommand::HalfPageUp => 30,
        AppCommand::ToggleFrontmatter => 31,
        AppCommand::ToggleFold => 32,
        AppCommand::FoldAll => 33,
        AppCommand::UnfoldAll => 34,
        AppCommand::EditNote => 35,
        AppCommand::CreateNote => 36,
        AppCommand::CreateFolder => 37,
        AppCommand::DeleteItem => 38,
        AppCommand::RenameItem => 39,
        AppCommand::CutItem => 40,
        AppCommand::PasteItem => 41,
        AppCommand::CancelCut => 42,
        AppCommand::SidebarSearch => 43,
        AppCommand::CycleSort => 44,
        AppCommand::ToggleEditorMode => 45,
    }
}

/// The identifier of a command in configuration files.
pub open spec fn command_id(c: AppCommand) -> Seq<char> {
    match c {
        AppCommand::Quit => "quit"@,
        AppCommand::FocusNext => "focus_next"@,
        AppCommand::FocusPrevious => "focus_previous"@,
        AppCommand::MoveDown => "move_down"@,
        AppCommand::MoveUp => "move_up"@,
        AppCommand::GoFirst => "go_first"@,
        AppCommand::GoLast => "go_last"@,
        AppCommand::Activate => "activate"@,
        AppCommand::ShowHelp => "show_help"@,
        AppCommand::ReloadFiles => "reload_files"@,
        AppCommand::ReloadConfig => "reload_config"@,
        AppCommand::OpenQuickSearch => "open_quick_search"@,
        AppCommand::FindInBuffer => "find_in_buffer"@,
        AppCommand::OpenGraph => "open_graph"@,
        AppCommand::OpenTaskView => "open_task_view"@,
        AppCommand::OpenThemeSelector => "open_theme_selector"@,
        AppCommand::OpenJournal => "open_journal"@,
        AppCommand::HistoryBack => "history_back"@,
        AppCommand::HistoryForward => "history_forward"@,
        AppCommand::ToggleSidebar => "toggle_sidebar"@,
        AppCommand::ToggleOutline => "toggle_outline"@,
        AppCommand::ShrinkPanel => "shrink_panel"@,
        AppCommand::GrowPanel => "grow_panel"@,
        AppCommand::ToggleZen => "toggle_zen"@,
        AppCommand::OpenSelected => "open_selected"@,
        AppCommand::ContentAction => "content_action"@,
        AppCommand::NextTarget => "next_target"@,
        AppCommand::PreviousTarget => "previous_target"@,
        AppCommand::ToggleFloatingCursor => "toggle_floating_cursor"@,
        AppCommand::HalfPageDown => "half_page_down"@,
        AppCommand::HalfPageUp => "half_page_up"@,
        AppCommand::ToggleFrontmatter => "toggle_frontmatter"@,
        AppCommand::ToggleFold => "toggle_fold"@,
        AppCommand::FoldAll => "fold_all"@,
        AppCommand::UnfoldAll => "unfold_all"@,
        AppCommand::EditNote => "edit_note"@,
        AppCommand::CreateNote => "create_note"@,
        AppCommand::CreateFolder => "create_folder"@,
        AppCommand::DeleteItem => "delete_item"@,
        AppCommand::RenameItem => "rename_item"@,
        AppCommand::CutItem => "cut_item"@,
        AppCommand::PasteItem => "paste_item"@,
        AppCommand::CancelCut => "cancel_cut"@,
        AppCommand::SidebarSearch => "sidebar_search"@,
        AppCommand::CycleSort => "cycle_sort"@,
        AppCommand::ToggleEditorMode => "toggle_editor_mode"@,
    }
}

/// The built-in bindings of a command.
pub open spec fn default_binding_specs(c: AppCommand) -> Seq<Seq<char>> {
    match c {
        AppCommand::Quit => seq!["q"@],
        AppCommand::FocusNext => seq!["tab"@, "l"@, "right"@],
        AppCommand::FocusPrevious => seq!["shift+tab"@, "h"@, "left"@],
        AppCommand::MoveDown => seq!["down"@, "j"@],
        AppCommand::MoveUp => seq!["up"@, "k"@],
        AppCommand::GoFirst => seq!["g g"@],
        AppCommand::GoLast => seq!["shift+g"@],
        AppCommand::Activate => seq!["enter"@],
        AppCommand::ShowHelp => seq!["?"@],
        AppCommand::ReloadFiles => seq!["shift+r"@],
        AppCommand::ReloadConfig => seq!["ctrl+shift+r"@],
        AppCommand::OpenQuickSearch => seq!["ctrl+k"@],
        AppCommand::FindInBuffer => seq!["ctrl+f"@],
        AppCommand::OpenGraph => seq!["ctrl+g"@],
        AppCommand::OpenTaskView => seq!["ctrl+y"@],
        AppCommand::OpenThemeSelector => seq!["ctrl+t"@],
        AppCommand::OpenJournal => seq!["t"@],
        AppCommand::HistoryBack => seq!["-"@],
        AppCommand::HistoryForward => seq!["="@],
        AppCommand::ToggleSidebar => seq!["ctrl+b"@],
        AppCommand::ToggleOutline => seq!["ctrl+o"@],
        AppCommand::ShrinkPanel => seq!["<"@],
        AppCommand::GrowPanel => seq![">"@],
        AppCommand::ToggleZen => seq!["ctrl+z"@],
        AppCommand::OpenSelected => seq!["o"@],
        AppCommand::ContentAction => seq!["space"@],
        AppCommand::NextTarget => seq!["]"@],
        AppCommand::PreviousTarget => seq!["["@],
        AppCommand::ToggleFloatingCursor => seq!["shift+j"@, "shift+k"@],
        AppCommand::HalfPageDown => seq!["ctrl+d"@],
        AppCommand::HalfPageUp => seq!["ctrl+u"@],
        AppCommand::ToggleFrontmatter => seq!["ctrl+m"@],
        AppCommand::ToggleFold => seq!["z a"@],
        AppCommand::FoldAll => seq!["z shift+m"@],
        AppCommand::UnfoldAll => seq!["z shift+r"@],
        AppCommand::EditNote => seq!["e"@],
        AppCommand::CreateNote => seq!["n"@],
        AppCommand::CreateFolder => seq!["shift+n"@],
        AppCommand::DeleteItem => seq!["d"@],
        AppCommand::RenameItem => seq!["r"@],
        AppCommand::CutItem => seq!["x"@],
        AppCommand::PasteItem => seq!["p"@],
        AppCommand::CancelCut => seq!["esc"@],
        AppCommand::SidebarSearch => seq!["/"@],
        AppCommand::CycleSort => seq!["s"@],
        AppCommand::ToggleEditorMode => seq!["f6"@],
    }
}

/// The command at position `i` of the canonical order.
pub open spec fn command_at(i: int) -> AppCommand {
    if i <= 0 {
        AppCommand::Quit
    } else if i == 1 {
        AppCommand::FocusNext
    } else if i == 2 {
        AppCommand::FocusPrevious
    } else if i == 3 {
        AppCommand::MoveDown
    } else if i == 4 {
        AppCommand::MoveUp
    } else if i == 5 {
        AppCommand::GoFirst
    } else if i == 6 {
        AppCommand::GoLast
    } else if i == 7 {
        AppCommand::Activate
    } else if i == 8 {
        AppCommand::ShowHelp
    } else if i == 9 {
        AppCommand::ReloadFiles
    } else if i == 10 {
        AppCommand::ReloadConfig
    } else if i == 11 {
        AppCommand::OpenQuickSearch
    } else if i == 12 {
        AppCommand::FindInBuffer
    } else if i == 13 {
        AppCommand::OpenGraph
    } else if i == 14 {
        AppCommand::OpenTaskView
    } else if i == 15 {
        AppCommand::OpenThemeSelector
    } else if i == 16 {
        AppCommand::OpenJournal
    } else if i == 17 {
        AppCommand::HistoryBack
    } else if i == 18 {
        AppCommand::HistoryForward
    } else if i == 19 {
        AppCommand::ToggleSidebar
    } else if i == 20 {
        AppCommand::ToggleOutline
    } else if i == 21 {
        AppCommand::ShrinkPanel
    } else if i == 22 {
        AppCommand::GrowPanel
    } else if i == 23 {
        AppCommand::ToggleZen
    } else if i == 24 {
        AppCommand::OpenSelected
    } else if i == 25 {
        AppCommand::ContentAction
    } else if i == 26 {
        AppCommand::NextTarget
    } else if i == 27 {
        AppCommand::PreviousTarget
    } else if i == 28 {
        AppCommand::ToggleFloatingCursor
    } else if i == 29 {
        AppCommand::HalfPageDown
    } else if i == 30 {
        AppCommand::HalfPageUp
    } else if i == 31 {
        AppCommand::ToggleFrontmatter
    } else if i == 32 {
        AppCommand::ToggleFold
    } else if i == 33 {
        AppCommand::FoldAll
    } else if i == 34 {
        AppCommand::UnfoldAll
    } else if i == 35 {
        AppCommand::EditNote
    } else if i == 36 {
        AppCommand::CreateNote
    } else if i == 37 {
        AppCommand::CreateFolder
    } else if i == 38 {
        AppCommand::DeleteItem
    } else if i == 39 {
        AppCommand::RenameItem
    } else if i == 40 {
        AppCommand::CutItem
    } else if i == 41 {
        AppCommand::PasteItem
    } else if i == 42 {
        AppCommand::CancelCut
    } else if i == 43 {
        AppCommand::SidebarSearch
    } else if i == 44 {
        AppCommand::CycleSort
    } else {
        AppCommand::ToggleEditorMode
    }
}

/// Positions and commands correspond one to one.
pub proof fn lemma_command_positions()
    ensures
        forall|c: AppCommand| #[trigger] command_at(command_index(c)) == c,
        forall|i: int| 0 <= i < 46 ==> command_index(#[trigger] command_at(i)) == i,
        forall|c: AppCommand| 0 <= #[trigger] command_index(c) < 46,
{
}

/// The first command, from position `i` on, with the given identifier.
pub open spec fn first_command_with_id(id: Seq<char>, i: int) -> Option<AppCommand>
    decreases 46 - i,
{
    if i < 0 || i >= 46 {
        None
    } else if command_id(command_at(i)) == id {
        Some(command_at(i))
    } else {
        first_command_with_id(id, i + 1)
    }
}

/// The command a configuration identifier names, if any.
pub open spec fn command_of_id(id: Seq<char>) -> Option<AppCommand> {
    first_command_with_id(id, 0)
}

impl AppCommand {
    /// Every command, in canonical order.
    pub fn all() -> (v: Vec<AppCommand>)
        ensures
            v@.len() == 46,
            forall|i: int| 0 <= i < 46 ==> #[trigger] v@[i] == command_at(i),
            forall|c: AppCommand| #[trigger] v@[command_index(c)] == c,
            forall|i: int| 0 <= i < 46 ==> command_index(#[trigger] v@[i]) == i,
    {
        let v = vec![
            AppCommand::Quit,
            AppCommand::FocusNext,
            AppCommand::FocusPrevious,
            AppCommand::MoveDown,
            AppCommand::MoveUp,
            AppCommand::GoFirst,
            AppCommand::GoLast,
            AppCommand::Activate,
            AppCommand::ShowHelp,
            AppCommand::ReloadFiles,
            AppCommand::ReloadConfig,
            AppCommand::OpenQuickSearch,
            AppCommand::FindInBuffer,
            AppCommand::OpenGraph,
            AppCommand::OpenTaskView,
            AppCommand::OpenThemeSelector,
            AppCommand::OpenJournal,
            AppCommand::HistoryBack,
            AppCommand::HistoryForward,
            AppCommand::ToggleSidebar,
            AppCommand::ToggleOutline,
            AppCommand::ShrinkPanel,
            AppCommand::GrowPanel,
            AppCommand::ToggleZen,
            AppCommand::OpenSelected,
            AppCommand::ContentAction,
            AppCommand::NextTarget,
            AppCommand::PreviousTarget,
            AppCommand::ToggleFloatingCursor,
            AppCommand::HalfPageDown,
            AppCommand::HalfPageUp,
            AppCommand::ToggleFrontmatter,
            AppCommand::ToggleFold,
            AppCommand::FoldAll,
            AppCommand::UnfoldAll,
            AppCommand::EditNote,
            AppCommand::CreateNote,
            AppCommand::CreateFolder,
            AppCommand::DeleteItem,
            AppCommand::RenameItem,
            AppCommand::CutItem,
            AppCommand::PasteItem,
            AppCommand::CancelCut,
            AppCommand::SidebarSearch,
            AppCommand::CycleSort,
            AppCommand::ToggleEditorMode,
        ];
        assert forall|i: int| 0 <= i < 46 implies command_index(#[trigger] v@[i]) == i by {
        }
        v
    }

    /// The identifier of the command in configuration files.
    pub fn id(self) -> (s: &'static str)
        ensures
            s@ == command_id(self),
    {
        match self {
            AppCommand::Quit => "quit",
            AppCommand::FocusNext => "focus_next",
            AppCommand::FocusPrevious => "focus_previous",
            AppCommand::MoveDown => "move_down",
            AppCommand::MoveUp => "move_up",
            AppCommand::GoFirst => "go_first",
            AppCommand::GoLast => "go_last",
            AppCommand::Activate => "activate",
            AppCommand::ShowHelp => "show_help",
            AppCommand::ReloadFiles => "reload_files",
            AppCommand::ReloadConfig => "reload_config",
            AppCommand::OpenQuickSearch => "open_quick_search",
            AppCommand::FindInBuffer => "find_in_buffer",
            AppCommand::OpenGraph => "open_graph",
            AppCommand::OpenTaskView => "open_task_view",
            AppCommand::OpenThemeSelector => "open_theme_selector",
            AppCommand::OpenJournal => "open_journal",
            AppCommand::HistoryBack => "history_back",
            AppCommand::HistoryForward => "history_forward",
            AppCommand::ToggleSidebar => "toggle_sidebar",
            AppCommand::ToggleOutline => "toggle_outline",
            AppCommand::ShrinkPanel => "shrink_panel",
            AppCommand::GrowPanel => "grow_panel",
            AppCommand::ToggleZen => "toggle_zen",
            AppCommand::OpenSelected => "open_selected",
            AppCommand::ContentAction => "content_action",
            AppCommand::NextTarget => "next_target",
            AppCommand::PreviousTarget => "previous_target",
            AppCommand::ToggleFloatingCursor => "toggle_floating_cursor",
            AppCommand::HalfPageDown => "half_page_down",
            AppCommand::HalfPageUp => "half_page_up",
            AppCommand::ToggleFrontmatter => "toggle_frontmatter",
            AppCommand::ToggleFold => "toggle_fold",
            AppCommand::FoldAll => "fold_all",
            AppCommand::UnfoldAll => "unfold_all",
            AppCommand::EditNote => "edit_note",
            AppCommand::CreateNote => "create_note",
            AppCommand::CreateFolder => "create_folder",
            AppCommand::DeleteItem => "delete_item",
            AppCommand::RenameItem => "rename_item",
            AppCommand::CutItem => "cut_item",
            AppCommand::PasteItem => "paste_item",
            AppCommand::CancelCut => "cancel_cut",
            AppCommand::SidebarSearch => "sidebar_search",
            AppCommand::CycleSort => "cycle_sort",
            AppCommand::ToggleEditorMode => "toggle_editor_mode",
        }
    }

    /// The built-in bindings of the command.
    pub fn default_bindings(self) -> (v: Vec<&'static str>)
        ensures
            v@.len() == default_binding_specs(self).len(),
            forall|i: int| 0 <= i < v@.len() ==> (#[trigger] v@[i])@ == default_binding_specs(self)[i],
    {
        match self {
            AppCommand::Quit => vec!["q"],
            AppCommand::FocusNext => vec!["tab", "l", "right"],
            AppCommand::FocusPrevious => vec!["shift+tab", "h", "left"],
            AppCommand::MoveDown => vec!["down", "j"],
            AppCommand::MoveUp => vec!["up", "k"],
            AppCommand::GoFirst => vec!["g g"],
            AppCommand::GoLast => vec!["shift+g"],
            AppCommand::Activate => vec!["enter"],
            AppCommand::ShowHelp => vec!["?"],
            AppCommand::ReloadFiles => vec!["shift+r"],
            AppCommand::ReloadConfig => vec!["ctrl+shift+r"],
            AppCommand::OpenQuickSearch => vec!["ctrl+k"],
            AppCommand::FindInBuffer => vec!["ctrl+f"],
            AppCommand::OpenGraph => vec!["ctrl+g"],
            AppCommand::OpenTaskView => vec!["ctrl+y"],
            AppCommand::OpenThemeSelector => vec!["ctrl+t"],
            AppCommand::OpenJournal => vec!["t"],
            AppCommand::HistoryBack => vec!["-"],
            AppCommand::HistoryForward => vec!["="],
            AppCommand::ToggleSidebar => vec!["ctrl+b"],
            AppCommand::ToggleOutline => vec!["ctrl+o"],
            AppCommand::ShrinkPanel => vec!["<"],
            AppCommand::GrowPanel => vec![">"],
            AppCommand::ToggleZen => vec!["ctrl+z"],
            AppCommand::OpenSelected => vec!["o"],
            AppCommand::ContentAction => vec!["space"],
            AppCommand::NextTarget => vec!["]"],
            AppCommand::PreviousTarget => vec!["["],
            AppCommand::ToggleFloatingCursor => vec!["shift+j", "shift+k"],
            AppCommand::HalfPageDown => vec!["ctrl+d"],
            AppCommand::HalfPageUp => vec!["ctrl+u"],
            AppCommand::ToggleFrontmatter => vec!["ctrl+m"],
            AppCommand::ToggleFold => vec!["z a"],
            AppCommand::FoldAll => vec!["z shift+m"],
            AppCommand::UnfoldAll => vec!["z shift+r"],
            AppCommand::EditNote => vec!["e"],
            AppCommand::CreateNote => vec!["n"],
            AppCommand::CreateFolder => vec!["shift+n"],
            AppCommand::DeleteItem => vec!["d"],
            AppCommand::RenameItem => vec!["r"],
            AppCommand::CutItem => vec!["x"],
            AppCommand::PasteItem => vec!["p"],
            AppCommand::CancelCut => vec!["esc"],
            AppCommand::SidebarSearch => vec!["/"],
            AppCommand::CycleSort => vec!["s"],
            AppCommand::ToggleEditorMode => vec!["f6"],
        }
    }

    /// The command with the given identifier, if any.
    pub fn from_id(id: &str) -> (r: Option<AppCommand>)
        ensures
            r == command_of_id(id@),
            r matches Some(c) ==> command_id(c) == id@,
            r is None ==> forall|c: AppCommand| command_id(c) != id@,
    {
        let all = AppCommand::all();
        let target = chars_of(id);
        proof {
            lemma_command_positions();
        }
        let mut i: usize = 0;
        while i < all.len()
            invariant
                i <= all@.len() == 46,
                target@ == id@,
                forall|k: int| 0 <= k < 46 ==> #[trigger] all@[k] == command_at(k),
                forall|c: AppCommand| #[trigger] command_at(command_index(c)) == c,
                forall|c: AppCommand| 0 <= #[trigger] command_index(c) < 46,
                command_of_id(id@) == first_command_with_id(id@, i as int),
                forall|j: int| 0 <= j < i ==> command_id(#[trigger] command_at(j)) != id@,
            decreases all@.len() - i,
        {
            let c = all[i];
            let name = chars_of(c.id());
            if same_chars(name.as_slice(), target.as_slice()) {
                return Some(c);
            }
            i += 1;
        }
        assert forall|c: AppCommand| command_id(c) != id@ by {
            assert(command_at(command_index(c)) == c);
        }
        None
    }
}

/// The bindings configured for one command.
#[derive(Debug, Clone)]
pub struct BindingEntry {
    pub command: String,
    pub bindings: Vec<String>,
}

/// Key bindings by command identifier, as the `[keybindings]` table holds
/// them. Entries later in the list override earlier ones for the same
/// identifier.
#[derive(Debug, Clone)]
pub struct KeybindingsConfig(pub Vec<BindingEntry>);

/// The configuration lists, for each command in canonical order, its
/// identifier and its built-in bindings.
pub open spec fn is_default_config(c: KeybindingsConfig) -> bool {
    &&& c.0@.len() == 46
    &&& forall|i: int|
        0 <= i < 46 ==> {
            let e = #[trigger] c.0@[i];
            let cmd = choose|x: AppCommand| command_index(x) == i;
            &&& e.command@ == command_id(cmd)
            &&& e.bindings@.len() == default_binding_specs(cmd).len()
            &&& forall|k: int|
                0 <= k < e.bindings@.len() ==> (#[trigger] e.bindings@[k])@ == default_binding_specs(cmd)[k]
        }
}

/// No command identifier has two entries.
pub open spec fn ids_unique(entries: Seq<BindingEntry>) -> bool {
    forall|i: int, j: int| 0 <= i < j < entries.len() ==> entries[i].command@ != entries[j].command@
}

impl KeybindingsConfig {
    /// Each identifier has at most one entry, as in a table keyed by
    /// identifier.
    pub open spec fn wf(&self) -> bool {
        ids_unique(self.0@)
    }

    /// A table with no entries.
    pub fn new() -> (c: KeybindingsConfig)
        ensures
            c.wf(),
            c.0@.len() == 0,
    {
        KeybindingsConfig(Vec::new())
    }

    /// Sets the bindings of `command`: replaces its entry where it has one,
    /// and adds one at the end otherwise.
    pub fn set_bindings(&mut self, command: String, bindings: Vec<String>)
        requires
            old(self).wf(),
        ensures
            final(self).wf(),
            (exists|i: int| 0 <= i < old(self).0@.len() && old(self).0@[i].command@ == command@) ==> exists|i: int|
                0 <= i < old(self).0@.len() && old(self).0@[i].command@ == command@ && final(self).0@ == old(
                    self,
                ).0@.update(i, BindingEntry { command, bindings }),
            !(exists|i: int| 0 <= i < old(self).0@.len() && old(self).0@[i].command@ == command@) ==> final(self).0@
                == old(self).0@.push(BindingEntry { command, bindings }),
    {
        let n = self.0.len();
        let mut i: usize = 0;
        while i < n
            invariant
                n == self.0@.len(),
                self.0@ == old(self).0@,
                ids_unique(old(self).0@),
                i <= n,
                forall|k: int| 0 <= k < i ==> self.0@[k].command@ != command@,
            decreases n - i,
        {
            if self.0[i].command == command {
                let ghost before = self.0@;
                self.0.set(i, BindingEntry { command, bindings });
                proof {
                    assert forall|a: int, b: int| 0 <= a < b < self.0@.len() implies self.0@[a].command@
                        != self.0@[b].command@ by {
                        assert(self.0@[a].command@ == before[a].command@);
                        assert(self.0@[b].command@ == before[b].command@);
                    }
                }
                return;
            }
            i += 1;
        }
        self.0.push(BindingEntry { command, bindings });
    }
}

impl Default for KeybindingsConfig {
    fn default() -> (c: KeybindingsConfig)
        ensures
            is_default_config(c),
            c.wf(),
    {
        let all = AppCommand::all();
        let mut entries: Vec<BindingEntry> = Vec::new();
        let mut i: usize = 0;
        while i < all.len()
            invariant
                i <= all@.len() == 46,
                forall|c: AppCommand| #[trigger] all@[command_index(c)] == c,
                forall|j: int| 0 <= j < 46 ==> command_index(#[trigger] all@[j]) == j,
                entries@.len() == i,
                forall|j: int|
                    0 <= j < i ==> {
                        let e = #[trigger] entries@[j];
                        let cmd = all@[j];
                        &&& e.command@ == command_id(cmd)
                        &&& e.bindings@.len() == default_binding_specs(cmd).len()
                        &&& forall|k: int|
                            0 <= k < e.bindings@.len() ==> (#[trigger] e.bindings@[k])@
                                == default_binding_specs(cmd)[k]
                    },
            decreases all@.len() - i,
        {
            let command = all[i];
            let specs = command.default_bindings();
            let mut bindings: Vec<String> = Vec::new();
            let mut k: usize = 0;
            while k < specs.len()
                invariant
                    k <= specs@.len() == default_binding_specs(command).len(),
                    forall|m: int| 0 <= m < specs@.len() ==> (#[trigger] specs@[m])@ == default_binding_specs(command)[m],
                    bindings@.len() == k,
                    forall|m: int| 0 <= m < k ==> (#[trigger] bindings@[m])@ == default_binding_specs(command)[m],
                decreases specs@.len() - k,
            {
                bindings.push(specs[k].to_owned());
                k += 1;
            }
            entries.push(BindingEntry { command: command.id().to_owned(), bindings });
            i += 1;
        }
        let c = KeybindingsConfig(entries);
        assert forall|j: int| 0 <= j < 46 implies (choose|x: AppCommand| command_index(x) == j) == all@[j] by {
            let x = choose|x: AppCommand| command_index(x) == j;
            assert(command_index(all@[j]) == j);
            assert(all@[command_index(x)] == x);
        }
        assert forall|a: int, b: int| 0 <= a < b < c.0@.len() implies c.0@[a].command@ != c.0@[b].command@ by {
            if c.0@[a].command@ == c.0@[b].command@ {
                assert(command_id(all@[a]) == command_id(all@[b]));
                lemma_command_id_injective(all@[a], all@[b]);
                assert(command_index(all@[a]) == a);
                assert(command_index(all@[b]) == b);
            }
        }
        c
    }
}

/// Key bindings that could not be accepted, one message per problem.
#[derive(Debug, Clone)]
pub struct KeybindingValidationError {
    pub issues: Vec<String>,
}

/// Which bindings were used instead of an invalid configuration.
#[derive(Debug, Clone, Copy, PartialEq, Eq, Structural)]
pub enum KeybindingFallback {
    Defaults,
    Previous,
}

/// A warning about rejected key bindings, shown until dismissed.
#[derive(Debug, Clone)]
pub struct KeybindingWarning {
    pub issues: Vec<String>,
    pub fallback: KeybindingFallback,
    pub scroll: usize,
}

impl KeybindingWarning {
    /// A warning listing the error's issues, scrolled to the top.
    pub fn new(error: KeybindingValidationError, fallback: KeybindingFallback) -> (w: KeybindingWarning)
        ensures
            w.issues@ == error.issues@,
            w.fallback == fallback,
            w.scroll == 0,
    {
        KeybindingWarning { issues: error.issues, fallback, scroll: 0 }
    }
}

/// What a key press amounts to.
#[derive(Debug, Clone, Copy, PartialEq, Eq, Structural)]
pub enum KeyResolution {
    NoMatch,
    Pending,
    Command(AppCommand),
}

/// The binding specifications in force for command `c`: those of the last
/// configuration entry whose identifier names it, or else its built-in ones.
pub open spec fn configured_specs(entries: Seq<BindingEntry>, c: AppCommand) -> Seq<Seq<char>>
    decreases entries.len(),
{
    if entries.len() == 0 {
        default_binding_specs(c)
    } else if command_of_id(entries.last().command@) == Some(c) {
        string_views(entries.last().bindings@)
    } else {
        configured_specs(entries.drop_last(), c)
    }
}

/// The key sequences parsed from `specs[..k]`, in order, without repeats;
/// specifications that do not parse are left out.
pub open spec fn kept_sequences(specs: Seq<Seq<char>>, k: int) -> Seq<Seq<KeyChord>>
    decreases k,
{
    if k <= 0 {
        Seq::empty()
    } else {
        let prev = kept_sequences(specs, k - 1);
        match sequence_of(specs[k - 1]) {
            Ok(q) => if prev.contains(q) {
                prev
            } else {
                prev.push(q)
            },
            Err(_) => prev,
        }
    }
}

/// The key sequences bound to command `c`.
pub open spec fn command_sequences(entries: Seq<BindingEntry>, c: AppCommand) -> Seq<Seq<KeyChord>> {
    kept_sequences(configured_specs(entries, c), configured_specs(entries, c).len() as int)
}

/// The message for a configuration entry that names no command.
pub open spec fn unknown_id_issue(id: Seq<char>) -> Seq<char> {
    "Unknown keybinding command '"@ + id + "'."@
}

/// The message for a specification that does not parse.
pub open spec fn invalid_binding_issue(spec: Seq<char>, id: Seq<char>, error: Seq<char>) -> Seq<char> {
    "Invalid binding '"@ + spec + "' for '"@ + id + "': "@ + error + "."@
}

/// The message for two bindings of different commands that cannot both
/// work: the same sequence, or one a proper prefix of the other.
pub open spec fn clash_issue(l: (AppCommand, Seq<KeyChord>), r: (AppCommand, Seq<KeyChord>)) -> Option<
    Seq<char>,
> {
    if l.0 == r.0 {
        None
    } else if l.1 == r.1 {
        Some(
            "Binding '"@ + sequence_label(l.1) + "' is assigned to both '"@ + command_id(l.0) + "' and '"@
                + command_id(r.0) + "'."@,
        )
    } else if l.1.len() < r.1.len() && r.1.take(l.1.len() as int) == l.1 {
        Some(
            "Binding '"@ + sequence_label(l.1) + "' for '"@ + command_id(l.0)
                + "' conflicts with the prefix of '"@ + sequence_label(r.1) + "' for '"@ + command_id(r.0)
                + "'."@,
        )
    } else if r.1.len() < l.1.len() && l.1.take(r.1.len() as int) == r.1 {
        Some(
            "Binding '"@ + sequence_label(r.1) + "' for '"@ + command_id(r.0)
                + "' conflicts with the prefix of '"@ + sequence_label(l.1) + "' for '"@ + command_id(l.0)
                + "'."@,
        )
    } else {
        None
    }
}

/// Messages for the entries `entries[..i]` that name no command.
pub open spec fn unknown_issues(entries: Seq<BindingEntry>, i: int) -> Seq<Seq<char>>
    decreases i,
{
    if i <= 0 {
        Seq::empty()
    } else if command_of_id(entries[i - 1].command@) is None {
        unknown_issues(entries, i - 1).push(unknown_id_issue(entries[i - 1].command@))
    } else {
        unknown_issues(entries, i - 1)
    }
}

/// Messages for the specifications `specs[..k]` of command `id` that do not
/// parse.
pub open spec fn invalid_issues_of(specs: Seq<Seq<char>>, id: Seq<char>, k: int) -> Seq<Seq<char>>
    decreases k,
{
    if k <= 0 {
        Seq::empty()
    } else {
        match sequence_of(specs[k - 1]) {
            Err(e) => invalid_issues_of(specs, id, k - 1).push(invalid_binding_issue(specs[k - 1], id, e)),
            Ok(_) => invalid_issues_of(specs, id, k - 1),
        }
    }
}

/// Messages for unparsable specifications of the first `ci` commands.
pub open spec fn invalid_issues(entries: Seq<BindingEntry>, ci: int) -> Seq<Seq<char>>
    decreases ci,
{
    if ci <= 0 {
        Seq::empty()
    } else {
        let c = command_at(ci - 1);
        let specs = configured_specs(entries, c);
        invalid_issues(entries, ci - 1) + invalid_issues_of(specs, command_id(c), specs.len() as int)
    }
}

/// Every binding of the first `ci` commands, with its command, in command
/// order.
pub open spec fn flat_bindings(entries: Seq<BindingEntry>, ci: int) -> Seq<(AppCommand, Seq<KeyChord>)>
    decreases ci,
{
    if ci <= 0 {
        Seq::empty()
    } else {
        let c = command_at(ci - 1);
        flat_bindings(entries, ci - 1) + command_sequences(entries, c).map_values(
            |q: Seq<KeyChord>| (c, q),
        )
    }
}

/// Clash messages of binding `i` against bindings `i + 1 .. j`.
pub open spec fn clash_row(f: Seq<(AppCommand, Seq<KeyChord>)>, i: int, j: int) -> Seq<Seq<char>>
    decreases j - i,
{
    if j <= i + 1 {
        Seq::empty()
    } else {
        match clash_issue(f[i], f[j - 1]) {
            Some(m) => clash_row(f, i, j - 1).push(m),
            None => clash_row(f, i, j - 1),
        }
    }
}

/// Clash messages of the bindings before `i` against all later ones.
pub open spec fn clash_issues(f: Seq<(AppCommand, Seq<KeyChord>)>, i: int) -> Seq<Seq<char>>
    decreases i,
{
    if i <= 0 {
        Seq::empty()
    } else {
        clash_issues(f, i - 1) + clash_row(f, i - 1, f.len() as int)
    }
}

/// Every problem of a key binding configuration.
pub open spec fn keymap_issues(entries: Seq<BindingEntry>) -> Seq<Seq<char>> {
    let f = flat_bindings(entries, 46);
    unknown_issues(entries, entries.len() as int) + invalid_issues(entries, 46) + clash_issues(
        f,
        f.len() as int,
    )
}

/// The chord lists of key sequences.
pub open spec fn sequence_views(qs: Seq<KeySequence>) -> Seq<Seq<KeyChord>> {
    qs.map_values(|q: KeySequence| q.0@)
}

/// A copy of a list of strings.
fn clone_strings(v: &Vec<String>) -> (out: Vec<String>)
    ensures
        string_views(out@) == string_views(v@),
{
    let mut out: Vec<String> = Vec::new();
    let mut i: usize = 0;
    while i < v.len()
        invariant
            i <= v@.len(),
            string_views(out@) == string_views(v@.take(i as int)),
        decreases v@.len() - i,
    {
        out.push(v[i].clone());
        assert(string_views(v@.take(i + 1)) =~= string_views(v@.take(i as int)).push(v@[i as int]@));
        assert(string_views(out@) =~= string_views(v@.take(i as int)).push(v@[i as int]@));
        i += 1;
    }
    assert(v@.take(v@.len() as int) =~= v@);
    out
}

/// The built-in binding specifications of a command, as strings.
fn default_specs(command: AppCommand) -> (out: Vec<String>)
    ensures
        string_views(out@) == default_binding_specs(command),
{
    let specs = command.default_bindings();
    let mut out: Vec<String> = Vec::new();
    let mut k: usize = 0;
    while k < specs.len()
        invariant
            k <= specs@.len() == default_binding_specs(command).len(),
            forall|m: int| 0 <= m < specs@.len() ==> (#[trigger] specs@[m])@ == default_binding_specs(command)[m],
            string_views(out@) == default_binding_specs(command).take(k as int),
        decreases specs@.len() - k,
    {
        out.push(specs[k].to_owned());
        assert(default_binding_specs(command).take(k + 1) =~= default_binding_specs(command).take(
            k as int,
        ).push(default_binding_specs(command)[k as int]));
        assert(string_views(out@) =~= default_binding_specs(command).take(k + 1));
        k += 1;
    }
    assert(default_binding_specs(command).take(specs@.len() as int) =~= default_binding_specs(command));
    out
}

/// The binding specifications in force for a command, as
/// [`configured_specs`] describes them.
fn configured_specs_exec(entries: &Vec<BindingEntry>, command: AppCommand) -> (out: Vec<String>)
    ensures
        string_views(out@) == configured_specs(entries@, command),
{
    let mut i = entries.len();
    assert(entries@.take(i as int) =~= entries@);
    while i > 0
        invariant
            i <= entries@.len(),
            configured_specs(entries@, command) == configured_specs(entries@.take(i as int), command),
        decreases i,
    {
        let ghost t = entries@.take(i as int);
        assert(t.last() == entries@[i - 1]);
        assert(t.drop_last() =~= entries@.take(i - 1));
        if AppCommand::from_id(entries[i - 1].command.as_str()) == Some(command) {
            return clone_strings(&entries[i - 1].bindings);
        }
        i -= 1;
    }
    default_specs(command)
}

/// Whether two chord lists are equal.
fn same_chords(a: &Vec<KeyChord>, b: &Vec<KeyChord>) -> (r: bool)
    ensures
        r == (a@ == b@),
{
    if a.len() != b.len() {
        return false;
    }
    let mut i: usize = 0;
    while i < a.len()
        invariant
            a@.len() == b@.len(),
            i <= a@.len(),
            forall|k: int| 0 <= k < i ==> a@[k] == b@[k],
        decreases a@.len() - i,
    {
        if a[i] != b[i] {
            return false;
        }
        i += 1;
    }
    assert(a@ =~= b@);
    true
}

/// Whether `s` begins with the chords of `p`.
fn chords_start_with(s: &Vec<KeyChord>, p: &Vec<KeyChord>) -> (r: bool)
    ensures
        r == (p@.len() <= s@.len() && s@.take(p@.len() as int) == p@),
{
    if p.len() > s.len() {
        return false;
    }
    let mut i: usize = 0;
    while i < p.len()
        invariant
            p@.len() <= s@.len(),
            i <= p@.len(),
            forall|k: int| 0 <= k < i ==> s@[k] == p@[k],
        decreases p@.len() - i,
    {
        if s[i] != p[i] {
            assert(s@.take(p@.len() as int)[i as int] != p@[i as int]);
            return false;
        }
        i += 1;
    }
    assert(s@.take(p@.len() as int) =~= p@);
    true
}

/// Whether the list holds a sequence with the same chords as `q`.
fn contains_sequence(list: &Vec<KeySequence>, q: &KeySequence) -> (r: bool)
    ensures
        r == sequence_views(list@).contains(q.0@),
{
    let mut i: usize = 0;
    while i < list.len()
        invariant
            i <= list@.len(),
            forall|k: int| 0 <= k < i ==> sequence_views(list@)[k] != q.0@,
        decreases list@.len() - i,
    {
        if same_chords(&list[i].0, &q.0) {
            assert(sequence_views(list@)[i as int] == q.0@);
            return true;
        }
        i += 1;
    }
    false
}

/// The message for a configuration entry that names no command.
fn unknown_id_message(id: &str) -> (m: String)
    ensures
        m@ == unknown_id_issue(id@),
{
    let mut m = String::new();
    push_str(&mut m, "Unknown keybinding command '");
    push_str(&mut m, id);
    push_str(&mut m, "'.");
    assert(m@ =~= unknown_id_issue(id@));
    m
}

/// The message for a specification that does not parse.
fn invalid_binding_message(spec: &str, id: &str, error: &str) -> (m: String)
    ensures
        m@ == invalid_binding_issue(spec@, id@, error@),
{
    let mut m = String::new();
    push_str(&mut m, "Invalid binding '");
    push_str(&mut m, spec);
    push_str(&mut m, "' for '");
    push_str(&mut m, id);
    push_str(&mut m, "': ");
    push_str(&mut m, error);
    push_str(&mut m, ".");
    assert(m@ =~= invalid_binding_issue(spec@, id@, error@));
    m
}

/// The message for a sequence bound to two commands.
fn duplicate_message(q: &KeySequence, first: AppCommand, second: AppCommand) -> (m: String)
    ensures
        m@ == "Binding '"@ + sequence_label(q.0@) + "' is assigned to both '"@ + command_id(first)
            + "' and '"@ + command_id(second) + "'."@,
{
    let mut m = String::new();
    push_str(&mut m, "Binding '");
    q.push_label(&mut m);
    push_str(&mut m, "' is assigned to both '");
    push_str(&mut m, first.id());
    push_str(&mut m, "' and '");
    push_str(&mut m, second.id());
    push_str(&mut m, "'.");
    assert(m@ =~= "Binding '"@ + sequence_label(q.0@) + "' is assigned to both '"@ + command_id(first)
        + "' and '"@ + command_id(second) + "'."@);
    m
}

/// The message for a sequence that is a prefix of another command's.
fn prefix_message(short: &KeySequence, short_command: AppCommand, long: &KeySequence, long_command: AppCommand) -> (m: String)
    ensures
        m@ == "Binding '"@ + sequence_label(short.0@) + "' for '"@ + command_id(short_command)
            + "' conflicts with the prefix of '"@ + sequence_label(long.0@) + "' for '"@ + command_id(
            long_command,
        ) + "'."@,
{
    let mut m = String::new();
    push_str(&mut m, "Binding '");
    short.push_label(&mut m);
    push_str(&mut m, "' for '");
    push_str(&mut m, short_command.id());
    push_str(&mut m, "' conflicts with the prefix of '");
    long.push_label(&mut m);
    push_str(&mut m, "' for '");
    push_str(&mut m, long_command.id());
    push_str(&mut m, "'.");
    assert(m@ =~= "Binding '"@ + sequence_label(short.0@) + "' for '"@ + command_id(short_command)
        + "' conflicts with the prefix of '"@ + sequence_label(long.0@) + "' for '"@ + command_id(
        long_command,
    ) + "'."@);
    m
}

/// Messages for the configuration entries that name no command.
fn unknown_id_messages(entries: &Vec<BindingEntry>) -> (issues: Vec<String>)
    ensures
        string_views(issues@) == unknown_issues(entries@, entries@.len() as int),
{
    let mut issues: Vec<String> = Vec::new();
    let mut i: usize = 0;
    while i < entries.len()
        invariant
            i <= entries@.len(),
            string_views(issues@) == unknown_issues(entries@, i as int),
        decreases entries@.len() - i,
    {
        if AppCommand::from_id(entries[i].command.as_str()).is_none() {
            let m = unknown_id_message(entries[i].command.as_str());
            issues.push(m);
            assert(string_views(issues@) =~= unknown_issues(entries@, i as int).push(
                unknown_id_issue(entries@[i as int].command@),
            ));
        }
        i += 1;
    }
    issues
}

/// Parses the specifications of one command, keeping each sequence once and
/// adding a message for each specification that does not parse.
fn parse_command_specs(specs: &Vec<String>, command: AppCommand, issues: &mut Vec<String>) -> (parsed: Vec<KeySequence>)
    ensures
        sequence_views(parsed@) == kept_sequences(string_views(specs@), specs@.len() as int),
        string_views(final(issues)@) == string_views(old(issues)@) + invalid_issues_of(
            string_views(specs@),
            command_id(command),
            specs@.len() as int,
        ),
{
    let ghost sv = string_views(specs@);
    let ghost before = string_views(issues@);
    let mut parsed: Vec<KeySequence> = Vec::new();
    let mut k: usize = 0;
    assert(before + invalid_issues_of(sv, command_id(command), 0) =~= before);
    while k < specs.len()
        invariant
            k <= specs@.len(),
            sv == string_views(specs@),
            sequence_views(parsed@) == kept_sequences(sv, k as int),
            string_views(issues@) == before + invalid_issues_of(sv, command_id(command), k as int),
        decreases specs@.len() - k,
    {
        assert(sv[k as int] == specs@[k as int]@);
        match KeySequence::parse(specs[k].as_str()) {
            Ok(q) => {
                if !contains_sequence(&parsed, &q) {
                    let ghost pv = sequence_views(parsed@);
                    parsed.push(q);
                    assert(sequence_views(parsed@) =~= pv.push(q.0@));
                }
            },
            Err(e) => {
                let m = invalid_binding_message(specs[k].as_str(), command.id(), e.as_str());
                let ghost iv = string_views(issues@);
                issues.push(m);
                assert(string_views(issues@) =~= iv.push(m@));
            },
        }
        k += 1;
    }
    parsed
}

/// Parses the bindings of every command, adding a message for each
/// specification that does not parse.
fn parse_all_commands(entries: &Vec<BindingEntry>, issues: &mut Vec<String>) -> (bindings: Vec<Vec<KeySequence>>)
    ensures
        bindings@.len() == 46,
        forall|i: int|
            0 <= i < 46 ==> #[trigger] sequence_views(bindings@[i]@) == command_sequences(entries@, command_at(i)),
        string_views(final(issues)@) == string_views(old(issues)@) + invalid_issues(entries@, 46),
{
    let all = AppCommand::all();
    let ghost before = string_views(issues@);
    let mut bindings: Vec<Vec<KeySequence>> = Vec::new();
    let mut ci: usize = 0;
    assert(before + invalid_issues(entries@, 0) =~= before);
    while ci < all.len()
        invariant
            ci <= all@.len() == 46,
            forall|k: int| 0 <= k < 46 ==> #[trigger] all@[k] == command_at(k),
            bindings@.len() == ci,
            forall|i: int|
                0 <= i < ci ==> #[trigger] sequence_views(bindings@[i]@) == command_sequences(entries@, command_at(i)),
            string_views(issues@) == before + invalid_issues(entries@, ci as int),
        decreases all@.len() - ci,
    {
        let c = all[ci];
        let specs = configured_specs_exec(entries, c);
        let ghost mid = string_views(issues@);
        let parsed = parse_command_specs(&specs, c, issues);
        assert(string_views(issues@) =~= before + invalid_issues(entries@, ci + 1));
        bindings.push(parsed);
        ci += 1;
    }
    bindings
}

/// The position of every binding as (command position, index in its list),
/// in command order.
fn flatten_bindings(entries: &Vec<BindingEntry>, bindings: &Vec<Vec<KeySequence>>) -> (flat: Vec<(usize, usize)>)
    requires
        bindings@.len() == 46,
        forall|i: int|
            0 <= i < 46 ==> #[trigger] sequence_views(bindings@[i]@) == command_sequences(entries@, command_at(i)),
    ensures
        flat@.len() == flat_bindings(entries@, 46).len(),
        forall|t: int|
            0 <= t < flat@.len() ==> {
                let ci = (#[trigger] flat@[t]).0 as int;
                let k = flat@[t].1 as int;
                &&& 0 <= ci < 46
                &&& 0 <= k < bindings@[ci]@.len()
                &&& flat_bindings(entries@, 46)[t] == (command_at(ci), sequence_views(bindings@[ci]@)[k])
            },
{
    let mut flat: Vec<(usize, usize)> = Vec::new();
    let mut ci: usize = 0;
    while ci < 46
        invariant
            ci <= 46,
            bindings@.len() == 46,
            forall|i: int|
                0 <= i < 46 ==> #[trigger] sequence_views(bindings@[i]@) == command_sequences(entries@, command_at(i)),
            flat@.len() == flat_bindings(entries@, ci as int).len(),
            forall|t: int|
                0 <= t < flat@.len() ==> {
                    let c = (#[trigger] flat@[t]).0 as int;
                    let k = flat@[t].1 as int;
                    &&& 0 <= c < 46
                    &&& 0 <= k < bindings@[c]@.len()
                    &&& flat_bindings(entries@, ci as int)[t] == (command_at(c), sequence_views(bindings@[c]@)[k])
                },
        decreases 46 - ci,
    {
        let ghost c = command_at(ci as int);
        let ghost row = command_sequences(entries@, c).map_values(|q: Seq<KeyChord>| (c, q));
        let ghost prev = flat_bindings(entries@, ci as int);
        assert(flat_bindings(entries@, ci + 1) == prev + row);
        let n = bindings[ci].len();
        let mut k: usize = 0;
        while k < n
            invariant
                ci < 46,
                k <= n == bindings@[ci as int]@.len(),
                bindings@.len() == 46,
                c == command_at(ci as int),
                prev == flat_bindings(entries@, ci as int),
                row == command_sequences(entries@, c).map_values(|q: Seq<KeyChord>| (c, q)),
                sequence_views(bindings@[ci as int]@) == command_sequences(entries@, c),
                flat@.len() == prev.len() + k,
                forall|t: int|
                    0 <= t < flat@.len() ==> {
                        let cc = (#[trigger] flat@[t]).0 as int;
                        let kk = flat@[t].1 as int;
                        &&& 0 <= cc < 46
                        &&& 0 <= kk < bindings@[cc]@.len()
                        &&& (prev + row)[t] == (command_at(cc), sequence_views(bindings@[cc]@)[kk])
                    },
            decreases n - k,
        {
            flat.push((ci, k));
            proof {
                let t = flat@.len() - 1;
                assert((prev + row)[t] == row[k as int]);
                assert(row[k as int] == (c, command_sequences(entries@, c)[k as int]));
                assert forall|t2: int| 0 <= t2 < flat@.len() implies {
                    let cc = (#[trigger] flat@[t2]).0 as int;
                    let kk = flat@[t2].1 as int;
                    &&& 0 <= cc < 46
                    &&& 0 <= kk < bindings@[cc]@.len()
                    &&& (prev + row)[t2] == (command_at(cc), sequence_views(bindings@[cc]@)[kk])
                } by {
                    if t2 < t {
                    }
                }
            }
            k += 1;
        }
        ci += 1;
    }
    flat
}

/// Adds a message for every pair of bindings of different commands that
/// clash.
fn clash_messages(
    entries: &Vec<BindingEntry>,
    bindings: &Vec<Vec<KeySequence>>,
    flat: &Vec<(usize, usize)>,
    issues: &mut Vec<String>,
)
    requires
        bindings@.len() == 46,
        flat@.len() == flat_bindings(entries@, 46).len(),
        forall|t: int|
            0 <= t < flat@.len() ==> {
                let ci = (#[trigger] flat@[t]).0 as int;
                let k = flat@[t].1 as int;
                &&& 0 <= ci < 46
                &&& 0 <= k < bindings@[ci]@.len()
                &&& flat_bindings(entries@, 46)[t] == (command_at(ci), sequence_views(bindings@[ci]@)[k])
            },
    ensures
        string_views(final(issues)@) == string_views(old(issues)@) + clash_issues(
            flat_bindings(entries@, 46),
            flat@.len() as int,
        ),
{
    let ghost f = flat_bindings(entries@, 46);
    let ghost before = string_views(issues@);
    let all = AppCommand::all();
    proof {
        lemma_command_positions();
    }
    let n = flat.len();
    let mut i: usize = 0;
    assert(before + clash_issues(f, 0) =~= before);
    while i < n
        invariant
            i <= n == flat@.len() == f.len(),
            f == flat_bindings(entries@, 46),
            all@.len() == 46,
            forall|k: int| 0 <= k < 46 ==> #[trigger] all@[k] == command_at(k),
            forall|k: int| 0 <= k < 46 ==> command_index(#[trigger] command_at(k)) == k,
            bindings@.len() == 46,
            forall|t: int|
                0 <= t < flat@.len() ==> {
                    let ci = (#[trigger] flat@[t]).0 as int;
                    let k = flat@[t].1 as int;
                    &&& 0 <= ci < 46
                    &&& 0 <= k < bindings@[ci]@.len()
                    &&& f[t] == (command_at(ci), sequence_views(bindings@[ci]@)[k])
                },
            string_views(issues@) == before + clash_issues(f, i as int),
        decreases n - i,
    {
        let ghost row_start = string_views(issues@);
        let mut j: usize = i + 1;
        assert(row_start + clash_row(f, i as int, j as int) =~= row_start);
        while j < n
            invariant
                i < j <= n == flat@.len() == f.len(),
                all@.len() == 46,
                forall|k: int| 0 <= k < 46 ==> #[trigger] all@[k] == command_at(k),
                forall|k: int| 0 <= k < 46 ==> command_index(#[trigger] command_at(k)) == k,
                bindings@.len() == 46,
                forall|t: int|
                    0 <= t < flat@.len() ==> {
                        let ci = (#[trigger] flat@[t]).0 as int;
                        let k = flat@[t].1 as int;
                        &&& 0 <= ci < 46
                        &&& 0 <= k < bindings@[ci]@.len()
                        &&& f[t] == (command_at(ci), sequence_views(bindings@[ci]@)[k])
                    },
                string_views(issues@) == row_start + clash_row(f, i as int, j as int),
            decreases n - j,
        {
            let (ci, ki) = flat[i];
            let (cj, kj) = flat[j];
            let ghost lf = f[i as int];
            let ghost rf = f[j as int];
            assert(lf == (command_at(ci as int), sequence_views(bindings@[ci as int]@)[ki as int]));
            assert(rf == (command_at(cj as int), sequence_views(bindings@[cj as int]@)[kj as int]));
            let ghost iv = string_views(issues@);
            if ci != cj {
                let l = &bindings[ci][ki];
                let r = &bindings[cj][kj];
                assert(l.0@ == lf.1);
                assert(r.0@ == rf.1);
                assert(lf.0 != rf.0) by {
                    assert(command_index(command_at(ci as int)) == ci);
                    assert(command_index(command_at(cj as int)) == cj);
                }
                if same_chords(&l.0, &r.0) {
                    let m = duplicate_message(l, all[ci], all[cj]);
                    issues.push(m);
                    assert(string_views(issues@) =~= iv.push(m@));
                } else if l.0.len() < r.0.len() && chords_start_with(&r.0, &l.0) {
                    let m = prefix_message(l, all[ci], r, all[cj]);
                    issues.push(m);
                    assert(string_views(issues@) =~= iv.push(m@));
                } else if r.0.len() < l.0.len() && chords_start_with(&l.0, &r.0) {
                    let m = prefix_message(r, all[cj], l, all[ci]);
                    issues.push(m);
                    assert(string_views(issues@) =~= iv.push(m@));
                }
            } else {
                assert(lf.0 == rf.0);
            }
            j += 1;
        }
        assert(string_views(issues@) =~= before + clash_issues(f, i + 1));
        i += 1;
    }
}

/// Every binding with the problems of a configuration, as
/// [`command_sequences`] and [`keymap_issues`] describe them.
fn build_keymap(entries: &Vec<BindingEntry>) -> (r: (Vec<Vec<KeySequence>>, Vec<String>))
    ensures
        r.0@.len() == 46,
        forall|i: int|
            0 <= i < 46 ==> #[trigger] sequence_views(r.0@[i]@) == command_sequences(entries@, command_at(i)),
        string_views(r.1@) == keymap_issues(entries@),
{
    let mut issues = unknown_id_messages(entries);
    let bindings = parse_all_commands(entries, &mut issues);
    let flat = flatten_bindings(entries, &bindings);
    clash_messages(entries, &bindings, &flat, &mut issues);
    (bindings, issues)
}

/// Resolves key presses against the bindings of every command, keeping the
/// chords of a sequence in progress.
#[derive(Debug, Clone)]
pub struct Keymap {
    bindings: Vec<Vec<KeySequence>>,
    pending: Vec<KeyChord>,
}

/// The first command from position `ci` on that is available and has a
/// binding equal to `pending`.
pub open spec fn first_exact_match(
    bindings: spec_fn(AppCommand) -> Seq<Seq<KeyChord>>,
    pending: Seq<KeyChord>,
    available: Seq<bool>,
    ci: int,
) -> Option<AppCommand>
    decreases 46 - ci,
{
    if ci < 0 || ci >= 46 {
        None
    } else if available[ci] && bindings(command_at(ci)).contains(pending) {
        Some(command_at(ci))
    } else {
        first_exact_match(bindings, pending, available, ci + 1)
    }
}

/// Some available command has a binding that starts with `pending`.
pub open spec fn some_binding_extends(
    bindings: spec_fn(AppCommand) -> Seq<Seq<KeyChord>>,
    pending: Seq<KeyChord>,
    available: Seq<bool>,
) -> bool {
    exists|ci: int, k: int|
        0 <= ci < 46 && available[ci] && 0 <= k < bindings(command_at(ci)).len() && pending.len()
            <= #[trigger] bindings(command_at(ci))[k].len() && bindings(command_at(ci))[k].take(
            pending.len() as int,
        ) == pending
}

/// What the chords pressed so far amount to: the first available command
/// bound to exactly them, else a pending sequence if an available binding
/// starts with them, else no match.
pub open spec fn resolution_of(
    bindings: spec_fn(AppCommand) -> Seq<Seq<KeyChord>>,
    pending: Seq<KeyChord>,
    available: Seq<bool>,
) -> KeyResolution {
    match first_exact_match(bindings, pending, available, 0) {
        Some(c) => KeyResolution::Command(c),
        None => if some_binding_extends(bindings, pending, available) {
            KeyResolution::Pending
        } else {
            KeyResolution::NoMatch
        },
    }
}

/// The labels of sequences joined with ` / `.
pub open spec fn joined_labels(qs: Seq<Seq<KeyChord>>) -> Seq<char>
    decreases qs.len(),
{
    if qs.len() == 0 {
        Seq::empty()
    } else if qs.len() == 1 {
        sequence_label(qs[0])
    } else {
        joined_labels(qs.drop_last()) + " / "@ + sequence_label(qs.last())
    }
}

impl Keymap {
    /// The keymap holds one list of sequences per command.
    pub closed spec fn well_formed(self) -> bool {
        self.bindings@.len() == 46
    }

    /// The key sequences bound to a command.
    pub closed spec fn sequences(self, c: AppCommand) -> Seq<Seq<KeyChord>> {
        sequence_views(self.bindings@[command_index(c)]@)
    }

    /// The chords of the sequence in progress.
    pub closed spec fn pending_chords(self) -> Seq<KeyChord> {
        self.pending@
    }

    /// The bindings of every command, as a function.
    pub open spec fn binding_map(self) -> spec_fn(AppCommand) -> Seq<Seq<KeyChord>> {
        |c: AppCommand| self.sequences(c)
    }

    /// Build the keymap of a configuration, or list every problem with it,
    /// sorted and without repeats.
    pub fn from_config(config: &KeybindingsConfig) -> (r: Result<Keymap, KeybindingValidationError>)
        ensures
            r is Ok <==> keymap_issues(config.0@).len() == 0,
            r matches Ok(k) ==> k.well_formed() && k.pending_chords().len() == 0 && forall|c: AppCommand| #[trigger] k.sequences(c)
                == command_sequences(config.0@, c),
            r matches Err(e) ==> strictly_sorted(string_views(e.issues@)) && forall|m: Seq<char>|
                string_views(e.issues@).contains(m) <==> keymap_issues(config.0@).contains(m),
    {
        let (bindings, issues) = build_keymap(&config.0);
        proof {
            lemma_command_positions();
        }
        if issues.len() == 0 {
            let k = Keymap { bindings, pending: Vec::new() };
            proof {
                assert forall|c: AppCommand| #[trigger] k.sequences(c) == command_sequences(config.0@, c) by {
                    assert(command_at(command_index(c)) == c);
                }
            }
            Ok(k)
        } else {
            let sorted = sorted_unique(&issues);
            Err(KeybindingValidationError { issues: sorted })
        }
    }

    /// Resolve one key press. The chord joins the pending sequence; when the
    /// longer sequence matches nothing, the chord is tried alone.
    /// `available[i]` says whether the command at position `i` can run now.
    pub fn resolve(&mut self, event: KeyEvent, available: &[bool]) -> (r: KeyResolution)
        requires
            old(self).well_formed(),
            available@.len() == 46,
        ensures
            final(self).well_formed(),
            ({
                let chord = normalized_chord(event.code, event.modifiers);
                let longer = old(self).pending_chords().push(chord);
                let first = resolution_of(old(self).binding_map(), longer, available@);
                let alone = resolution_of(old(self).binding_map(), seq![chord], available@);
                if first != KeyResolution::NoMatch || longer.len() == 1 {
                    &&& r == first
                    &&& final(self).pending_chords() == if first == KeyResolution::Pending {
                        longer
                    } else {
                        Seq::empty()
                    }
                } else {
                    &&& r == alone
                    &&& final(self).pending_chords() == if alone == KeyResolution::Pending {
                        seq![chord]
                    } else {
                        Seq::empty()
                    }
                }
            }),
            forall|c: AppCommand| #[trigger] final(self).sequences(c) == old(self).sequences(c),
    {
        let chord = KeyChord::from_event(event);
        let ghost map = old(self).binding_map();
        self.pending.push(chord);
        assert(self.binding_map() =~= map);
        let first = self.resolution(available);
        match first {
            KeyResolution::Command(_) => {
                self.pending.clear();
                return first;
            },
            KeyResolution::Pending => {
                return first;
            },
            KeyResolution::NoMatch => {},
        }
        if self.pending.len() == 1 {
            self.pending.clear();
            return first;
        }
        self.pending.clear();
        self.pending.push(chord);
        assert(self.pending@ =~= seq![chord]);
        assert(self.binding_map() =~= map);
        let retry = self.resolution(available);
        if retry != KeyResolution::Pending {
            self.pending.clear();
        }
        retry
    }

    /// What the pending chords amount to.
    fn resolution(&self, available: &[bool]) -> (r: KeyResolution)
        requires
            self.well_formed(),
            available@.len() == 46,
        ensures
            r == resolution_of(self.binding_map(), self.pending_chords(), available@),
    {
        proof {
            lemma_command_positions();
        }
        let ghost map = self.binding_map();
        let ghost pend = self.pending@;
        let mut has_prefix = false;
        let mut ci: usize = 0;
        while ci < 46
            invariant
                ci <= 46,
                self.bindings@.len() == 46,
                available@.len() == 46,
                map == self.binding_map(),
                pend == self.pending@,
                forall|c: AppCommand| #[trigger] command_at(command_index(c)) == c,
                forall|k: int| 0 <= k < 46 ==> command_index(#[trigger] command_at(k)) == k,
                first_exact_match(map, pend, available@, 0) == first_exact_match(map, pend, available@, ci as int),
                has_prefix == exists|c2: int, k: int|
                    0 <= c2 < ci && available@[c2] && 0 <= k < map(command_at(c2)).len() && pend.len()
                        <= #[trigger] map(command_at(c2))[k].len() && map(command_at(c2))[k].take(
                        pend.len() as int,
                    ) == pend,
            decreases 46 - ci,
        {
            if available[ci] {
                let list = &self.bindings[ci];
                let ghost row = map(command_at(ci as int));
                assert(row == sequence_views(list@));
                let mut k: usize = 0;
                while k < list.len()
                    invariant
                        k <= list@.len(),
                        ci < 46,
                        available@.len() == 46,
                        available@[ci as int],
                        map == self.binding_map(),
                        first_exact_match(map, pend, available@, 0) == first_exact_match(
                            map,
                            pend,
                            available@,
                            ci as int,
                        ),
                        row == map(command_at(ci as int)),
                        row == sequence_views(list@),
                        pend == self.pending@,
                        forall|m: int| 0 <= m < k ==> row[m] != pend,
                        has_prefix == ((exists|c2: int, k2: int|
                            0 <= c2 < ci && available@[c2] && 0 <= k2 < map(command_at(c2)).len() && pend.len()
                                <= #[trigger] map(command_at(c2))[k2].len() && map(command_at(c2))[k2].take(
                                pend.len() as int,
                            ) == pend) || exists|k2: int|
                            0 <= k2 < k && pend.len() <= #[trigger] row[k2].len() && row[k2].take(
                                pend.len() as int,
                            ) == pend),
                    decreases list@.len() - k,
                {
                    assert(row[k as int] == list@[k as int].0@);
                    if same_chords(&list[k].0, &self.pending) {
                        assert(row.contains(pend));
                        assert(first_exact_match(map, pend, available@, ci as int) == Some(
                            command_at(ci as int),
                        ));
                        return KeyResolution::Command(command_at_exec(ci));
                    }
                    if chords_start_with(&list[k].0, &self.pending) {
                        has_prefix = true;
                    }
                    k += 1;
                }
                assert(!row.contains(pend));
                assert(has_prefix == exists|c2: int, k2: int|
                    0 <= c2 < ci + 1 && available@[c2] && 0 <= k2 < map(command_at(c2)).len() && pend.len()
                        <= #[trigger] map(command_at(c2))[k2].len() && map(command_at(c2))[k2].take(
                        pend.len() as int,
                    ) == pend) by {
                    if has_prefix {
                        if !(exists|c2: int, k2: int|
                            0 <= c2 < ci && available@[c2] && 0 <= k2 < map(command_at(c2)).len()
                                && pend.len() <= #[trigger] map(command_at(c2))[k2].len() && map(
                                command_at(c2),
                            )[k2].take(pend.len() as int) == pend) {
                            let k2 = choose|k2: int|
                                0 <= k2 < list@.len() && pend.len() <= #[trigger] row[k2].len() && row[k2].take(
                                    pend.len() as int,
                                ) == pend;
                            assert(map(command_at(ci as int))[k2] == row[k2]);
                        }
                    }
                }
            } else {
                assert(has_prefix == exists|c2: int, k2: int|
                    0 <= c2 < ci + 1 && available@[c2] && 0 <= k2 < map(command_at(c2)).len() && pend.len()
                        <= #[trigger] map(command_at(c2))[k2].len() && map(command_at(c2))[k2].take(
                        pend.len() as int,
                    ) == pend);
            }
            ci += 1;
        }
        if has_prefix {
            KeyResolution::Pending
        } else {
            KeyResolution::NoMatch
        }
    }

    /// Forget the sequence in progress.
    pub fn reset_pending(&mut self)
        requires
            old(self).well_formed(),
        ensures
            final(self).well_formed(),
            final(self).pending_chords().len() == 0,
            forall|c: AppCommand| #[trigger] final(self).sequences(c) == old(self).sequences(c),
    {
        self.pending.clear();
    }

    /// The bindings of a command for display, e.g. `Alt+g / Ctrl+g`, or
    /// `Unbound`.
    pub fn binding_label(&self, command: AppCommand) -> (s: String)
        requires
            self.well_formed(),
        ensures
            s@ == if self.sequences(command).len() == 0 {
                "Unbound"@
            } else {
                joined_labels(self.sequences(command))
            },
    {
        proof {
            lemma_command_positions();
        }
        let list = &self.bindings[command_index_exec(command)];
        let mut out = String::new();
        if list.len() == 0 {
            push_str(&mut out, "Unbound");
            assert(out@ =~= "Unbound"@);
            return out;
        }
        let ghost views = sequence_views(list@);
        let mut i: usize = 0;
        while i < list.len()
            invariant
                i <= list@.len(),
                list@.len() > 0,
                views == sequence_views(list@),
                out@ == joined_labels(views.take(i as int)),
            decreases list@.len() - i,
        {
            let ghost before = out@;
            if i > 0 {
                push_str(&mut out, " / ");
            }
            list[i].push_label(&mut out);
            proof {
                let t = views.take(i + 1);
                assert(t.drop_last() =~= views.take(i as int));
                assert(t.last() == list@[i as int].0@);
                if i == 0 {
                    assert(joined_labels(views.take(0)) =~= Seq::<char>::empty());
                }
                assert(out@ =~= joined_labels(t));
            }
            i += 1;
        }
        assert(views.take(list@.len() as int) =~= views);
        out
    }
}

impl Default for Keymap {
    /// The built-in bindings.
    fn default() -> (k: Keymap)
        ensures
            k.well_formed(),
            k.pending_chords().len() == 0,
            exists|cfg: KeybindingsConfig|
                is_default_config(cfg) && forall|c: AppCommand| #[trigger] k.sequences(c) == command_sequences(
                    cfg.0@,
                    c,
                ),
    {
        let config = KeybindingsConfig::default();
        let (bindings, _issues) = build_keymap(&config.0);
        proof {
            lemma_command_positions();
        }
        let k = Keymap { bindings, pending: Vec::new() };
        assert forall|c: AppCommand| #[trigger] k.sequences(c) == command_sequences(config.0@, c) by {
            assert(command_at(command_index(c)) == c);
        }
        k
    }
}

/// The keymap of a configuration; where the configuration has problems, the
/// built-in bindings instead, with a warning that lists every problem.
pub fn keymap_or_defaults(config: &KeybindingsConfig) -> (r: (Keymap, Option<KeybindingWarning>))
    ensures
        r.0.well_formed(),
        r.0.pending_chords().len() == 0,
        r.1 is None <==> keymap_issues(config.0@).len() == 0,
        r.1 is None ==> forall|c: AppCommand| #[trigger] r.0.sequences(c) == command_sequences(config.0@, c),
        r.1 is Some ==> exists|cfg: KeybindingsConfig|
            is_default_config(cfg) && forall|c: AppCommand| #[trigger] r.0.sequences(c) == command_sequences(cfg.0@, c),
        r.1 matches Some(w) ==> w.fallback == KeybindingFallback::Defaults && w.scroll == 0 && strictly_sorted(
            string_views(w.issues@),
        ) && forall|m: Seq<char>| string_views(w.issues@).contains(m) <==> keymap_issues(config.0@).contains(m),
{
    match Keymap::from_config(config) {
        Ok(keymap) => (keymap, None),
        Err(error) => (Keymap::default(), Some(KeybindingWarning::new(error, KeybindingFallback::Defaults))),
    }
}

/// Position of a command in the canonical order.
fn command_index_exec(c: AppCommand) -> (i: usize)
    ensures
        i == command_index(c),
{
    match c {
        AppCommand::Quit => 0,
        AppCommand::FocusNext => 1,
        AppCommand::FocusPrevious => 2,
        AppCommand::MoveDown => 3,
        AppCommand::MoveUp => 4,
        AppCommand::GoFirst => 5,
        AppCommand::GoLast => 6,
        AppCommand::Activate => 7,
        AppCommand::ShowHelp => 8,
        AppCommand::ReloadFiles => 9,
        AppCommand::ReloadConfig => 10,
        AppCommand::OpenQuickSearch => 11,
        AppCommand::FindInBuffer => 12,
        AppCommand::OpenGraph => 13,
        AppCommand::OpenTaskView => 14,
        AppCommand::OpenThemeSelector => 15,
        AppCommand::OpenJournal => 16,
        AppCommand::HistoryBack => 17,
        AppCommand::HistoryForward => 18,
        AppCommand::ToggleSidebar => 19,
        AppCommand::ToggleOutline => 20,
        AppCommand::ShrinkPanel => 21,
        AppCommand::GrowPanel => 22,
        AppCommand::ToggleZen => 23,
        AppCommand::OpenSelected => 24,
        AppCommand::ContentAction => 25,
        AppCommand::NextTarget => 26,
        AppCommand::PreviousTarget => 27,
        AppCommand::ToggleFloatingCursor => 28,
        AppCommand::HalfPageDown => 29,
        AppCommand::HalfPageUp => 30,
        AppCommand::ToggleFrontmatter => 31,
        AppCommand::ToggleFold => 32,
        AppCommand::FoldAll => 33,
        AppCommand::UnfoldAll => 34,
        AppCommand::EditNote => 35,
        AppCommand::CreateNote => 36,
        AppCommand::CreateFolder => 37,
        AppCommand::DeleteItem => 38,
        AppCommand::RenameItem => 39,
        AppCommand::CutItem => 40,
        AppCommand::PasteItem => 41,
        AppCommand::CancelCut => 42,
        AppCommand::SidebarSearch => 43,
        AppCommand::CycleSort => 44,
        AppCommand::ToggleEditorMode => 45,
    }
}

/// The command at a position of the canonical order.
fn command_at_exec(i: usize) -> (c: AppCommand)
    requires
        i < 46,
    ensures
        c == command_at(i as int),
{
    if i == 0 {
        AppCommand::Quit
    } else if i == 1 {
        AppCommand::FocusNext
    } else if i == 2 {
        AppCommand::FocusPrevious
    } else if i == 3 {
        AppCommand::MoveDown
    } else if i == 4 {
        AppCommand::MoveUp
    } else if i == 5 {
        AppCommand::GoFirst
    } else if i == 6 {
        AppCommand::GoLast
    } else if i == 7 {
        AppCommand::Activate
    } else if i == 8 {
        AppCommand::ShowHelp
    } else if i == 9 {
        AppCommand::ReloadFiles
    } else if i == 10 {
        AppCommand::ReloadConfig
    } else if i == 11 {
        AppCommand::OpenQuickSearch
    } else if i == 12 {
        AppCommand::FindInBuffer
    } else if i == 13 {
        AppCommand::OpenGraph
    } else if i == 14 {
        AppCommand::OpenTaskView
    } else if i == 15 {
        AppCommand::OpenThemeSelector
    } else if i == 16 {
        AppCommand::OpenJournal
    } else if i == 17 {
        AppCommand::HistoryBack
    } else if i == 18 {
        AppCommand::HistoryForward
    } else if i == 19 {
        AppCommand::ToggleSidebar
    } else if i == 20 {
        AppCommand::ToggleOutline
    } else if i == 21 {
        AppCommand::ShrinkPanel
    } else if i == 22 {
        AppCommand::GrowPanel
    } else if i == 23 {
        AppCommand::ToggleZen
    } else if i == 24 {
        AppCommand::OpenSelected
    } else if i == 25 {
        AppCommand::ContentAction
    } else if i == 26 {
        AppCommand::NextTarget
    } else if i == 27 {
        AppCommand::PreviousTarget
    } else if i == 28 {
        AppCommand::ToggleFloatingCursor
    } else if i == 29 {
        AppCommand::HalfPageDown
    } else if i == 30 {
        AppCommand::HalfPageUp
    } else if i == 31 {
        AppCommand::ToggleFrontmatter
    } else if i == 32 {
        AppCommand::ToggleFold
    } else if i == 33 {
        AppCommand::FoldAll
    } else if i == 34 {
        AppCommand::UnfoldAll
    } else if i == 35 {
        AppCommand::EditNote
    } else if i == 36 {
        AppCommand::CreateNote
    } else if i == 37 {
        AppCommand::CreateFolder
    } else if i == 38 {
        AppCommand::DeleteItem
    } else if i == 39 {
        AppCommand::RenameItem
    } else if i == 40 {
        AppCommand::CutItem
    } else if i == 41 {
        AppCommand::PasteItem
    } else if i == 42 {
        AppCommand::CancelCut
    } else if i == 43 {
        AppCommand::SidebarSearch
    } else if i == 44 {
        AppCommand::CycleSort
    } else {
        AppCommand::ToggleEditorMode
    }
}

/// Length, first two and last characters of an identifier: enough to tell
/// the command identifiers apart.
pub open spec fn id_sig(s: Seq<char>) -> (int, char, char, char) {
    (s.len() as int, s[0], s[1], s[s.len() - 1])
}

/// The command whose identifier has the given [`id_sig`].
pub open spec fn command_of_sig(g: (int, char, char, char)) -> Option<AppCommand> {
    if g == (4int, 'q', 'u', 't') {
        Some(AppCommand::Quit)
    } else if g == (10int, 'f', 'o', 't') {
        Some(AppCommand::FocusNext)
    } else if g == (14int, 'f', 'o', 's') {
        Some(AppCommand::FocusPrevious)
    } else if g == (9int, 'm', 'o', 'n') {
        Some(AppCommand::MoveDown)
    } else if g == (7int, 'm', 'o', 'p') {
        Some(AppCommand::MoveUp)
    } else if g == (8int, 'g', 'o', 't') {
        Some(AppCommand::GoFirst)
    } else if g == (7int, 'g', 'o', 't') {
        Some(AppCommand::GoLast)
    } else if g == (8int, 'a', 'c', 'e') {
        Some(AppCommand::Activate)
    } else if g == (9int, 's', 'h', 'p') {
        Some(AppCommand::ShowHelp)
    } else if g == (12int, 'r', 'e', 's') {
        Some(AppCommand::ReloadFiles)
    } else if g == (13int, 'r', 'e', 'g') {
        Some(AppCommand::ReloadConfig)
    } else if g == (17int, 'o', 'p', 'h') {
        Some(AppCommand::OpenQuickSearch)
    } else if g == (14int, 'f', 'i', 'r') {
        Some(AppCommand::FindInBuffer)
    } else if g == (10int, 'o', 'p', 'h') {
        Some(AppCommand::OpenGraph)
    } else if g == (14int, 'o', 'p', 'w') {
        Some(AppCommand::OpenTaskView)
    } else if g == (19int, 'o', 'p', 'r') {
        Some(AppCommand::OpenThemeSelector)
    } else if g == (12int, 'o', 'p', 'l') {
        Some(AppCommand::OpenJournal)
    } else if g == (12int, 'h', 'i', 'k') {
        Some(AppCommand::HistoryBack)
    } else if g == (15int, 'h', 'i', 'd') {
        Some(AppCommand::HistoryForward)
    } else if g == (14int, 't', 'o', 'r') {
        Some(AppCommand::ToggleSidebar)
    } else if g == (14int, 't', 'o', 'e') {
        Some(AppCommand::ToggleOutline)
    } else if g == (12int, 's', 'h', 'l') {
        Some(AppCommand::ShrinkPanel)
    } else if g == (10int, 'g', 'r', 'l') {
        Some(AppCommand::GrowPanel)
    } else if g == (10int, 't', 'o', 'n') {
        Some(AppCommand::ToggleZen)
    } else if g == (13int, 'o', 'p', 'd') {
        Some(AppCommand::OpenSelected)
    } else if g == (14int, 'c', 'o', 'n') {
        Some(AppCommand::ContentAction)
    } else if g == (11int, 'n', 'e', 't') {
        Some(AppCommand::NextTarget)
    } else if g == (15int, 'p', 'r', 't') {
        Some(AppCommand::PreviousTarget)
    } else if g == (22int, 't', 'o', 'r') {
        Some(AppCommand::ToggleFloatingCursor)
    } else if g == (14int, 'h', 'a', 'n') {
        Some(AppCommand::HalfPageDown)
    } else if g == (12int, 'h', 'a', 'p') {
        Some(AppCommand::HalfPageUp)
    } else if g == (18int, 't', 'o', 'r') {
        Some(AppCommand::ToggleFrontmatter)
    } else if g == (11int, 't', 'o', 'd') {
        Some(AppCommand::ToggleFold)
    } else if g == (8int, 'f', 'o', 'l') {
        Some(AppCommand::FoldAll)
    } else if g == (10int, 'u', 'n', 'l') {
        Some(AppCommand::UnfoldAll)
    } else if g == (9int, 'e', 'd', 'e') {
        Some(AppCommand::EditNote)
    } else if g == (11int, 'c', 'r', 'e') {
        Some(AppCommand::CreateNote)
    } else if g == (13int, 'c', 'r', 'r') {
        Some(AppCommand::CreateFolder)
    } else if g == (11int, 'd', 'e', 'm') {
        Some(AppCommand::DeleteItem)
    } else if g == (11int, 'r', 'e', 'm') {
        Some(AppCommand::RenameItem)
    } else if g == (8int, 'c', 'u', 'm') {
        Some(AppCommand::CutItem)
    } else if g == (10int, 'p', 'a', 'm') {
        Some(AppCommand::PasteItem)
    } else if g == (10int, 'c', 'a', 't') {
        Some(AppCommand::CancelCut)
    } else if g == (14int, 's', 'i', 'h') {
        Some(AppCommand::SidebarSearch)
    } else if g == (10int, 'c', 'y', 't') {
        Some(AppCommand::CycleSort)
    } else if g == (18int, 't', 'o', 'e') {
        Some(AppCommand::ToggleEditorMode)
    } else {
        None
    }
}

proof fn lemma_id_sig(c: AppCommand)
    ensures
        command_of_sig(id_sig(command_id(c))) == Some(c),
{
    match c {
        AppCommand::Quit => {
            reveal_strlit("quit");
        },
        AppCommand::FocusNext => {
            reveal_strlit("focus_next");
        },
        AppCommand::FocusPrevious => {
            reveal_strlit("focus_previous");
        },
        AppCommand::MoveDown => {
            reveal_strlit("move_down");
        },
        AppCommand::MoveUp => {
            reveal_strlit("move_up");
        },
        AppCommand::GoFirst => {
            reveal_strlit("go_first");
        },
        AppCommand::GoLast => {
            reveal_strlit("go_last");
        },
        AppCommand::Activate => {
            reveal_strlit("activate");
        },
        AppCommand::ShowHelp => {
            reveal_strlit("show_help");
        },
        AppCommand::ReloadFiles => {
            reveal_strlit("reload_files");
        },
        AppCommand::ReloadConfig => {
            reveal_strlit("reload_config");
        },
        AppCommand::OpenQuickSearch => {
            reveal_strlit("open_quick_search");
        },
        AppCommand::FindInBuffer => {
            reveal_strlit("find_in_buffer");
        },
        AppCommand::OpenGraph => {
            reveal_strlit("open_graph");
        },
        AppCommand::OpenTaskView => {
            reveal_strlit("open_task_view");
        },
        AppCommand::OpenThemeSelector => {
            reveal_strlit("open_theme_selector");
        },
        AppCommand::OpenJournal => {
            reveal_strlit("open_journal");
        },
        AppCommand::HistoryBack => {
            reveal_strlit("history_back");
        },
        AppCommand::HistoryForward => {
            reveal_strlit("history_forward");
        },
        AppCommand::ToggleSidebar => {
            reveal_strlit("toggle_sidebar");
        },
        AppCommand::ToggleOutline => {
            reveal_strlit("toggle_outline");
        },
        AppCommand::ShrinkPanel => {
            reveal_strlit("shrink_panel");
        },
        AppCommand::GrowPanel => {
            reveal_strlit("grow_panel");
        },
        AppCommand::ToggleZen => {
            reveal_strlit("toggle_zen");
        },
        AppCommand::OpenSelected => {
            reveal_strlit("open_selected");
        },
        AppCommand::ContentAction => {
            reveal_strlit("content_action");
        },
        AppCommand::NextTarget => {
            reveal_strlit("next_target");
        },
        AppCommand::PreviousTarget => {
            reveal_strlit("previous_target");
        },
        AppCommand::ToggleFloatingCursor => {
            reveal_strlit("toggle_floating_cursor");
        },
        AppCommand::HalfPageDown => {
            reveal_strlit("half_page_down");
        },
        AppCommand::HalfPageUp => {
            reveal_strlit("half_page_up");
        },
        AppCommand::ToggleFrontmatter => {
            reveal_strlit("toggle_frontmatter");
        },
        AppCommand::ToggleFold => {
            reveal_strlit("toggle_fold");
        },
        AppCommand::FoldAll => {
            reveal_strlit("fold_all");
        },
        AppCommand::UnfoldAll => {
            reveal_strlit("unfold_all");
        },
        AppCommand::EditNote => {
            reveal_strlit("edit_note");
        },
        AppCommand::CreateNote => {
            reveal_strlit("create_note");
        },
        AppCommand::CreateFolder => {
            reveal_strlit("create_folder");
        },
        AppCommand::DeleteItem => {
            reveal_strlit("delete_item");
        },
        AppCommand::RenameItem => {
            reveal_strlit("rename_item");
        },
        AppCommand::CutItem => {
            reveal_strlit("cut_item");
        },
        AppCommand::PasteItem => {
            reveal_strlit("paste_item");
        },
        AppCommand::CancelCut => {
            reveal_strlit("cancel_cut");
        },
        AppCommand::SidebarSearch => {
            reveal_strlit("sidebar_search");
        },
        AppCommand::CycleSort => {
            reveal_strlit("cycle_sort");
        },
        AppCommand::ToggleEditorMode => {
            reveal_strlit("toggle_editor_mode");
        },
    }
}

/// No two commands share an identifier.
pub proof fn lemma_command_id_injective(a: AppCommand, b: AppCommand)
    requires
        command_id(a) == command_id(b),
    ensures
        a == b,
{
    lemma_id_sig(a);
    lemma_id_sig(b);
}

proof fn lemma_first_command_with_id(c: AppCommand, i: int)
    requires
        0 <= i <= command_index(c),
    ensures
        first_command_with_id(command_id(c), i) == Some(c),
    decreases command_index(c) - i,
{
    lemma_command_positions();
    if i < command_index(c) {
        if command_id(command_at(i)) == command_id(c) {
            lemma_command_id_injective(command_at(i), c);
        }
        lemma_first_command_with_id(c, i + 1);
    }
}

/// Every command's identifier names that command: `AppCommand::from_id`
/// of `c.id()` gives `c` back.
pub proof fn lemma_command_id_round_trip(c: AppCommand)
    ensures
        command_of_id(command_id(c)) == Some(c),
{
    lemma_command_positions();
    lemma_first_command_with_id(c, 0);
}


/// A character that command identifiers may use: a lowercase ASCII letter
/// or an underscore.
pub open spec fn is_id_char(c: char) -> bool {
    ('a' <= c && c <= 'z') || c == '_'
}

spec fn id_chars_from(s: Seq<char>, i: int) -> bool
    decreases s.len() - i,
{
    if i < 0 || i >= s.len() {
        true
    } else {
        is_id_char(s[i]) && id_chars_from(s, i + 1)
    }
}

proof fn lemma_id_chars_from(s: Seq<char>, i: int)
    requires
        0 <= i,
        id_chars_from(s, i),
    ensures
        forall|j: int| i <= j < s.len() ==> is_id_char(#[trigger] s[j]),
    decreases s.len() - i,
{
    if i < s.len() {
        lemma_id_chars_from(s, i + 1);
    }
}

/// Every command identifier is nonempty and uses only lowercase ASCII
/// letters and underscores.
pub proof fn lemma_command_id_charset(c: AppCommand)
    ensures
        command_id(c).len() > 0,
        forall|j: int| 0 <= j < command_id(c).len() ==> is_id_char(#[trigger] command_id(c)[j]),
{
    reveal_with_fuel(id_chars_from, 24);
    match c {
        AppCommand::Quit => {
            reveal_strlit("quit");
        },
        AppCommand::FocusNext => {
            reveal_strlit("focus_next");
        },
        AppCommand::FocusPrevious => {
            reveal_strlit("focus_previous");
        },
        AppCommand::MoveDown => {
            reveal_strlit("move_down");
        },
        AppCommand::MoveUp => {
            reveal_strlit("move_up");
        },
        AppCommand::GoFirst => {
            reveal_strlit("go_first");
        },
        AppCommand::GoLast => {
            reveal_strlit("go_last");
        },
        AppCommand::Activate => {
            reveal_strlit("activate");
        },
        AppCommand::ShowHelp => {
            reveal_strlit("show_help");
        },
        AppCommand::ReloadFiles => {
            reveal_strlit("reload_files");
        },
        AppCommand::ReloadConfig => {
            reveal_strlit("reload_config");
        },
        AppCommand::OpenQuickSearch => {
            reveal_strlit("open_quick_search");
        },
        AppCommand::FindInBuffer => {
            reveal_strlit("find_in_buffer");
        },
        AppCommand::OpenGraph => {
            reveal_strlit("open_graph");
        },
        AppCommand::OpenTaskView => {
            reveal_strlit("open_task_view");
        },
        AppCommand::OpenThemeSelector => {
            reveal_strlit("open_theme_selector");
        },
        AppCommand::OpenJournal => {
            reveal_strlit("open_journal");
        },
        AppCommand::HistoryBack => {
            reveal_strlit("history_back");
        },
        AppCommand::HistoryForward => {
            reveal_strlit("history_forward");
        },
        AppCommand::ToggleSidebar => {
            reveal_strlit("toggle_sidebar");
        },
        AppCommand::ToggleOutline => {
            reveal_strlit("toggle_outline");
        },
        AppCommand::ShrinkPanel => {
            reveal_strlit("shrink_panel");
        },
        AppCommand::GrowPanel => {
            reveal_strlit("grow_panel");
        },
        AppCommand::ToggleZen => {
            reveal_strlit("toggle_zen");
        },
        AppCommand::OpenSelected => {
            reveal_strlit("open_selected");
        },
        AppCommand::ContentAction => {
            reveal_strlit("content_action");
        },
        AppCommand::NextTarget => {
            reveal_strlit("next_target");
        },
        AppCommand::PreviousTarget => {
            reveal_strlit("previous_target");
        },
        AppCommand::ToggleFloatingCursor => {
            reveal_strlit("toggle_floating_cursor");
        },
        AppCommand::HalfPageDown => {
            reveal_strlit("half_page_down");
        },
        AppCommand::HalfPageUp => {
            reveal_strlit("half_page_up");
        },
        AppCommand::ToggleFrontmatter => {
            reveal_strlit("toggle_frontmatter");
        },
        AppCommand::ToggleFold => {
            reveal_strlit("toggle_fold");
        },
        AppCommand::FoldAll => {
            reveal_strlit("fold_all");
        },
        AppCommand::UnfoldAll => {
            reveal_strlit("unfold_all");
        },
        AppCommand::EditNote => {
            reveal_strlit("edit_note");
        },
        AppCommand::CreateNote => {
            reveal_strlit("create_note");
        },
        AppCommand::CreateFolder => {
            reveal_strlit("create_folder");
        },
        AppCommand::DeleteItem => {
            reveal_strlit("delete_item");
        },
        AppCommand::RenameItem => {
            reveal_strlit("rename_item");
        },
        AppCommand::CutItem => {
            reveal_strlit("cut_item");
        },
        AppCommand::PasteItem => {
            reveal_strlit("paste_item");
        },
        AppCommand::CancelCut => {
            reveal_strlit("cancel_cut");
        },
        AppCommand::SidebarSearch => {
            reveal_strlit("sidebar_search");
        },
        AppCommand::CycleSort => {
            reveal_strlit("cycle_sort");
        },
        AppCommand::ToggleEditorMode => {
            reveal_strlit("toggle_editor_mode");
        },
    }
    lemma_id_chars_from(command_id(c), 0);
}

/// Every command has at least one built-in binding.
pub proof fn lemma_default_bindings_nonempty(c: AppCommand)
    ensures
        default_binding_specs(c).len() > 0,
{
}

} // verus!
