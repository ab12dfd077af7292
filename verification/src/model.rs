//! The plain data that the finder works on: tabs, panes, sessions, the keys
//! it reacts to, and the commands it hands back to its host.

use vstd::prelude::*;

verus! {

/// The three lists the user can switch between with the Tab key.
#[derive(Clone, Copy, Debug, PartialEq, Eq, Structural)]
pub enum Selector {
    /// Sessions of the multiplexer.
    Session,
    /// Tabs of the current session.
    Tab,
    /// Panes of every tab of the current session.
    Pane,
}

/// What the finder reads of a tab: its 0-based position, its name, and
/// whether it is the focused one.
pub struct TabSummary {
    pub position: usize,
    pub name: String,
    pub active: bool,
}

/// What the finder reads of a pane: its id, its title, and whether it is a
/// plugin pane (those are never listed).
pub struct PaneSummary {
    pub id: u32,
    pub title: String,
    pub is_plugin: bool,
}

/// The panes of one tab, as the host's pane manifest groups them.
pub struct PaneGroup {
    pub tab_position: usize,
    pub panes: Vec<PaneSummary>,
}

/// One entry of the cross-tab pane list: a pane together with the tab it
/// belongs to.
pub struct FlatPane {
    pub pane_id: u32,
    pub title: String,
    pub tab_position: usize,
    pub tab_name: String,
}

/// The mathematical content of a `FlatPane`.
pub struct FlatPaneView {
    pub pane_id: u32,
    pub title: Seq<char>,
    pub tab_position: usize,
    pub tab_name: Seq<char>,
}

impl View for FlatPane {
    type V = FlatPaneView;

    open spec fn view(&self) -> FlatPaneView {
        FlatPaneView {
            pane_id: self.pane_id,
            title: self.title@,
            tab_position: self.tab_position,
            tab_name: self.tab_name@,
        }
    }
}

/// The views of a sequence of panes.
pub open spec fn flat_views(v: Seq<FlatPane>) -> Seq<FlatPaneView> {
    v.map_values(|p: FlatPane| p@)
}

/// A key press, reduced to what the finder tells apart.
pub enum Key {
    Enter,
    Backspace,
    Down,
    PageUp,
    Up,
    Left,
    Right,
    Esc,
    Tab,
    /// A character key; `ctrl` tells whether the Ctrl modifier was held.
    Char { ch: char, ctrl: bool },
    /// Any other key; it is ignored.
    Other,
}

/// An action for the host to carry out.
pub enum Command {
    /// Close the finder's own plugin pane.
    ClosePlugin,
    /// Switch to the tab at this 0-based position (the host's call counts
    /// tabs from 1, so it is handed the position plus one).
    SwitchTab(usize),
    /// Focus the terminal pane with this id.
    FocusTerminalPane(u32),
    /// Switch to the session with this name.
    SwitchSession(String),
}

/// An event from the host.
pub enum PluginEvent {
    /// The tabs of the session changed.
    TabUpdate(Vec<TabSummary>),
    /// The panes of the session changed; one group per tab.
    PaneUpdate(Vec<PaneGroup>),
    /// The sessions changed; their names.
    SessionUpdate(Vec<String>),
    /// A key was pressed while the finder had focus.
    Key(Key),
    /// Any other event; it is ignored.
    Other,
}

} // verus!
