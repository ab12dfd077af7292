//! The finder's state and every transition of it: typing, moving the
//! selection, fuzzy search, switching lists, and the host's events.

use vstd::prelude::*;
use vstd::utf8::{encode_scalar, encode_utf8, is_char_boundary};
use crate::matching::{FuzzyScorer, enhanced_score};
use crate::model::{Command, FlatPane, Key, PaneGroup, PluginEvent, Selector, TabSummary, flat_views};
use crate::navigation::{best_index, down_target, find_best_index, find_down_target, find_up_target, up_target};
use crate::panes::{flatten_manifest, manifest_entries, sort_by_tab_position, stable_sort_of};
use crate::text::{boundary_neighbours, char_index_at, char_utf8_len, string_insert, string_push, string_remove, utf8_len};

verus! {

/// A name is listed for the search input: the input is empty, or the
/// enhanced matcher scores it.
pub open spec fn is_match_spec(input: Seq<char>, name: Seq<char>) -> bool {
    input.len() == 0 || enhanced_score(name, input) is Some
}

/// Which names are listed for the search input.
pub open spec fn match_flags(names: Seq<Seq<char>>, input: Seq<char>) -> Seq<bool> {
    Seq::new(names.len(), |i: int| is_match_spec(input, names[i]))
}

/// The score of each name for the search input.
pub open spec fn match_scores(names: Seq<Seq<char>>, input: Seq<char>) -> Seq<Option<i64>> {
    Seq::new(names.len(), |i: int| enhanced_score(names[i], input))
}

/// All the state of the finder.
pub struct State {
    /// The value of `debug` in the user's configuration, if set.
    pub debug_setting: Option<String>,
    /// The user's configuration, as the host prints it for debugging.
    pub configuration_dump: String,
    /// Which list is shown.
    pub current_view: Selector,
    /// The position of the focused tab.
    pub focus_tab_pos: usize,
    /// The index of the highlighted entry of the shown list.
    pub result_index: usize,
    /// The tabs of the session.
    pub tab_infos: Vec<TabSummary>,
    /// The panes of the session, one group per tab.
    pub pane_manifest: Vec<PaneGroup>,
    /// The search input.
    pub input: String,
    /// The cursor in the search input, as a byte offset.
    pub input_cursor_index: usize,
    /// The index of the selected tab.
    pub tab_match: Option<usize>,
    /// The name of the selected session.
    pub session_match: Option<String>,
    /// The id of the selected pane.
    pub pane_match: Option<u32>,
    /// The title of the selected pane.
    pub pane_title_match: String,
    /// The position of the tab of the selected pane.
    pub pane_tab_position: Option<usize>,
    /// Every non-plugin pane of every tab, ordered by tab position.
    pub all_panes: Vec<FlatPane>,
    /// The names of the sessions.
    pub sessions: Vec<String>,
    /// The fuzzy matcher.
    pub fz_matcher: FuzzyScorer,
}

impl State {
    /// The search input as UTF-8 bytes.
    pub open spec fn input_bytes(self) -> Seq<u8> {
        encode_utf8(self.input@)
    }

    /// The cursor lies within the input, on a char boundary, and the input's
    /// length fits in an allocation.
    pub open spec fn wf(self) -> bool {
        &&& self.input_cursor_index <= utf8_len(self.input@)
        &&& utf8_len(self.input@) <= isize::MAX
        &&& is_char_boundary(self.input_bytes(), self.input_cursor_index as int)
    }

    /// One more character fits in the input's allocation (a character takes
    /// at most four bytes).
    pub open spec fn room_for_char(self) -> bool {
        utf8_len(self.input@) + 4 <= isize::MAX
    }

    /// The names of the tabs.
    pub open spec fn tab_names(self) -> Seq<Seq<char>> {
        Seq::new(self.tab_infos@.len(), |i: int| self.tab_infos@[i].name@)
    }

    /// The names of the sessions.
    pub open spec fn session_names(self) -> Seq<Seq<char>> {
        Seq::new(self.sessions@.len(), |i: int| self.sessions@[i]@)
    }

    /// The titles of the panes of the cross-tab list.
    pub open spec fn pane_titles(self) -> Seq<Seq<char>> {
        Seq::new(self.all_panes@.len(), |i: int| self.all_panes@[i].title@)
    }

    /// Which tabs are listed for the search input.
    pub open spec fn tab_flags(self) -> Seq<bool> {
        match_flags(self.tab_names(), self.input@)
    }

    /// Which sessions are listed for the search input.
    pub open spec fn session_flags(self) -> Seq<bool> {
        match_flags(self.session_names(), self.input@)
    }

    /// Which panes are listed for the search input.
    pub open spec fn pane_flags(self) -> Seq<bool> {
        match_flags(self.pane_titles(), self.input@)
    }

    /// The score of each tab for the search input.
    pub open spec fn tab_scores(self) -> Seq<Option<i64>> {
        match_scores(self.tab_names(), self.input@)
    }

    /// The score of each session for the search input.
    pub open spec fn session_scores(self) -> Seq<Option<i64>> {
        match_scores(self.session_names(), self.input@)
    }

    /// The score of each pane for the search input.
    pub open spec fn pane_scores(self) -> Seq<Option<i64>> {
        match_scores(self.pane_titles(), self.input@)
    }

    /// The pane at index `i` of the cross-tab list is the selected pane.
    pub open spec fn pane_selected(self, i: int) -> bool {
        &&& 0 <= i < self.all_panes@.len()
        &&& self.pane_match == Some(self.all_panes@[i].pane_id)
        &&& self.pane_title_match@ == self.all_panes@[i].title@
        &&& self.pane_tab_position == Some(self.all_panes@[i].tab_position)
    }

    /// No pane is selected.
    pub open spec fn pane_cleared(self) -> bool {
        &&& self.pane_match is None
        &&& self.pane_title_match@.len() == 0
        &&& self.pane_tab_position is None
    }
}

/// The lists, the matcher and the configuration are the same.
pub open spec fn lists_same(a: State, b: State) -> bool {
    &&& a.tab_infos == b.tab_infos
    &&& a.pane_manifest == b.pane_manifest
    &&& a.all_panes == b.all_panes
    &&& a.sessions == b.sessions
    &&& a.fz_matcher == b.fz_matcher
    &&& a.debug_setting == b.debug_setting
    &&& a.configuration_dump == b.configuration_dump
}

/// The input, the cursor, the shown list and the focused tab are the same.
pub open spec fn editing_same(a: State, b: State) -> bool {
    &&& a.input == b.input
    &&& a.input_cursor_index == b.input_cursor_index
    &&& a.current_view == b.current_view
    &&& a.focus_tab_pos == b.focus_tab_pos
}

/// The selected pane is the same.
pub open spec fn pane_sel_same(a: State, b: State) -> bool {
    &&& a.pane_match == b.pane_match
    &&& a.pane_title_match == b.pane_title_match
    &&& a.pane_tab_position == b.pane_tab_position
}

/// Moving the tab selection to `target`: when there is one, it becomes both
/// the selected tab and the highlighted entry; otherwise nothing changes.
pub open spec fn tab_selection_moved(o: State, n: State, target: Option<int>) -> bool {
    &&& lists_same(o, n)
    &&& editing_same(o, n)
    &&& n.session_match == o.session_match
    &&& pane_sel_same(o, n)
    &&& match target {
        Some(i) => n.tab_match == Some(i as usize) && n.result_index == i,
        None => n.tab_match == o.tab_match && n.result_index == o.result_index,
    }
}

/// Moving the session selection to `target`.
pub open spec fn session_selection_moved(o: State, n: State, target: Option<int>) -> bool {
    &&& lists_same(o, n)
    &&& editing_same(o, n)
    &&& n.tab_match == o.tab_match
    &&& pane_sel_same(o, n)
    &&& match target {
        Some(i) => n.session_match == Some(o.sessions@[i]) && n.result_index == i,
        None => n.session_match == o.session_match && n.result_index == o.result_index,
    }
}

/// Moving the pane selection to `target`: the selection is cleared first, so
/// without a target no pane stays selected.
pub open spec fn pane_selection_moved(o: State, n: State, target: Option<int>) -> bool {
    &&& lists_same(o, n)
    &&& editing_same(o, n)
    &&& n.tab_match == o.tab_match
    &&& n.session_match == o.session_match
    &&& match target {
        Some(i) => n.pane_selected(i) && n.result_index == i,
        None => n.pane_cleared() && n.result_index == o.result_index,
    }
}

impl State {
    /// Whether `candidate` is listed for the current search input.
    pub fn is_match(&self, candidate: &str) -> (r: bool)
        ensures
            r == is_match_spec(self.input@, candidate@),
    {
        self.input.as_str().is_empty() || self.fz_matcher.enhanced_fuzzy_match(candidate, self.input.as_str()).is_some()
    }

    /// Which tabs are listed.
    pub fn tab_match_flags(&self) -> (v: Vec<bool>)
        ensures
            v@ == self.tab_flags(),
    {
        let mut v: Vec<bool> = Vec::new();
        let mut i: usize = 0;
        while i < self.tab_infos.len()
            invariant
                i <= self.tab_infos.len(),
                v@ =~= self.tab_flags().take(i as int),
            decreases self.tab_infos.len() - i,
        {
            let b = self.is_match(self.tab_infos[i].name.as_str());
            v.push(b);
            i = i + 1;
        }
        v
    }

    /// Which sessions are listed.
    pub fn session_match_flags(&self) -> (v: Vec<bool>)
        ensures
            v@ == self.session_flags(),
    {
        let mut v: Vec<bool> = Vec::new();
        let mut i: usize = 0;
        while i < self.sessions.len()
            invariant
                i <= self.sessions.len(),
                v@ =~= self.session_flags().take(i as int),
            decreases self.sessions.len() - i,
        {
            let b = self.is_match(self.sessions[i].as_str());
            v.push(b);
            i = i + 1;
        }
        v
    }

    /// Which panes are listed.
    pub fn pane_match_flags(&self) -> (v: Vec<bool>)
        ensures
            v@ == self.pane_flags(),
    {
        let mut v: Vec<bool> = Vec::new();
        let mut i: usize = 0;
        while i < self.all_panes.len()
            invariant
                i <= self.all_panes.len(),
                v@ =~= self.pane_flags().take(i as int),
            decreases self.all_panes.len() - i,
        {
            let b = self.is_match(self.all_panes[i].title.as_str());
            v.push(b);
            i = i + 1;
        }
        v
    }

    /// The score of each tab.
    pub fn tab_match_scores(&self) -> (v: Vec<Option<i64>>)
        ensures
            v@ == self.tab_scores(),
    {
        let mut v: Vec<Option<i64>> = Vec::new();
        let mut i: usize = 0;
        while i < self.tab_infos.len()
            invariant
                i <= self.tab_infos.len(),
                v@ =~= self.tab_scores().take(i as int),
            decreases self.tab_infos.len() - i,
        {
            let s = self.fz_matcher.enhanced_fuzzy_match(self.tab_infos[i].name.as_str(), self.input.as_str());
            v.push(s);
            i = i + 1;
        }
        v
    }

    /// The score of each session.
    pub fn session_match_scores(&self) -> (v: Vec<Option<i64>>)
        ensures
            v@ == self.session_scores(),
    {
        let mut v: Vec<Option<i64>> = Vec::new();
        let mut i: usize = 0;
        while i < self.sessions.len()
            invariant
                i <= self.sessions.len(),
                v@ =~= self.session_scores().take(i as int),
            decreases self.sessions.len() - i,
        {
            let s = self.fz_matcher.enhanced_fuzzy_match(self.sessions[i].as_str(), self.input.as_str());
            v.push(s);
            i = i + 1;
        }
        v
    }

    /// The score of each pane.
    pub fn pane_match_scores(&self) -> (v: Vec<Option<i64>>)
        ensures
            v@ == self.pane_scores(),
    {
        let mut v: Vec<Option<i64>> = Vec::new();
        let mut i: usize = 0;
        while i < self.all_panes.len()
            invariant
                i <= self.all_panes.len(),
                v@ =~= self.pane_scores().take(i as int),
            decreases self.all_panes.len() - i,
        {
            let s = self.fz_matcher.enhanced_fuzzy_match(self.all_panes[i].title.as_str(), self.input.as_str());
            v.push(s);
            i = i + 1;
        }
        v
    }
}

} // verus!

verus! {

/// Where the fuzzy search of the tabs lands: the first best-scoring tab, or
/// the focused tab's position when no tab scores above zero.
pub open spec fn tab_search_target(o: State) -> int {
    match best_index(o.tab_scores()) {
        Some(i) => i,
        None => o.focus_tab_pos as int,
    }
}

/// After a fuzzy search of the sessions: the first best-scoring session is
/// selected and highlighted; without one no session is selected and the
/// highlight stays.
pub open spec fn sessions_searched(o: State, n: State) -> bool {
    &&& lists_same(o, n)
    &&& editing_same(o, n)
    &&& n.tab_match == o.tab_match
    &&& pane_sel_same(o, n)
    &&& match best_index(o.session_scores()) {
        Some(i) => n.session_match == Some(o.sessions@[i]) && n.result_index == i,
        None => n.session_match is None && n.result_index == o.result_index,
    }
}

/// After a fuzzy search of the panes: the first best-scoring pane is selected
/// and highlighted; without one no pane is selected and the highlight goes to
/// the top.
pub open spec fn panes_searched(o: State, n: State) -> bool {
    &&& lists_same(o, n)
    &&& editing_same(o, n)
    &&& n.tab_match == o.tab_match
    &&& n.session_match == o.session_match
    &&& match best_index(o.pane_scores()) {
        Some(i) => n.pane_selected(i) && n.result_index == i,
        None => n.pane_cleared() && n.result_index == 0,
    }
}

impl State {
    /// Moves the tab selection down to the next listed tab, wrapping around
    /// to the first.
    pub fn move_down_tab(&mut self)
        ensures
            tab_selection_moved(*old(self), *final(self), down_target(old(self).tab_flags(), old(self).result_index as int)),
    {
        let flags = self.tab_match_flags();
        if let Some(i) = find_down_target(&flags, self.result_index) {
            self.tab_match = Some(i);
            self.result_index = i;
        }
    }

    /// Moves the tab selection up to the previous listed tab, wrapping around
    /// to the last.
    pub fn move_up_tab(&mut self)
        ensures
            tab_selection_moved(*old(self), *final(self), up_target(old(self).tab_flags(), old(self).result_index as int)),
    {
        let flags = self.tab_match_flags();
        if let Some(i) = find_up_target(&flags, self.result_index) {
            self.tab_match = Some(i);
            self.result_index = i;
        }
    }

    /// Moves the session selection down to the next listed session, wrapping
    /// around to the first.
    pub fn move_down_session(&mut self)
        ensures
            session_selection_moved(*old(self), *final(self), down_target(old(self).session_flags(), old(self).result_index as int)),
    {
        let flags = self.session_match_flags();
        if let Some(i) = find_down_target(&flags, self.result_index) {
            self.session_match = Some(self.sessions[i].clone());
            self.result_index = i;
        }
    }

    /// Moves the session selection up to the previous listed session,
    /// wrapping around to the last.
    pub fn move_up_session(&mut self)
        ensures
            session_selection_moved(*old(self), *final(self), up_target(old(self).session_flags(), old(self).result_index as int)),
    {
        let flags = self.session_match_flags();
        if let Some(i) = find_up_target(&flags, self.result_index) {
            self.session_match = Some(self.sessions[i].clone());
            self.result_index = i;
        }
    }

    /// Selects the pane at index `i` of the cross-tab list.
    fn select_pane(&mut self, i: usize)
        requires
            i < old(self).all_panes.len(),
        ensures
            final(self).pane_selected(i as int),
            lists_same(*old(self), *final(self)),
            editing_same(*old(self), *final(self)),
            final(self).tab_match == old(self).tab_match,
            final(self).session_match == old(self).session_match,
            final(self).result_index == old(self).result_index,
    {
        self.pane_match = Some(self.all_panes[i].pane_id);
        self.pane_title_match = self.all_panes[i].title.clone();
        self.pane_tab_position = Some(self.all_panes[i].tab_position);
    }

    /// Clears the pane selection.
    fn clear_pane_selection(&mut self)
        ensures
            final(self).pane_cleared(),
            lists_same(*old(self), *final(self)),
            editing_same(*old(self), *final(self)),
            final(self).tab_match == old(self).tab_match,
            final(self).session_match == old(self).session_match,
            final(self).result_index == old(self).result_index,
    {
        self.pane_match = None;
        self.pane_title_match = String::new();
        self.pane_tab_position = None;
    }

    /// Moves the pane selection down to the next listed pane, wrapping around
    /// to the first; with no pane listed, no pane stays selected.
    pub fn move_down_pane(&mut self)
        ensures
            pane_selection_moved(*old(self), *final(self), down_target(old(self).pane_flags(), old(self).result_index as int)),
    {
        self.clear_pane_selection();
        let flags = self.pane_match_flags();
        if let Some(i) = find_down_target(&flags, self.result_index) {
            self.select_pane(i);
            self.result_index = i;
        }
    }

    /// Moves the pane selection up to the previous listed pane, wrapping
    /// around to the last; with no pane listed, no pane stays selected.
    pub fn move_up_pane(&mut self)
        ensures
            pane_selection_moved(*old(self), *final(self), up_target(old(self).pane_flags(), old(self).result_index as int)),
    {
        self.clear_pane_selection();
        let flags = self.pane_match_flags();
        if let Some(i) = find_up_target(&flags, self.result_index) {
            self.select_pane(i);
            self.result_index = i;
        }
    }

    /// Selects the tab that scores best for the search input; without any,
    /// the focused tab.
    pub fn fuzzy_find_tab(&mut self)
        ensures
            tab_selection_moved(*old(self), *final(self), Some(tab_search_target(*old(self)))),
    {
        let scores = self.tab_match_scores();
        match find_best_index(&scores) {
            Some(i) => {
                self.tab_match = Some(i);
                self.result_index = i;
            },
            None => {
                self.tab_match = Some(self.focus_tab_pos);
                self.result_index = self.focus_tab_pos;
            },
        }
    }

    /// Selects the session that scores best for the search input.
    pub fn fuzzy_find_session(&mut self)
        ensures
            sessions_searched(*old(self), *final(self)),
    {
        let scores = self.session_match_scores();
        match find_best_index(&scores) {
            Some(i) => {
                self.session_match = Some(self.sessions[i].clone());
                self.result_index = i;
            },
            None => {
                self.session_match = None;
            },
        }
    }

    /// Selects the pane that scores best for the search input.
    pub fn fuzzy_find_pane(&mut self)
        ensures
            panes_searched(*old(self), *final(self)),
    {
        self.clear_pane_selection();
        self.result_index = 0;
        let scores = self.pane_match_scores();
        if let Some(i) = find_best_index(&scores) {
            self.select_pane(i);
            self.result_index = i;
        }
    }

    /// Highlights index `idx` of the tab list, and selects that tab when it
    /// is listed.
    pub fn seek_tab(&mut self, idx: usize)
        ensures
            lists_same(*old(self), *final(self)),
            editing_same(*old(self), *final(self)),
            final(self).session_match == old(self).session_match,
            pane_sel_same(*old(self), *final(self)),
            final(self).result_index == idx,
            final(self).tab_match == (if idx < old(self).tab_infos.len() && old(self).tab_flags()[idx as int] {
                Some(idx)
            } else {
                old(self).tab_match
            }),
    {
        self.result_index = idx;
        if idx < self.tab_infos.len() && self.is_match(self.tab_infos[idx].name.as_str()) {
            self.tab_match = Some(idx);
        }
    }

    /// Selects the pane at the highlighted index when it is listed.
    pub fn select_pane_at_index(&mut self)
        ensures
            lists_same(*old(self), *final(self)),
            editing_same(*old(self), *final(self)),
            final(self).tab_match == old(self).tab_match,
            final(self).session_match == old(self).session_match,
            final(self).result_index == old(self).result_index,
            if old(self).result_index < old(self).all_panes.len() && old(self).pane_flags()[old(self).result_index as int] {
                final(self).pane_selected(old(self).result_index as int)
            } else {
                pane_sel_same(*old(self), *final(self))
            },
    {
        let i = self.result_index;
        if i < self.all_panes.len() && self.is_match(self.all_panes[i].title.as_str()) {
            self.select_pane(i);
        }
    }
}

} // verus!

verus! {

/// Everything but the search input and its cursor is the same.
pub open spec fn all_but_input_same(a: State, b: State) -> bool {
    &&& lists_same(a, b)
    &&& a.current_view == b.current_view
    &&& a.focus_tab_pos == b.focus_tab_pos
    &&& a.result_index == b.result_index
    &&& a.tab_match == b.tab_match
    &&& a.session_match == b.session_match
    &&& pane_sel_same(a, b)
}

/// The index of the character that starts at the cursor (the number of
/// characters before the cursor).
pub open spec fn cursor_char(s: State) -> int {
    char_index_at(s.input@, s.input_cursor_index as int)
}

/// Backspace on the search input. With an empty input nothing happens. With
/// the cursor inside or at the end, the character just before the cursor is
/// removed and the cursor moves back to where that character started. With
/// the cursor at the start, the first character is removed. Whenever the
/// input changed, that is reported.
pub open spec fn input_removed(o: State, n: State, changed: bool) -> bool {
    let k = cursor_char(o);
    &&& all_but_input_same(o, n)
    &&& if o.input@.len() == 0 {
        n.input == o.input && n.input_cursor_index == o.input_cursor_index && !changed
    } else if 0 < o.input_cursor_index <= utf8_len(o.input@) {
        &&& n.input@ == o.input@.remove(k - 1)
        &&& n.input_cursor_index == utf8_len(o.input@.take(k - 1))
        &&& changed
    } else if o.input_cursor_index == 0 {
        n.input@ == o.input@.remove(0) && n.input_cursor_index == 0 && changed
    } else {
        n.input == o.input && n.input_cursor_index == o.input_cursor_index && !changed
    }
}

/// Typing `c` into the search input. Into an empty input it is appended;
/// otherwise, with the cursor inside, at the end or at the start, it is
/// inserted at the cursor. The cursor moves past the new character, and the
/// change is reported.
pub open spec fn input_inserted(o: State, n: State, c: char, changed: bool) -> bool {
    let w = encode_scalar(c as u32).len();
    &&& all_but_input_same(o, n)
    &&& if o.input@.len() == 0 {
        n.input@ == o.input@.push(c) && n.input_cursor_index == o.input_cursor_index + w && changed
    } else if 0 < o.input_cursor_index <= utf8_len(o.input@) {
        &&& n.input@ == o.input@.insert(cursor_char(o), c)
        &&& n.input_cursor_index == o.input_cursor_index + w
        &&& changed
    } else if o.input_cursor_index == 0 {
        n.input@ == o.input@.insert(0, c) && n.input_cursor_index == w && changed
    } else {
        n.input == o.input && n.input_cursor_index == o.input_cursor_index && !changed
    }
}

/// The list that follows `v` when the user presses Tab.
pub open spec fn next_selector(v: Selector) -> Selector {
    match v {
        Selector::Tab => Selector::Pane,
        Selector::Pane => Selector::Session,
        Selector::Session => Selector::Tab,
    }
}

/// Switching to the next list: the search input is emptied. Entering the
/// pane list clears the pane selection, highlights the top and selects the
/// first pane if there is one; entering another list highlights the selected
/// tab, if any.
pub open spec fn mode_changed(o: State, n: State) -> bool {
    &&& lists_same(o, n)
    &&& n.input@.len() == 0
    &&& n.input_cursor_index == 0
    &&& n.current_view == next_selector(o.current_view)
    &&& n.focus_tab_pos == o.focus_tab_pos
    &&& n.tab_match == o.tab_match
    &&& n.session_match == o.session_match
    &&& if n.current_view == Selector::Pane {
        &&& n.result_index == 0
        &&& if o.all_panes.len() > 0 { n.pane_selected(0) } else { n.pane_cleared() }
    } else {
        &&& pane_sel_same(o, n)
        &&& n.result_index == match o.tab_match {
            Some(i) => i,
            None => o.result_index,
        }
    }
}

/// Which tabs are marked active.
pub open spec fn active_flags(tabs: Seq<TabSummary>) -> Seq<bool> {
    Seq::new(tabs.len(), |i: int| tabs[i].active)
}

/// After looking for the focused tab: the focused position is that of the
/// last active tab (unchanged when none is active); when no tab was selected
/// yet, the first active tab is selected, and highlighted in the tab list.
pub open spec fn focused_tab_found(o: State, n: State) -> bool {
    let af = active_flags(o.tab_infos@);
    &&& lists_same(o, n)
    &&& n.input == o.input
    &&& n.input_cursor_index == o.input_cursor_index
    &&& n.current_view == o.current_view
    &&& n.session_match == o.session_match
    &&& pane_sel_same(o, n)
    &&& n.focus_tab_pos == match crate::navigation::prev_match(af, af.len() as int) {
        Some(i) => o.tab_infos@[i].position,
        None => o.focus_tab_pos,
    }
    &&& match (o.tab_match, crate::navigation::next_match(af, 0)) {
        (None, Some(i)) => {
            &&& n.tab_match == Some(i as usize)
            &&& n.result_index == if o.current_view == Selector::Tab { i as usize } else { o.result_index }
        },
        _ => n.tab_match == o.tab_match && n.result_index == o.result_index,
    }
}

/// After rebuilding the cross-tab pane list from the manifest: it holds the
/// non-plugin panes of every group, labelled with their tab names, sorted
/// stably by tab position; nothing else changed.
pub open spec fn panes_rebuilt(o: State, n: State) -> bool {
    &&& n.tab_infos == o.tab_infos
    &&& n.pane_manifest == o.pane_manifest
    &&& n.sessions == o.sessions
    &&& n.fz_matcher == o.fz_matcher
    &&& n.debug_setting == o.debug_setting
    &&& n.configuration_dump == o.configuration_dump
    &&& editing_same(o, n)
    &&& n.result_index == o.result_index
    &&& n.tab_match == o.tab_match
    &&& n.session_match == o.session_match
    &&& pane_sel_same(o, n)
    &&& stable_sort_of(flat_views(n.all_panes@), manifest_entries(o.pane_manifest@, o.tab_infos@))
}

impl State {
    /// Backspace on the search input; reports whether the input changed.
    pub fn remove_input_at_index(&mut self) -> (changed: bool)
        requires
            old(self).wf(),
        ensures
            input_removed(*old(self), *final(self), changed),
            final(self).wf(),
    {
        if self.input.as_str().is_empty() {
            return false;
        }
        let ghost before = self.input@;
        let ghost k = cursor_char(*self);
        proof {
            vstd::utf8::encode_utf8_valid_utf8(self.input@);
            crate::text::lemma_utf8_len_nonempty(self.input@);
            crate::text::lemma_boundary_is_offset(before, self.input_cursor_index as int);
        }
        let len = self.input.as_str().len();
        if self.input_cursor_index > 0 && self.input_cursor_index <= len {
            let (prev, _) = boundary_neighbours(self.input.as_str(), self.input_cursor_index);
            if let Some(start) = prev {
                proof {
                    crate::text::lemma_offset_is_boundary(before, k - 1);
                    crate::text::lemma_offset_monotonic(before, k - 1, k);
                    let n = before.remove(k - 1);
                    assert(n.take(k - 1) =~= before.take(k - 1));
                    crate::text::lemma_offset_is_boundary(n, k - 1);
                    crate::text::lemma_utf8_len_insert(n, k - 1, before[k - 1]);
                    assert(n.insert(k - 1, before[k - 1]) =~= before);
                    vstd::utf8::encode_utf8_valid_utf8(n);
                }
                string_remove(&mut self.input, start);
                self.input_cursor_index = start;
                return true;
            }
            false
        } else if self.input_cursor_index == 0 {
            proof {
                crate::text::lemma_utf8_len_insert(before.remove(0), 0, before[0]);
                assert(before.remove(0).insert(0, before[0]) =~= before);
                vstd::utf8::encode_utf8_valid_utf8(before.remove(0));
            }
            string_remove(&mut self.input, 0);
            true
        } else {
            false
        }
    }

    /// Types `c` into the search input; reports whether the input changed.
    pub fn insert_input_at_index(&mut self, c: char) -> (changed: bool)
        requires
            old(self).wf(),
            old(self).room_for_char(),
        ensures
            input_inserted(*old(self), *final(self), c, changed),
            final(self).wf(),
    {
        let ghost before = self.input@;
        let ghost k = cursor_char(*self);
        proof {
            vstd::utf8::encode_utf8_valid_utf8(self.input@);
            crate::text::lemma_scalar_nonempty(c);
            crate::text::lemma_boundary_is_offset(before, self.input_cursor_index as int);
            let m = before.insert(k, c);
            crate::text::lemma_utf8_len_insert(before, k, c);
            assert(m.take(k) =~= before.take(k));
            assert(m[k] == c);
            crate::text::lemma_offset_step(m, k);
            crate::text::lemma_offset_is_boundary(m, k + 1);
            vstd::utf8::encode_utf8_valid_utf8(m);
        }
        let w = char_utf8_len(c);
        if self.input.as_str().is_empty() {
            proof {
                assert(before.insert(0, c) =~= before.push(c));
            }
            string_push(&mut self.input, c);
            self.input_cursor_index = self.input_cursor_index + w;
            return true;
        }
        let len = self.input.as_str().len();
        if self.input_cursor_index > 0 && self.input_cursor_index <= len {
            string_insert(&mut self.input, self.input_cursor_index, c);
            self.input_cursor_index = self.input_cursor_index + w;
            return true;
        } else if self.input_cursor_index == 0 {
            string_insert(&mut self.input, 0, c);
            self.input_cursor_index = self.input_cursor_index + w;
            return true;
        }
        false
    }

    /// Switches to the next list: tabs, then panes, then sessions, then tabs.
    pub fn change_mode(&mut self)
        ensures
            mode_changed(*old(self), *final(self)),
    {
        self.input = String::new();
        self.input_cursor_index = 0;
        match self.current_view {
            Selector::Tab => {
                self.current_view = Selector::Pane;
            },
            Selector::Pane => {
                self.current_view = Selector::Session;
            },
            Selector::Session => {
                self.current_view = Selector::Tab;
            },
        }
        if self.current_view == Selector::Pane {
            self.clear_pane_selection();
            self.result_index = 0;
            self.select_pane_at_index();
            return;
        }
        if let Some(i) = self.tab_match {
            self.result_index = i;
        }
    }

    /// Which tabs are active.
    fn active_tab_flags(&self) -> (v: Vec<bool>)
        ensures
            v@ == active_flags(self.tab_infos@),
    {
        let mut v: Vec<bool> = Vec::new();
        let mut i: usize = 0;
        while i < self.tab_infos.len()
            invariant
                i <= self.tab_infos.len(),
                v@ =~= active_flags(self.tab_infos@).take(i as int),
            decreases self.tab_infos.len() - i,
        {
            v.push(self.tab_infos[i].active);
            i = i + 1;
        }
        v
    }

    /// Records the focused tab, and selects it when no tab is selected yet.
    pub fn get_focused_tab(&mut self)
        ensures
            focused_tab_found(*old(self), *final(self)),
    {
        let flags = self.active_tab_flags();
        proof {
            crate::navigation::lemma_prev_match(flags@, flags@.len() as int);
            crate::navigation::lemma_next_match(flags@, 0);
        }
        if let Some(last) = crate::navigation::find_prev_match(&flags, flags.len()) {
            self.focus_tab_pos = self.tab_infos[last].position;
        }
        if self.tab_match.is_none() {
            if let Some(first) = crate::navigation::find_next_match(&flags, 0) {
                self.tab_match = Some(first);
                if self.current_view == Selector::Tab {
                    self.result_index = first;
                }
            }
        }
    }

    /// Rebuilds the cross-tab pane list from the pane manifest and the tabs.
    pub fn rebuild_all_panes(&mut self)
        ensures
            panes_rebuilt(*old(self), *final(self)),
    {
        let flat = flatten_manifest(&self.pane_manifest, &self.tab_infos);
        self.all_panes = sort_by_tab_position(flat);
    }
}

} // verus!

verus! {

/// A new search of the shown list for the current input.
pub open spec fn researched(m: State, n: State) -> bool {
    match m.current_view {
        Selector::Tab => tab_selection_moved(m, n, Some(tab_search_target(m))),
        Selector::Pane => panes_searched(m, n),
        Selector::Session => sessions_searched(m, n),
    }
}

/// Backspace: the input edit, then a new search when the input changed.
pub open spec fn backspace_handled(o: State, n: State) -> bool {
    exists|m: State, changed: bool|
        #![trigger input_removed(o, m, changed)]
        input_removed(o, m, changed) && if changed { researched(m, n) } else { n == m }
}

/// Typing `c`: the input edit, then a new search when the input changed.
pub open spec fn typing_handled(o: State, n: State, c: char) -> bool {
    exists|m: State, changed: bool|
        #![trigger input_inserted(o, m, c, changed)]
        input_inserted(o, m, c, changed) && if changed { researched(m, n) } else { n == m }
}

/// Only the cursor moved, to `cursor`.
pub open spec fn cursor_moved(o: State, n: State, cursor: int) -> bool {
    &&& all_but_input_same(o, n)
    &&& n.input == o.input
    &&& n.input_cursor_index == cursor
}

/// What Enter asks the host to do: close the finder and go to the selected
/// tab, pane (switching to its tab first, when known) or session; nothing
/// when nothing is selected.
pub open spec fn enter_commands(o: State) -> Seq<Command> {
    match o.current_view {
        Selector::Tab => match o.tab_match {
            Some(p) => seq![Command::ClosePlugin, Command::SwitchTab(p)],
            None => Seq::empty(),
        },
        Selector::Pane => match o.pane_match {
            Some(id) => seq![Command::ClosePlugin] + match o.pane_tab_position {
                Some(t) => seq![Command::SwitchTab(t)],
                None => Seq::<Command>::empty(),
            } + seq![Command::FocusTerminalPane(id)],
            None => Seq::empty(),
        },
        Selector::Session => match o.session_match {
            Some(s) => seq![Command::ClosePlugin, Command::SwitchSession(s)],
            None => Seq::empty(),
        },
    }
}

/// The key is Ctrl+C.
pub open spec fn is_ctrl_c(key: Key) -> bool {
    key matches Key::Char { ch, ctrl } && ctrl && ch == 'c'
}

impl State {
    /// The key can be handled: a typed character fits in the input's
    /// allocation (`String::insert` panics otherwise).
    pub open spec fn key_ok(self, key: Key) -> bool {
        match key {
            Key::Char { .. } => !is_ctrl_c(key) ==> self.room_for_char(),
            _ => true,
        }
    }
}

/// The effect of a key press on the state, and the commands it yields. Left
/// and Right move the cursor by one whole character, within the input.
pub open spec fn key_handled(o: State, key: Key, n: State, commands: Seq<Command>) -> bool {
    match key {
        Key::Enter => n == o && commands == enter_commands(o),
        Key::Backspace => backspace_handled(o, n) && commands.len() == 0,
        Key::Down => commands.len() == 0 && match o.current_view {
            Selector::Tab => tab_selection_moved(o, n, down_target(o.tab_flags(), o.result_index as int)),
            Selector::Pane => pane_selection_moved(o, n, down_target(o.pane_flags(), o.result_index as int)),
            Selector::Session => session_selection_moved(o, n, down_target(o.session_flags(), o.result_index as int)),
        },
        Key::Up => commands.len() == 0 && match o.current_view {
            Selector::Tab => tab_selection_moved(o, n, up_target(o.tab_flags(), o.result_index as int)),
            Selector::Pane => pane_selection_moved(o, n, up_target(o.pane_flags(), o.result_index as int)),
            Selector::Session => session_selection_moved(o, n, up_target(o.session_flags(), o.result_index as int)),
        },
        Key::PageUp => commands.len() == 0 && if o.current_view == Selector::Tab {
            &&& lists_same(o, n)
            &&& editing_same(o, n)
            &&& n.session_match == o.session_match
            &&& pane_sel_same(o, n)
            &&& n.result_index == 0
            &&& n.tab_match == (if o.tab_infos.len() > 0 && o.tab_flags()[0] { Some(0usize) } else { o.tab_match })
        } else {
            n == o
        },
        Key::Left => commands.len() == 0 && cursor_moved(
            o,
            n,
            if cursor_char(o) > 0 { utf8_len(o.input@.take(cursor_char(o) - 1)) as int } else { o.input_cursor_index as int },
        ),
        Key::Right => commands.len() == 0 && cursor_moved(
            o,
            n,
            if cursor_char(o) < o.input@.len() { utf8_len(o.input@.take(cursor_char(o) + 1)) as int } else { o.input_cursor_index as int },
        ),
        Key::Esc => n == o && commands == seq![Command::ClosePlugin],
        Key::Tab => mode_changed(o, n) && commands.len() == 0,
        Key::Char { ch, ctrl } => if is_ctrl_c(key) {
            n == o && commands == seq![Command::ClosePlugin]
        } else {
            typing_handled(o, n, ch) && commands.len() == 0
        },
        Key::Other => n == o && commands.len() == 0,
    }
}

impl State {
    /// Searches the shown list again for the current input.
    fn search_current_view(&mut self)
        ensures
            researched(*old(self), *final(self)),
    {
        match self.current_view {
            Selector::Tab => self.fuzzy_find_tab(),
            Selector::Pane => self.fuzzy_find_pane(),
            Selector::Session => self.fuzzy_find_session(),
        }
    }

    /// What Enter asks the host to do.
    fn enter_command_list(&self) -> (r: Vec<Command>)
        ensures
            r@ == enter_commands(*self),
    {
        let mut r: Vec<Command> = Vec::new();
        match self.current_view {
            Selector::Tab => {
                if let Some(p) = self.tab_match {
                    r.push(Command::ClosePlugin);
                    r.push(Command::SwitchTab(p));
                }
            },
            Selector::Pane => {
                if let Some(pane_id) = self.pane_match {
                    r.push(Command::ClosePlugin);
                    if let Some(tab_pos) = self.pane_tab_position {
                        r.push(Command::SwitchTab(tab_pos));
                    }
                    r.push(Command::FocusTerminalPane(pane_id));
                }
            },
            Selector::Session => {
                if let Some(sess) = &self.session_match {
                    r.push(Command::ClosePlugin);
                    r.push(Command::SwitchSession(sess.clone()));
                }
            },
        }
        assert(r@ =~= enter_commands(*self));
        r
    }

    /// Handles a key press. Returns whether the screen should be redrawn
    /// (always) and the commands for the host, in order.
    pub fn handle_key_event(&mut self, key: Key) -> (r: (bool, Vec<Command>))
        requires
            old(self).wf(),
            old(self).key_ok(key),
        ensures
            r.0,
            key_handled(*old(self), key, *final(self), r.1@),
            final(self).wf(),
    {
        let ghost o = *self;
        let mut commands: Vec<Command> = Vec::new();
        match key {
            Key::Enter => {
                commands = self.enter_command_list();
            },
            Key::Backspace => {
                let changed = self.remove_input_at_index();
                let ghost m = *self;
                if changed {
                    self.search_current_view();
                }
                assert(input_removed(o, m, changed) && if changed { researched(m, *self) } else { *self == m });
            },
            Key::Down => {
                match self.current_view {
                    Selector::Tab => self.move_down_tab(),
                    Selector::Pane => self.move_down_pane(),
                    Selector::Session => self.move_down_session(),
                }
            },
            Key::PageUp => {
                if self.current_view == Selector::Tab {
                    self.seek_tab(0);
                }
            },
            Key::Up => {
                match self.current_view {
                    Selector::Tab => self.move_up_tab(),
                    Selector::Pane => self.move_up_pane(),
                    Selector::Session => self.move_up_session(),
                }
            },
            Key::Left => {
                proof {
                    vstd::utf8::encode_utf8_valid_utf8(self.input@);
                }
                let (prev, _) = boundary_neighbours(self.input.as_str(), self.input_cursor_index);
                if let Some(b) = prev {
                    proof {
                        crate::text::lemma_boundary_is_offset(o.input@, o.input_cursor_index as int);
                        crate::text::lemma_offset_is_boundary(o.input@, cursor_char(o) - 1);
                    }
                    self.input_cursor_index = b;
                }
            },
            Key::Right => {
                proof {
                    vstd::utf8::encode_utf8_valid_utf8(self.input@);
                }
                let (_, next) = boundary_neighbours(self.input.as_str(), self.input_cursor_index);
                if let Some(b) = next {
                    proof {
                        crate::text::lemma_boundary_is_offset(o.input@, o.input_cursor_index as int);
                        crate::text::lemma_offset_is_boundary(o.input@, cursor_char(o) + 1);
                    }
                    self.input_cursor_index = b;
                }
            },
            Key::Esc => {
                commands.push(Command::ClosePlugin);
            },
            Key::Tab => {
                self.change_mode();
            },
            Key::Char { ch, ctrl } => {
                if ctrl && ch == 'c' {
                    commands.push(Command::ClosePlugin);
                } else {
                    let changed = self.insert_input_at_index(ch);
                    let ghost m = *self;
                    if changed {
                        self.search_current_view();
                    }
                    assert(input_inserted(o, m, ch, changed) && if changed { researched(m, *self) } else { *self == m });
                }
            },
            Key::Other => {},
        }
        (true, commands)
    }
}

} // verus!

verus! {

/// The state before any event: the tab list is shown, everything is empty
/// and nothing is selected.
pub open spec fn is_initial(s: State) -> bool {
    &&& s.debug_setting is None
    &&& s.configuration_dump@.len() == 0
    &&& s.current_view == Selector::Tab
    &&& s.focus_tab_pos == 0
    &&& s.result_index == 0
    &&& s.tab_infos@.len() == 0
    &&& s.pane_manifest@.len() == 0
    &&& s.input@.len() == 0
    &&& s.input_cursor_index == 0
    &&& s.tab_match is None
    &&& s.session_match is None
    &&& s.pane_match is None
    &&& s.pane_title_match@.len() == 0
    &&& s.pane_tab_position is None
    &&& s.all_panes@.len() == 0
    &&& s.sessions@.len() == 0
}

/// The effect of a host event on the state, and the commands it yields.
pub open spec fn event_handled(o: State, event: PluginEvent, n: State, commands: Seq<Command>) -> bool {
    match event {
        PluginEvent::TabUpdate(tabs) => commands.len() == 0 && exists|m1: State, m2: State|
            #![trigger focused_tab_found(m1, m2), panes_rebuilt(m2, n)]
            m1 == State { tab_infos: tabs, ..o } && focused_tab_found(m1, m2) && panes_rebuilt(m2, n),
        PluginEvent::PaneUpdate(groups) => commands.len() == 0
            && panes_rebuilt(State { pane_manifest: groups, ..o }, n),
        PluginEvent::SessionUpdate(names) => commands.len() == 0 && n == State { sessions: names, ..o },
        PluginEvent::Key(key) => key_handled(o, key, n, commands),
        PluginEvent::Other => commands.len() == 0 && n == o,
    }
}

impl Default for State {
    /// The initial state.
    fn default() -> (s: State)
        ensures
            is_initial(s),
            s.wf(),
    {
        State {
            debug_setting: None,
            configuration_dump: String::new(),
            current_view: Selector::Tab,
            focus_tab_pos: 0,
            result_index: 0,
            tab_infos: Vec::new(),
            pane_manifest: Vec::new(),
            input: String::new(),
            input_cursor_index: 0,
            tab_match: None,
            session_match: None,
            pane_match: None,
            pane_title_match: String::new(),
            pane_tab_position: None,
            all_panes: Vec::new(),
            sessions: Vec::new(),
            fz_matcher: FuzzyScorer::new(),
        }
    }
}

impl State {
    /// Keeps what the finder uses of the user's configuration: the value of
    /// `debug`, and the configuration as the host prints it.
    pub fn load(&mut self, debug_setting: Option<String>, configuration_dump: String)
        ensures
            *final(self) == (State { debug_setting, configuration_dump, ..*old(self) }),
    {
        self.debug_setting = debug_setting;
        self.configuration_dump = configuration_dump;
    }

    /// Handles an event from the host. Returns whether the screen should be
    /// redrawn (always) and the commands for the host, in order.
    pub fn update(&mut self, event: PluginEvent) -> (r: (bool, Vec<Command>))
        requires
            old(self).wf(),
            event matches PluginEvent::Key(key) ==> old(self).key_ok(key),
        ensures
            r.0,
            event_handled(*old(self), event, *final(self), r.1@),
            final(self).wf(),
    {
        let ghost o = *self;
        match event {
            PluginEvent::TabUpdate(tabs) => {
                self.tab_infos = tabs;
                let ghost m1 = *self;
                self.get_focused_tab();
                let ghost m2 = *self;
                self.rebuild_all_panes();
                assert(focused_tab_found(m1, m2) && panes_rebuilt(m2, *self));
                (true, Vec::new())
            },
            PluginEvent::PaneUpdate(groups) => {
                self.pane_manifest = groups;
                self.rebuild_all_panes();
                (true, Vec::new())
            },
            PluginEvent::SessionUpdate(names) => {
                self.sessions = names;
                (true, Vec::new())
            },
            PluginEvent::Key(key) => self.handle_key_event(key),
            PluginEvent::Other => (true, Vec::new()),
        }
    }
}

} // verus!

verus! {

impl State {
    /// Whether `key` can be handled: a typed character fits in the input's
    /// allocation (see `key_ok`).
    pub fn accepts_key(&self, key: &Key) -> (r: bool)
        requires
            self.wf(),
        ensures
            r == self.key_ok(*key),
    {
        match key {
            Key::Char { ch, ctrl } => (*ctrl && *ch == 'c') || self.input.as_str().len() <= (isize::MAX as usize) - 4,
            _ => true,
        }
    }
}

} // verus!
