use zigzag::model::{Command, Key, PaneGroup, PaneSummary, PluginEvent, Selector, TabSummary};
use zigzag::state::State;

fn tab(position: usize, name: &str, active: bool) -> TabSummary {
    TabSummary { position, name: name.to_string(), active }
}

fn pane(id: u32, title: &str, is_plugin: bool) -> PaneSummary {
    PaneSummary { id, title: title.to_string(), is_plugin }
}

fn with_tabs() -> State {
    let mut s = State::default();
    let (redraw, cmds) = s.update(PluginEvent::TabUpdate(vec![
        tab(0, "Editor", false),
        tab(1, "Build", true),
        tab(2, "Manager", false),
    ]));
    assert!(redraw);
    assert!(cmds.is_empty());
    s
}

fn press(s: &mut State, key: Key) -> Vec<Command> {
    assert!(s.accepts_key(&key));
    let (redraw, cmds) = s.handle_key_event(key);
    assert!(redraw);
    cmds
}

fn typed(s: &mut State, text: &str) {
    for ch in text.chars() {
        press(s, Key::Char { ch, ctrl: false });
    }
}

#[test]
fn initial_state_is_empty() {
    let s = State::default();
    assert_eq!(s.current_view, Selector::Tab);
    assert!(s.input.is_empty());
    assert_eq!(s.input_cursor_index, 0);
    assert!(s.tab_match.is_none());
    assert!(s.all_panes.is_empty());
}

#[test]
fn tab_update_selects_active_tab() {
    let s = with_tabs();
    assert_eq!(s.focus_tab_pos, 1);
    assert_eq!(s.tab_match, Some(1));
    assert_eq!(s.result_index, 1);
}

#[test]
fn tab_update_keeps_existing_selection() {
    let mut s = with_tabs();
    press(&mut s, Key::Down);
    assert_eq!(s.tab_match, Some(2));
    s.update(PluginEvent::TabUpdate(vec![tab(0, "A", true), tab(1, "B", false), tab(2, "C", false)]));
    assert_eq!(s.focus_tab_pos, 0);
    assert_eq!(s.tab_match, Some(2));
    assert_eq!(s.result_index, 2);
}

#[test]
fn down_wraps_around_and_up_goes_back() {
    let mut s = with_tabs();
    press(&mut s, Key::Down);
    assert_eq!(s.result_index, 2);
    press(&mut s, Key::Down);
    assert_eq!(s.result_index, 0);
    assert_eq!(s.tab_match, Some(0));
    press(&mut s, Key::Up);
    assert_eq!(s.result_index, 2);
    press(&mut s, Key::Up);
    assert_eq!(s.result_index, 1);
    assert_eq!(s.tab_match, Some(1));
}

#[test]
fn page_up_goes_to_top() {
    let mut s = with_tabs();
    press(&mut s, Key::PageUp);
    assert_eq!(s.result_index, 0);
    assert_eq!(s.tab_match, Some(0));
}

#[test]
fn typing_searches_tabs() {
    let mut s = with_tabs();
    typed(&mut s, "mgr");
    assert_eq!(s.input, "mgr");
    assert_eq!(s.input_cursor_index, 3);
    assert_eq!(s.tab_match, Some(2));
    assert_eq!(s.result_index, 2);
    let cmds = press(&mut s, Key::Enter);
    assert_eq!(cmds.len(), 2);
    assert!(matches!(cmds[0], Command::ClosePlugin));
    assert!(matches!(cmds[1], Command::SwitchTab(2)));
}

#[test]
fn no_match_falls_back_to_focused_tab() {
    let mut s = with_tabs();
    typed(&mut s, "zzz");
    assert_eq!(s.tab_match, Some(1));
    assert_eq!(s.result_index, 1);
}

#[test]
fn moves_skip_unlisted_tabs() {
    let mut s = with_tabs();
    typed(&mut s, "e");
    // "Editor", "Manager" contain an e, "Build" does not.
    let listed = s.tab_match.unwrap();
    assert!(listed == 0 || listed == 2);
    press(&mut s, Key::Down);
    let next = s.result_index;
    assert!(next == 0 || next == 2);
    assert_ne!(next, listed);
    press(&mut s, Key::Up);
    assert_eq!(s.result_index, listed);
}

#[test]
fn backspace_removes_before_cursor_and_searches_again() {
    let mut s = with_tabs();
    typed(&mut s, "mgz");
    assert_eq!(s.tab_match, Some(1));
    press(&mut s, Key::Backspace);
    assert_eq!(s.input, "mg");
    assert_eq!(s.input_cursor_index, 2);
    assert_eq!(s.tab_match, Some(2));
}

#[test]
fn cursor_moves_within_input() {
    let mut s = with_tabs();
    typed(&mut s, "ab");
    press(&mut s, Key::Left);
    assert_eq!(s.input_cursor_index, 1);
    press(&mut s, Key::Left);
    press(&mut s, Key::Left);
    assert_eq!(s.input_cursor_index, 0);
    press(&mut s, Key::Right);
    press(&mut s, Key::Right);
    press(&mut s, Key::Right);
    assert_eq!(s.input_cursor_index, 2);
    press(&mut s, Key::Left);
    typed(&mut s, "x");
    assert_eq!(s.input, "axb");
    assert_eq!(s.input_cursor_index, 2);
}

#[test]
fn editing_at_the_start() {
    let mut s = with_tabs();
    typed(&mut s, "bc");
    press(&mut s, Key::Left);
    press(&mut s, Key::Left);
    typed(&mut s, "a");
    assert_eq!(s.input, "abc");
    assert_eq!(s.input_cursor_index, 1);
    press(&mut s, Key::Left);
    press(&mut s, Key::Backspace);
    // At the start, Backspace removes the first character and keeps the cursor.
    assert_eq!(s.input, "bc");
    assert_eq!(s.input_cursor_index, 0);
    assert_eq!(s.tab_match, Some(1));
}

#[test]
fn backspace_on_empty_input_does_nothing() {
    let mut s = with_tabs();
    press(&mut s, Key::Backspace);
    assert!(s.input.is_empty());
    assert_eq!(s.tab_match, Some(1));
}

#[test]
fn escape_and_ctrl_c_close() {
    let mut s = with_tabs();
    let cmds = press(&mut s, Key::Esc);
    assert_eq!(cmds.len(), 1);
    assert!(matches!(cmds[0], Command::ClosePlugin));
    let cmds = press(&mut s, Key::Char { ch: 'c', ctrl: true });
    assert_eq!(cmds.len(), 1);
    assert!(matches!(cmds[0], Command::ClosePlugin));
    assert!(s.input.is_empty());
    press(&mut s, Key::Char { ch: 'x', ctrl: true });
    assert_eq!(s.input, "x");
}

#[test]
fn other_keys_are_ignored() {
    let mut s = with_tabs();
    let cmds = press(&mut s, Key::Other);
    assert!(cmds.is_empty());
    assert_eq!(s.tab_match, Some(1));
}

#[test]
fn non_ascii_input_moves_by_characters() {
    let mut s = with_tabs();
    press(&mut s, Key::Char { ch: 'é', ctrl: false });
    assert_eq!(s.input, "é");
    // The cursor moves past the whole two-byte character.
    assert_eq!(s.input_cursor_index, 2);
    assert!(s.can_render());
    typed(&mut s, "a");
    assert_eq!(s.input, "éa");
    assert_eq!(s.input_cursor_index, 3);
    press(&mut s, Key::Left);
    assert_eq!(s.input_cursor_index, 2);
    press(&mut s, Key::Left);
    assert_eq!(s.input_cursor_index, 0);
    press(&mut s, Key::Right);
    assert_eq!(s.input_cursor_index, 2);
    press(&mut s, Key::Backspace);
    assert_eq!(s.input, "a");
    assert_eq!(s.input_cursor_index, 0);
}

#[test]
fn second_character_after_a_wide_one() {
    let mut s = State::default();
    assert!(s.insert_input_at_index('é'));
    assert_eq!(s.input, "é");
    assert!(s.insert_input_at_index('a'));
    assert_eq!(s.input, "éa");
    assert_eq!(s.input_cursor_index, 3);
}

#[test]
fn insert_at_the_start_reports_a_change() {
    let mut s = State::default();
    s.input = "bc".to_string();
    s.input_cursor_index = 0;
    assert!(s.insert_input_at_index('a'));
    assert_eq!(s.input, "abc");
    assert_eq!(s.input_cursor_index, 1);
}

#[test]
fn backspace_at_the_start_reports_a_change() {
    let mut s = State::default();
    s.input = "ab".to_string();
    s.input_cursor_index = 0;
    assert!(s.remove_input_at_index());
    assert_eq!(s.input, "b");
    assert_eq!(s.input_cursor_index, 0);
}

#[test]
fn backspace_on_empty_input_reports_no_change() {
    let mut s = State::default();
    assert!(!s.remove_input_at_index());
    assert!(s.input.is_empty());
}

#[test]
fn typing_at_the_start_searches_again() {
    let mut s = State::default();
    s.update(PluginEvent::TabUpdate(vec![tab(0, "xbc", true), tab(1, "abc", false)]));
    assert_eq!(s.tab_match, Some(0));
    s.input = "bc".to_string();
    s.input_cursor_index = 0;
    s.result_index = 0;
    press(&mut s, Key::Char { ch: 'a', ctrl: false });
    assert_eq!(s.input, "abc");
    assert_eq!(s.tab_match, Some(1));
    assert_eq!(s.result_index, 1);
}

#[test]
fn ascii_keys_keep_the_cursor_inside() {
    let mut s = with_tabs();
    typed(&mut s, "ab");
    for key in [Key::Left, Key::Left, Key::Left, Key::Backspace, Key::Right, Key::Right, Key::Right] {
        press(&mut s, key);
        assert!(s.input.is_ascii());
        assert!(s.input_cursor_index <= s.input.len());
    }
    assert_eq!(s.input, "b");
    assert_eq!(s.input_cursor_index, 1);
}

fn with_panes() -> State {
    let mut s = with_tabs();
    s.update(PluginEvent::PaneUpdate(vec![
        PaneGroup { tab_position: 2, panes: vec![pane(7, "htop", false), pane(8, "plugin", true)] },
        PaneGroup { tab_position: 0, panes: vec![pane(3, "vim", false), pane(4, "shell", false)] },
        PaneGroup { tab_position: 5, panes: vec![pane(9, "logs", false)] },
    ]));
    s
}

#[test]
fn pane_list_is_flat_sorted_and_labelled() {
    let s = with_panes();
    let titles: Vec<&str> = s.all_panes.iter().map(|p| p.title.as_str()).collect();
    assert_eq!(titles, vec!["vim", "shell", "htop", "logs"]);
    let tabs: Vec<&str> = s.all_panes.iter().map(|p| p.tab_name.as_str()).collect();
    assert_eq!(tabs, vec!["Editor", "Editor", "Manager", "Tab 5"]);
    let positions: Vec<usize> = s.all_panes.iter().map(|p| p.tab_position).collect();
    assert_eq!(positions, vec![0, 0, 2, 5]);
}

#[test]
fn pane_list_does_not_depend_on_group_order() {
    let a = with_panes();
    let mut b = with_tabs();
    b.update(PluginEvent::PaneUpdate(vec![
        PaneGroup { tab_position: 5, panes: vec![pane(9, "logs", false)] },
        PaneGroup { tab_position: 0, panes: vec![pane(3, "vim", false), pane(4, "shell", false)] },
        PaneGroup { tab_position: 2, panes: vec![pane(7, "htop", false), pane(8, "plugin", true)] },
    ]));
    let ids_a: Vec<u32> = a.all_panes.iter().map(|p| p.pane_id).collect();
    let ids_b: Vec<u32> = b.all_panes.iter().map(|p| p.pane_id).collect();
    assert_eq!(ids_a, ids_b);
}

#[test]
fn tab_key_cycles_views() {
    let mut s = with_panes();
    typed(&mut s, "v");
    press(&mut s, Key::Tab);
    assert_eq!(s.current_view, Selector::Pane);
    assert!(s.input.is_empty());
    assert_eq!(s.input_cursor_index, 0);
    assert_eq!(s.result_index, 0);
    assert_eq!(s.pane_match, Some(3));
    assert_eq!(s.pane_title_match, "vim");
    assert_eq!(s.pane_tab_position, Some(0));
    press(&mut s, Key::Tab);
    assert_eq!(s.current_view, Selector::Session);
    press(&mut s, Key::Tab);
    assert_eq!(s.current_view, Selector::Tab);
}

#[test]
fn pane_search_and_enter() {
    let mut s = with_panes();
    press(&mut s, Key::Tab);
    typed(&mut s, "htop");
    assert_eq!(s.pane_match, Some(7));
    assert_eq!(s.result_index, 2);
    let cmds = press(&mut s, Key::Enter);
    assert_eq!(cmds.len(), 3);
    assert!(matches!(cmds[0], Command::ClosePlugin));
    assert!(matches!(cmds[1], Command::SwitchTab(2)));
    assert!(matches!(cmds[2], Command::FocusTerminalPane(7)));
}

#[test]
fn pane_moves_wrap_and_clear_without_matches() {
    let mut s = with_panes();
    press(&mut s, Key::Tab);
    press(&mut s, Key::Up);
    assert_eq!(s.result_index, 3);
    assert_eq!(s.pane_match, Some(9));
    press(&mut s, Key::Down);
    assert_eq!(s.result_index, 0);
    assert_eq!(s.pane_match, Some(3));
    typed(&mut s, "qqq");
    assert_eq!(s.pane_match, None);
    press(&mut s, Key::Down);
    assert_eq!(s.pane_match, None);
    assert!(s.pane_title_match.is_empty());
}

#[test]
fn sessions_search_and_enter() {
    let mut s = with_tabs();
    s.update(PluginEvent::SessionUpdate(vec!["work".to_string(), "play".to_string()]));
    press(&mut s, Key::Tab);
    press(&mut s, Key::Tab);
    assert_eq!(s.current_view, Selector::Session);
    typed(&mut s, "pl");
    assert_eq!(s.session_match.as_deref(), Some("play"));
    assert_eq!(s.result_index, 1);
    let cmds = press(&mut s, Key::Enter);
    assert_eq!(cmds.len(), 2);
    assert!(matches!(&cmds[1], Command::SwitchSession(name) if name == "play"));
    press(&mut s, Key::Down);
    assert_eq!(s.session_match.as_deref(), Some("play"));
}

#[test]
fn enter_without_selection_does_nothing() {
    let mut s = State::default();
    let cmds = press(&mut s, Key::Enter);
    assert!(cmds.is_empty());
}

#[test]
fn other_events_are_ignored() {
    let mut s = with_tabs();
    let (redraw, cmds) = s.update(PluginEvent::Other);
    assert!(redraw);
    assert!(cmds.is_empty());
    assert_eq!(s.tab_match, Some(1));
}

#[test]
fn backspace_undoes_typing_in_the_middle() {
    let mut s = with_tabs();
    typed(&mut s, "abc");
    press(&mut s, Key::Left);
    typed(&mut s, "x");
    assert_eq!(s.input, "abxc");
    press(&mut s, Key::Backspace);
    assert_eq!(s.input, "abc");
    assert_eq!(s.input_cursor_index, 2);
}

#[test]
fn backspace_undoes_typing_a_wide_character() {
    let mut s = with_tabs();
    typed(&mut s, "ab");
    press(&mut s, Key::Char { ch: 'é', ctrl: false });
    assert_eq!(s.input, "abé");
    assert_eq!(s.input_cursor_index, 4);
    press(&mut s, Key::Backspace);
    assert_eq!(s.input, "ab");
    assert_eq!(s.input_cursor_index, 2);
}

#[test]
fn empty_input_lists_every_name() {
    let s = with_tabs();
    assert!(s.is_match("anything"));
    assert!(s.is_match(""));
    assert_eq!(s.tab_match_flags(), vec![true, true, true]);
}

#[test]
fn up_then_down_returns() {
    let mut s = with_tabs();
    press(&mut s, Key::Up);
    assert_eq!(s.result_index, 0);
    press(&mut s, Key::Down);
    assert_eq!(s.result_index, 1);
    assert_eq!(s.tab_match, Some(1));
}
