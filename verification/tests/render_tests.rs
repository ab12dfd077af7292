use zigzag::model::{Key, PluginEvent, TabSummary};
use zigzag::state::State;

fn tab(position: usize, name: &str, active: bool) -> TabSummary {
    TabSummary { position, name: name.to_string(), active }
}

const PROMPT: &str = "\x1b[1m\x1b[36m > \x1b[39m\x1b[0m";
const BAR: &str = "\x1b[37m\x1b[1m\u{2503}\x1b[0m\x1b[39m";

fn tabs_state(n: usize) -> State {
    let mut s = State::default();
    let mut tabs = Vec::new();
    for i in 0..n {
        tabs.push(tab(i, &format!("t{}", i), i == 0));
    }
    s.update(PluginEvent::TabUpdate(tabs));
    s
}

#[test]
fn empty_prompt_shows_placeholder() {
    let s = tabs_state(2);
    let lines = s.render_lines(40);
    assert_eq!(lines[0], "");
    assert_eq!(lines[1], "");
    assert_eq!(
        lines[2],
        format!("{} {}\x1b[3m\x1b[2msearch pattern\x1b[0m\x1b[0m", PROMPT, BAR)
    );
    assert_eq!(lines[3], "Tabs: ");
    assert_eq!(lines[4], " - \x1b[1m\x1b[34mt0\x1b[39m\x1b[0m");
    assert_eq!(lines[5], " - \x1b[2mt1\x1b[0m");
    assert_eq!(lines[6], "");
    assert_eq!(
        lines[7],
        "\x1b[1;38;5;15mSelected Tab ->\x1b[0m \x1b[1m\x1b[34mt0\x1b[39m\x1b[0m"
    );
    assert_eq!(lines.len(), 8);
}

#[test]
fn prompt_shows_cursor_inside_input() {
    let mut s = tabs_state(1);
    for ch in "ab".chars() {
        s.handle_key_event(Key::Char { ch, ctrl: false });
    }
    let lines = s.render_lines(40);
    assert_eq!(lines[2], format!("{} \x1b[2mab\x1b[0m{}", PROMPT, BAR));
    s.handle_key_event(Key::Left);
    let lines = s.render_lines(40);
    assert_eq!(
        lines[2],
        format!("{} \x1b[2ma\x1b[0m{}\x1b[2mb\x1b[0m", PROMPT, BAR)
    );
}

#[test]
fn long_lists_are_cut_with_ellipsis() {
    let s = tabs_state(10);
    // 12 rows leave room for one tab line: the count starts at 7 and stops at 8.
    let lines = s.render_lines(12);
    assert_eq!(lines[3], "Tabs: ");
    assert_eq!(lines[4], " - \x1b[1m\x1b[34mt0\x1b[39m\x1b[0m");
    assert_eq!(lines[5], " - \x1b[2m...\x1b[0m");
    assert_eq!(lines[6], "");
    assert_eq!(lines.len(), 8);
}

#[test]
fn tiny_pane_does_not_cut() {
    let s = tabs_state(3);
    // Fewer than four rows: the limit wraps around and nothing is cut.
    let lines = s.render_lines(2);
    assert_eq!(lines.len(), 9);
    assert_eq!(lines[6], " - \x1b[2mt2\x1b[0m");
}

#[test]
fn no_match_footer() {
    let mut s = State::default();
    let lines = s.render_lines(40);
    assert_eq!(
        lines[5],
        "\x1b[1;38;5;15mSelected Tab ->\x1b[0m \x1b[2mNo matches found\x1b[0m"
    );
    s.handle_key_event(Key::Tab);
    let lines = s.render_lines(40);
    assert_eq!(lines[3], "Panes (all tabs): ");
    assert_eq!(
        lines[5],
        "\x1b[1;38;5;15mSelected Pane ->\x1b[0m \x1b[2mNo matches found\x1b[0m"
    );
    assert_eq!(lines.len(), 6);
    s.handle_key_event(Key::Tab);
    let lines = s.render_lines(40);
    assert_eq!(lines[3], "Sessions: ");
    assert_eq!(
        lines[5],
        "\x1b[1;38;5;15mSelected Session ->\x1b[0m \x1b[2mNo matches found\x1b[0m"
    );
}

#[test]
fn debug_lines_when_configured() {
    let mut s = tabs_state(1);
    s.load(Some("true".to_string()), "{}".to_string());
    let lines = s.render_lines(40);
    let n = lines.len();
    assert_eq!(lines[n - 8], "input: ");
    assert_eq!(lines[n - 7], "Cursor: 0");
    assert_eq!(lines[n - 6], "len: 0");
    assert_eq!(lines[n - 5], "tab match: 0");
    assert_eq!(lines[n - 4], "pane match: 42");
    assert_eq!(lines[n - 3], "focussed tab : 0");
    assert_eq!(lines[n - 2], "result_index: 0");
    assert_eq!(lines[n - 1], "\x1b[1;38;5;154mRuntime configuration:\x1b[0m {}");
    s.load(Some("yes".to_string()), "{}".to_string());
    assert_eq!(s.render_lines(40).len(), n - 8);
}

#[test]
fn cursor_past_the_end_draws_no_prompt() {
    let mut s = tabs_state(2);
    s.input = "ab".to_string();
    s.input_cursor_index = 5;
    assert!(s.can_render());
    let lines = s.render_lines(40);
    assert_eq!(lines[0], "");
    assert_eq!(lines[1], "");
    assert_eq!(lines[2], "Tabs: ");
}

#[test]
fn prompt_after_a_wide_character() {
    let mut s = tabs_state(1);
    s.handle_key_event(Key::Char { ch: 'é', ctrl: false });
    assert!(s.can_render());
    let lines = s.render_lines(40);
    assert_eq!(lines[2], format!("{} \x1b[2mé\x1b[0m{}", PROMPT, BAR));
}
