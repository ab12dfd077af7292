//! The text of the finder's screen, line by line, below the three selector
//! ribbons that the host draws.

use vstd::prelude::*;
use vstd::utf8::{encode_utf8, is_char_boundary};
use crate::matching::chars_of;
use crate::model::{FlatPane, Selector, TabSummary};
use crate::state::State;
use crate::style::{
    GREEN, WHITE, blue_text, bold_fixed_text, bold_text, color_bold, cyan_text, dimmed_text,
    italic_text, paint_blue, paint_bold, paint_cyan, paint_dimmed, paint_italic, paint_white,
    white_text,
};
use crate::text::{char_index_at, decimal, u32_to_decimal, usize_to_decimal, utf8_len};

verus! {

/// The texts of a list of strings.
pub open spec fn texts(v: Seq<String>) -> Seq<Seq<char>> {
    v.map_values(|s: String| s@)
}

/// `a` followed by `b`.
pub fn join(a: &str, b: &str) -> (r: String)
    ensures
        r@ == a@ + b@,
{
    let mut r = String::from_str(a);
    r.append(b);
    r
}

/// Whether two texts are equal, character by character.
pub fn same_text(a: &str, b: &str) -> (r: bool)
    ensures
        r == (a@ == b@),
{
    let x = chars_of(a);
    let y = chars_of(b);
    if x.len() != y.len() {
        return false;
    }
    let mut i: usize = 0;
    while i < x.len()
        invariant
            x@ == a@,
            y@ == b@,
            x.len() == y.len(),
            i <= x.len(),
            forall|j: int| 0 <= j < i ==> x@[j] == y@[j],
        decreases x.len() - i,
    {
        if x[i] != y[i] {
            return false;
        }
        i = i + 1;
    }
    assert(x@ =~= y@);
    true
}

/// The cyan, bold `>` at the start of the prompt.
pub open spec fn prompt_mark() -> Seq<char> {
    bold_text(cyan_text(" > "@))
}

/// The bar that shows the cursor.
pub open spec fn cursor_bar() -> Seq<char> {
    white_text(bold_text("\u{2503}"@))
}

/// The prompt line: the placeholder for an empty input; the input with the
/// bar at the cursor otherwise; no line when the cursor is past the end.
pub open spec fn prompt_line(s: State) -> Option<Seq<char>> {
    let len = utf8_len(s.input@);
    if s.input@.len() == 0 {
        Some(prompt_mark() + " "@ + cursor_bar() + italic_text(dimmed_text("search pattern"@)))
    } else if s.input_cursor_index == len {
        Some(prompt_mark() + " "@ + dimmed_text(s.input@) + cursor_bar())
    } else if s.input_cursor_index < len {
        let k = char_index_at(s.input@, s.input_cursor_index as int);
        Some(prompt_mark() + " "@ + dimmed_text(s.input@.take(k)) + cursor_bar() + dimmed_text(s.input@.skip(k)))
    } else {
        None
    }
}

/// How many rows the list may fill: `rows - 4`, wrapping around below zero
/// as unsigned arithmetic in a release build does.
pub open spec fn row_limit(rows: usize) -> int {
    if rows >= 4 {
        rows - 4
    } else {
        rows - 4 + usize::MAX + 1
    }
}

/// The line that stands for the entries cut off at the bottom.
pub open spec fn ellipsis_line() -> Seq<char> {
    " - "@ + dimmed_text("..."@)
}

/// The listed lines: the line of each listed entry in order, while the row
/// count stays below the limit; once it reaches the limit, the ellipsis line
/// in place of the next listed entry, and nothing after it.
pub open spec fn listing(lines: Seq<Seq<char>>, flags: Seq<bool>, count: int, limit: int) -> Seq<Seq<char>>
    decreases lines.len(),
{
    if lines.len() == 0 || flags.len() == 0 {
        Seq::empty()
    } else if !flags[0] {
        listing(lines.drop_first(), flags.drop_first(), count, limit)
    } else if count >= limit {
        seq![ellipsis_line()]
    } else {
        seq![lines[0]] + listing(lines.drop_first(), flags.drop_first(), count + 1, limit)
    }
}

/// The line of a tab or session name: blue and bold when highlighted,
/// dimmed otherwise.
pub open spec fn name_line(name: Seq<char>, highlighted: bool) -> Seq<char> {
    " - "@ + if highlighted { bold_text(blue_text(name)) } else { dimmed_text(name) }
}

/// The line of a pane: its title, then its tab's name in brackets.
pub open spec fn pane_line(p: FlatPane, highlighted: bool) -> Seq<char> {
    " - "@ + (if highlighted { bold_text(blue_text(p.title@)) } else { dimmed_text(p.title@) }) + " "@
        + dimmed_text("["@ + p.tab_name@ + "]"@)
}

/// The line of each tab, the highlighted one marked.
pub open spec fn tab_lines(s: State) -> Seq<Seq<char>> {
    Seq::new(s.tab_infos@.len(), |i: int| name_line(s.tab_infos@[i].name@, i == s.result_index))
}

/// The line of each session, the highlighted one marked.
pub open spec fn session_lines(s: State) -> Seq<Seq<char>> {
    Seq::new(s.sessions@.len(), |i: int| name_line(s.sessions@[i]@, i == s.result_index))
}

/// The line of each pane, the highlighted one marked.
pub open spec fn pane_lines(s: State) -> Seq<Seq<char>> {
    Seq::new(s.all_panes@.len(), |i: int| pane_line(s.all_panes@[i], i == s.result_index))
}

/// A label, bold white, then a value.
pub open spec fn labelled(label: Seq<char>, value: Seq<char>) -> Seq<char> {
    bold_fixed_text(WHITE, label) + " "@ + value
}

/// The name of the first tab at `position`, or `Unknown`.
pub open spec fn tab_label(tabs: Seq<TabSummary>, position: usize) -> Seq<char>
    decreases tabs.len(),
{
    if tabs.len() == 0 {
        "Unknown"@
    } else if tabs[0].position == position {
        tabs[0].name@
    } else {
        tab_label(tabs.drop_first(), position)
    }
}

/// The lines below the list that show what is selected.
pub open spec fn footer(s: State) -> Seq<Seq<char>> {
    let none = dimmed_text("No matches found"@);
    match s.current_view {
        Selector::Tab => seq![Seq::<char>::empty()] + match s.tab_match {
            Some(m) => if m < s.tab_infos@.len() {
                seq![labelled("Selected Tab ->"@, bold_text(blue_text(s.tab_infos@[m as int].name@)))]
            } else {
                Seq::empty()
            },
            None => seq![labelled("Selected Tab ->"@, none)],
        },
        Selector::Pane => seq![Seq::<char>::empty()] + seq![
            if s.pane_title_match@.len() > 0 {
                labelled("Selected Pane ->"@, bold_text(blue_text(s.pane_title_match@)))
            } else {
                labelled("Selected Pane ->"@, none)
            },
        ] + match s.pane_tab_position {
            Some(p) => seq![labelled("In Tab ->"@, bold_text(blue_text(tab_label(s.tab_infos@, p))))],
            None => Seq::empty(),
        },
        Selector::Session => seq![Seq::<char>::empty()] + match s.session_match {
            Some(n) => seq![labelled("Selected Session ->"@, bold_text(blue_text(n@)))],
            None => seq![labelled("Selected Session ->"@, none)],
        },
    }
}

/// The list section: a heading, the listed entries, and the footer.
pub open spec fn list_section(s: State, rows: usize) -> Seq<Seq<char>> {
    let limit = row_limit(rows);
    match s.current_view {
        Selector::Tab => seq!["Tabs: "@] + listing(tab_lines(s), s.tab_flags(), 7, limit) + footer(s),
        Selector::Pane => seq!["Panes (all tabs): "@] + listing(pane_lines(s), s.pane_flags(), 6, limit) + footer(s),
        Selector::Session => seq!["Sessions: "@] + listing(session_lines(s), s.session_flags(), 6, limit) + footer(s),
    }
}

/// Debugging was asked for in the configuration.
pub open spec fn debug_on(s: State) -> bool {
    s.debug_setting matches Some(v) && v@ == "true"@
}

/// The internal values shown when debugging.
pub open spec fn debug_lines(s: State) -> Seq<Seq<char>> {
    seq![
        "input: "@ + s.input@,
        "Cursor: "@ + decimal(s.input_cursor_index as nat),
        "len: "@ + decimal(utf8_len(s.input@)),
        "tab match: "@ + decimal(match s.tab_match { Some(m) => m as nat, None => 42 }),
        "pane match: "@ + decimal(match s.pane_match { Some(m) => m as nat, None => 42 }),
        "focussed tab : "@ + decimal(s.focus_tab_pos as nat),
        "result_index: "@ + decimal(s.result_index as nat),
        bold_fixed_text(GREEN, "Runtime configuration:"@) + " "@ + s.configuration_dump@,
    ]
}

/// Every line of the screen below the ribbons: two blank lines, the prompt,
/// the list section, and the debugging lines when asked for.
pub open spec fn screen(s: State, rows: usize) -> Seq<Seq<char>> {
    seq![Seq::<char>::empty(), Seq::<char>::empty()]
        + match prompt_line(s) {
            Some(l) => seq![l],
            None => Seq::empty(),
        }
        + list_section(s, rows)
        + if debug_on(s) { debug_lines(s) } else { Seq::empty() }
}

/// The prompt can be drawn: when the cursor is inside the input it lies on a
/// char boundary (splitting the input there panics otherwise).
pub open spec fn prompt_ok(s: State) -> bool {
    s.input@.len() > 0 && s.input_cursor_index < utf8_len(s.input@)
        ==> is_char_boundary(encode_utf8(s.input@), s.input_cursor_index as int)
}

} // verus!

verus! {

/// The prompt line (see `prompt_line`).
pub fn prompt_line_text(s: &State) -> (r: Option<String>)
    requires
        utf8_len(s.input@) <= usize::MAX,
        prompt_ok(*s),
    ensures
        r matches Some(l) ==> prompt_line(*s) == Some(l@),
        r is None ==> prompt_line(*s) is None,
{
    let mark = paint_bold(paint_cyan(" > ").as_str());
    let bar = paint_white(paint_bold("\u{2503}").as_str());
    let head = join(mark.as_str(), " ");
    if s.input.as_str().is_empty() {
        let placeholder = paint_italic(paint_dimmed("search pattern").as_str());
        return Some(join(join(head.as_str(), bar.as_str()).as_str(), placeholder.as_str()));
    }
    let len = s.input.as_str().len();
    if s.input_cursor_index == len {
        let typed = paint_dimmed(s.input.as_str());
        Some(join(join(head.as_str(), typed.as_str()).as_str(), bar.as_str()))
    } else if s.input_cursor_index < len {
        let ghost chars = s.input@;
        let (before, after) = s.input.as_str().split_at(s.input_cursor_index);
        proof {
            let c = s.input_cursor_index as int;
            crate::text::lemma_boundary_is_offset(chars, c);
            let k = char_index_at(chars, c);
            crate::text::lemma_encode_concat(chars.take(k), chars.skip(k));
            assert(chars.take(k) + chars.skip(k) =~= chars);
            let bytes = encode_utf8(chars);
            assert(encode_utf8(before@) =~= encode_utf8(chars.take(k)));
            assert(encode_utf8(after@) =~= encode_utf8(chars.skip(k)));
            vstd::utf8::encode_utf8_decode_utf8(before@);
            vstd::utf8::encode_utf8_decode_utf8(chars.take(k));
            vstd::utf8::encode_utf8_decode_utf8(after@);
            vstd::utf8::encode_utf8_decode_utf8(chars.skip(k));
        }
        let left = paint_dimmed(before);
        let right = paint_dimmed(after);
        let with_left = join(head.as_str(), left.as_str());
        let with_bar = join(with_left.as_str(), bar.as_str());
        Some(join(with_bar.as_str(), right.as_str()))
    } else {
        None
    }
}

/// Appends the listed lines (see `listing`).
pub fn push_listing(out: &mut Vec<String>, lines: &Vec<String>, flags: &Vec<bool>, count0: usize, limit: usize)
    requires
        lines.len() == flags.len(),
    ensures
        texts(final(out)@) == texts(old(out)@) + listing(texts(lines@), flags@, count0 as int, limit as int),
{
    let ghost start = texts(out@);
    let ghost total = listing(texts(lines@), flags@, count0 as int, limit as int);
    let mut count = count0;
    let mut i: usize = 0;
    assert(texts(lines@).skip(0) =~= texts(lines@));
    assert(flags@.skip(0) =~= flags@);
    assert(texts(out@) =~= start + Seq::<Seq<char>>::empty());
    while i < lines.len()
        invariant
            lines.len() == flags.len(),
            i <= lines.len(),
            total == listing(texts(lines@), flags@, count0 as int, limit as int),
            start == texts(old(out)@),
            texts(out@) + listing(texts(lines@).skip(i as int), flags@.skip(i as int), count as int, limit as int)
                == start + total,
        decreases lines.len() - i,
    {
        let ghost rest_lines = texts(lines@).skip(i as int);
        let ghost rest_flags = flags@.skip(i as int);
        assert(rest_lines.drop_first() =~= texts(lines@).skip(i + 1));
        assert(rest_flags.drop_first() =~= flags@.skip(i + 1));
        assert(rest_lines[0] == lines@[i as int]@);
        assert(rest_flags[0] == flags@[i as int]);
        assert(rest_lines.len() > 0 && rest_flags.len() > 0);
        if flags[i] {
            if count >= limit {
                let ghost before = texts(out@);
                out.push(join(" - ", paint_dimmed("...").as_str()));
                assert(texts(out@) =~= before + seq![ellipsis_line()]);
                assert(listing(rest_lines, rest_flags, count as int, limit as int) == seq![ellipsis_line()]);
                return;
            }
            let ghost before = texts(out@);
            out.push(lines[i].clone());
            assert(texts(out@) =~= before + seq![lines@[i as int]@]);
            count = count + 1;
        }
        i = i + 1;
    }
    assert(texts(lines@).skip(i as int) =~= Seq::<Seq<char>>::empty());
    assert(texts(out@) =~= start + total);
}

/// The line of a tab or session name (see `name_line`).
pub fn name_line_text(name: &str, highlighted: bool) -> (r: String)
    ensures
        r@ == name_line(name@, highlighted),
{
    let styled = if highlighted {
        paint_bold(paint_blue(name).as_str())
    } else {
        paint_dimmed(name)
    };
    join(" - ", styled.as_str())
}

/// The line of a pane (see `pane_line`).
pub fn pane_line_text(p: &FlatPane, highlighted: bool) -> (r: String)
    ensures
        r@ == pane_line(*p, highlighted),
{
    let title = if highlighted {
        paint_bold(paint_blue(p.title.as_str()).as_str())
    } else {
        paint_dimmed(p.title.as_str())
    };
    let bracketed = join(join("[", p.tab_name.as_str()).as_str(), "]");
    let tab = paint_dimmed(bracketed.as_str());
    let first = join(" - ", title.as_str());
    let second = join(first.as_str(), " ");
    let r = join(second.as_str(), tab.as_str());
    assert(r@ =~= pane_line(*p, highlighted));
    r
}

/// A label, bold white, then a value (see `labelled`).
pub fn labelled_text(label: &str, value: &str) -> (r: String)
    ensures
        r@ == labelled(label@, value@),
{
    let l = color_bold(WHITE, label);
    join(join(l.as_str(), " ").as_str(), value)
}

/// The name of the first tab at `position`, or `Unknown`.
pub fn tab_label_text(tabs: &Vec<TabSummary>, position: usize) -> (r: String)
    ensures
        r@ == tab_label(tabs@, position),
{
    let mut i: usize = 0;
    assert(tabs@.skip(0) =~= tabs@);
    while i < tabs.len()
        invariant
            i <= tabs.len(),
            tab_label(tabs@, position) == tab_label(tabs@.skip(i as int), position),
        decreases tabs.len() - i,
    {
        assert(tabs@.skip(i as int).drop_first() =~= tabs@.skip(i + 1));
        if tabs[i].position == position {
            return tabs[i].name.clone();
        }
        i = i + 1;
    }
    assert(tabs@.skip(i as int) =~= Seq::<TabSummary>::empty());
    String::from_str("Unknown")
}

} // verus!

verus! {

/// Appends `line`.
fn push_line(out: &mut Vec<String>, line: String)
    ensures
        texts(final(out)@) == texts(old(out)@).push(line@),
{
    let ghost before = texts(out@);
    out.push(line);
    assert(texts(out@) =~= before.push(line@));
}

/// The footer lines (see `footer`).
pub fn footer_lines(s: &State) -> (r: Vec<String>)
    ensures
        texts(r@) == footer(*s),
{
    let mut r: Vec<String> = Vec::new();
    push_line(&mut r, String::new());
    let none = paint_dimmed("No matches found");
    match s.current_view {
        Selector::Tab => {
            match s.tab_match {
                Some(m) => {
                    if m < s.tab_infos.len() {
                        let name = paint_bold(paint_blue(s.tab_infos[m].name.as_str()).as_str());
                        push_line(&mut r, labelled_text("Selected Tab ->", name.as_str()));
                    }
                },
                None => {
                    push_line(&mut r, labelled_text("Selected Tab ->", none.as_str()));
                },
            }
        },
        Selector::Pane => {
            if !s.pane_title_match.as_str().is_empty() {
                let title = paint_bold(paint_blue(s.pane_title_match.as_str()).as_str());
                push_line(&mut r, labelled_text("Selected Pane ->", title.as_str()));
            } else {
                push_line(&mut r, labelled_text("Selected Pane ->", none.as_str()));
            }
            if let Some(p) = s.pane_tab_position {
                let label = tab_label_text(&s.tab_infos, p);
                let name = paint_bold(paint_blue(label.as_str()).as_str());
                push_line(&mut r, labelled_text("In Tab ->", name.as_str()));
            }
        },
        Selector::Session => {
            match &s.session_match {
                Some(n) => {
                    let name = paint_bold(paint_blue(n.as_str()).as_str());
                    push_line(&mut r, labelled_text("Selected Session ->", name.as_str()));
                },
                None => {
                    push_line(&mut r, labelled_text("Selected Session ->", none.as_str()));
                },
            }
        },
    }
    assert(texts(r@) =~= footer(*s));
    r
}

/// The list section (see `list_section`).
pub fn list_section_lines(s: &State, rows: usize) -> (r: Vec<String>)
    ensures
        texts(r@) == list_section(*s, rows),
{
    let limit: usize = if rows >= 4 { rows - 4 } else { usize::MAX - (3 - rows) };
    assert(limit as int == row_limit(rows));
    let mut r: Vec<String> = Vec::new();
    match s.current_view {
        Selector::Tab => {
            push_line(&mut r, String::from_str("Tabs: "));
            let mut lines: Vec<String> = Vec::new();
            let mut i: usize = 0;
            while i < s.tab_infos.len()
                invariant
                    i <= s.tab_infos.len(),
                    texts(lines@) =~= tab_lines(*s).take(i as int),
                decreases s.tab_infos.len() - i,
            {
                let ghost before = texts(lines@);
                lines.push(name_line_text(s.tab_infos[i].name.as_str(), i == s.result_index));
                assert(texts(lines@) =~= before.push(tab_lines(*s)[i as int]));
                i = i + 1;
            }
            assert(texts(lines@) =~= tab_lines(*s));
            let flags = s.tab_match_flags();
            push_listing(&mut r, &lines, &flags, 7, limit);
            assert(texts(r@) =~= seq!["Tabs: "@] + listing(tab_lines(*s), s.tab_flags(), 7, row_limit(rows)));
        },
        Selector::Pane => {
            push_line(&mut r, String::from_str("Panes (all tabs): "));
            let mut lines: Vec<String> = Vec::new();
            let mut i: usize = 0;
            while i < s.all_panes.len()
                invariant
                    i <= s.all_panes.len(),
                    texts(lines@) =~= pane_lines(*s).take(i as int),
                decreases s.all_panes.len() - i,
            {
                let ghost before = texts(lines@);
                lines.push(pane_line_text(&s.all_panes[i], i == s.result_index));
                assert(texts(lines@) =~= before.push(pane_lines(*s)[i as int]));
                i = i + 1;
            }
            assert(texts(lines@) =~= pane_lines(*s));
            let flags = s.pane_match_flags();
            push_listing(&mut r, &lines, &flags, 6, limit);
            assert(texts(r@) =~= seq!["Panes (all tabs): "@] + listing(pane_lines(*s), s.pane_flags(), 6, row_limit(rows)));
        },
        Selector::Session => {
            push_line(&mut r, String::from_str("Sessions: "));
            let mut lines: Vec<String> = Vec::new();
            let mut i: usize = 0;
            while i < s.sessions.len()
                invariant
                    i <= s.sessions.len(),
                    texts(lines@) =~= session_lines(*s).take(i as int),
                decreases s.sessions.len() - i,
            {
                let ghost before = texts(lines@);
                lines.push(name_line_text(s.sessions[i].as_str(), i == s.result_index));
                assert(texts(lines@) =~= before.push(session_lines(*s)[i as int]));
                i = i + 1;
            }
            assert(texts(lines@) =~= session_lines(*s));
            let flags = s.session_match_flags();
            push_listing(&mut r, &lines, &flags, 6, limit);
            assert(texts(r@) =~= seq!["Sessions: "@] + listing(session_lines(*s), s.session_flags(), 6, row_limit(rows)));
        },
    }
    let foot = footer_lines(s);
    let ghost before = texts(r@);
    let mut j: usize = 0;
    while j < foot.len()
        invariant
            j <= foot.len(),
            texts(r@) =~= before + texts(foot@).take(j as int),
        decreases foot.len() - j,
    {
        push_line(&mut r, foot[j].clone());
        j = j + 1;
    }
    assert(texts(foot@).take(foot.len() as int) =~= texts(foot@));
    assert(texts(r@) =~= list_section(*s, rows));
    r
}

/// The debugging lines (see `debug_lines`).
pub fn debug_line_texts(s: &State) -> (r: Vec<String>)
    requires
        utf8_len(s.input@) <= usize::MAX,
    ensures
        texts(r@) == debug_lines(*s),
{
    let mut r: Vec<String> = Vec::new();
    push_line(&mut r, join("input: ", s.input.as_str()));
    push_line(&mut r, join("Cursor: ", usize_to_decimal(s.input_cursor_index).as_str()));
    push_line(&mut r, join("len: ", usize_to_decimal(s.input.as_str().len()).as_str()));
    let tab_match = match s.tab_match {
        Some(m) => m,
        None => 42,
    };
    push_line(&mut r, join("tab match: ", usize_to_decimal(tab_match).as_str()));
    let pane_match = match s.pane_match {
        Some(m) => m,
        None => 42,
    };
    push_line(&mut r, join("pane match: ", u32_to_decimal(pane_match).as_str()));
    push_line(&mut r, join("focussed tab : ", usize_to_decimal(s.focus_tab_pos).as_str()));
    push_line(&mut r, join("result_index: ", usize_to_decimal(s.result_index).as_str()));
    let heading = color_bold(GREEN, "Runtime configuration:");
    push_line(&mut r, join(join(heading.as_str(), " ").as_str(), s.configuration_dump.as_str()));
    assert(texts(r@) =~= debug_lines(*s));
    r
}

impl State {
    /// Every line of the screen below the ribbons, for a pane of `rows`
    /// rows (see `screen`). The input's length fits in `usize`, as that of
    /// every string does.
    pub fn render_lines(&self, rows: usize) -> (r: Vec<String>)
        requires
            utf8_len(self.input@) <= usize::MAX,
            prompt_ok(*self),
        ensures
            texts(r@) == screen(*self, rows),
    {
        let mut r: Vec<String> = Vec::new();
        push_line(&mut r, String::new());
        push_line(&mut r, String::new());
        if let Some(line) = prompt_line_text(self) {
            push_line(&mut r, line);
        }
        let ghost head = texts(r@);
        let mut rest = list_section_lines(self, rows);
        let debug = match &self.debug_setting {
            Some(v) => same_text(v.as_str(), "true"),
            None => false,
        };
        if debug {
            let extra = debug_line_texts(self);
            let mut j: usize = 0;
            let ghost section = texts(rest@);
            while j < extra.len()
                invariant
                    j <= extra.len(),
                    texts(rest@) =~= section + texts(extra@).take(j as int),
                decreases extra.len() - j,
            {
                push_line(&mut rest, extra[j].clone());
                j = j + 1;
            }
            assert(texts(extra@).take(extra.len() as int) =~= texts(extra@));
        }
        let mut k: usize = 0;
        while k < rest.len()
            invariant
                k <= rest.len(),
                texts(r@) =~= head + texts(rest@).take(k as int),
            decreases rest.len() - k,
        {
            push_line(&mut r, rest[k].clone());
            k = k + 1;
        }
        assert(texts(rest@).take(rest.len() as int) =~= texts(rest@));
        assert(texts(r@) =~= screen(*self, rows));
        r
    }
}

} // verus!

verus! {

impl State {
    /// Whether the prompt can be drawn (see `prompt_ok`).
    pub fn can_render(&self) -> (r: bool)
        requires
            utf8_len(self.input@) <= usize::MAX,
        ensures
            r == prompt_ok(*self),
    {
        let s = self.input.as_str();
        !(!s.is_empty() && self.input_cursor_index < s.len()) || s.is_char_boundary(self.input_cursor_index)
    }
}

} // verus!
