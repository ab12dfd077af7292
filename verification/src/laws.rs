//! Properties that relate several operations of the finder.

use vstd::prelude::*;

use crate::matching::{chars_available, enhanced_score, subsequence_ignoring_case};
use crate::model::{Key, Selector};
use crate::model::FlatPane;
use crate::navigation::{
    beats, best_index, down_target, first_best, lemma_next_match, lemma_prev_match, next_match, no_positive, on_match,
    prev_match, up_target,
};
use crate::render::{name_line, pane_line};
use crate::state::{
    State, input_inserted, input_removed, is_match_spec, key_handled, researched,
};
use crate::style::dimmed_text;
use crate::text::{
    ascii_lowered, char_index_at, lemma_boundary_is_offset, lemma_offset_is_boundary, lemma_utf8_len_insert, lowercase,
    utf8_len,
};
use vstd::utf8::is_ascii_chars;

verus! {

/// Moving up right after moving down comes back to where the selection
/// started, when it started on a listed entry.
pub proof fn lemma_up_undoes_down(ms: Seq<bool>, cur: int)
    requires
        on_match(ms, cur),
    ensures
        down_target(ms, cur) matches Some(j) && up_target(ms, j) == Some(cur),
{
    lemma_next_match(ms, cur + 1);
    lemma_next_match(ms, 0);
    if next_match(ms, cur + 1) is Some {
        let j = next_match(ms, cur + 1)->0;
        lemma_prev_match(ms, j);
        let i = prev_match(ms, j)->0;
        assert(i == cur);
    } else {
        let f = next_match(ms, 0)->0;
        lemma_prev_match(ms, f);
        lemma_prev_match(ms, ms.len() as int);
        let i = prev_match(ms, ms.len() as int)->0;
        assert(i == cur);
    }
}

/// Moving down right after moving up comes back to where the selection
/// started, when it started on a listed entry.
pub proof fn lemma_down_undoes_up(ms: Seq<bool>, cur: int)
    requires
        on_match(ms, cur),
    ensures
        up_target(ms, cur) matches Some(j) && down_target(ms, j) == Some(cur),
{
    lemma_prev_match(ms, cur);
    lemma_prev_match(ms, ms.len() as int);
    if prev_match(ms, cur) is Some {
        let j = prev_match(ms, cur)->0;
        lemma_next_match(ms, j + 1);
        let i = next_match(ms, j + 1)->0;
        assert(i == cur);
    } else {
        let l = prev_match(ms, ms.len() as int)->0;
        lemma_next_match(ms, l + 1);
        lemma_next_match(ms, 0);
        let i = next_match(ms, 0)->0;
        assert(i == cur);
    }
}

/// Moving lands on a listed entry whenever any entry is listed, and nowhere
/// otherwise.
pub proof fn lemma_moves_land_on_listed(ms: Seq<bool>, cur: int)
    ensures
        down_target(ms, cur) matches Some(i) ==> on_match(ms, i),
        up_target(ms, cur) matches Some(i) ==> on_match(ms, i),
        down_target(ms, cur) is None <==> (forall|j: int| 0 <= j < ms.len() ==> !ms[j]),
        up_target(ms, cur) is None <==> (forall|j: int| 0 <= j < ms.len() ==> !ms[j]),
{
    lemma_next_match(ms, 0);
    lemma_prev_match(ms, ms.len() as int);
    if cur + 1 >= 0 {
        lemma_next_match(ms, cur + 1);
    }
    if 0 <= cur <= ms.len() {
        lemma_prev_match(ms, cur);
    }
    if down_target(ms, cur) is None {
        assert forall|j: int| 0 <= j < ms.len() implies !ms[j] by {}
    }
    if up_target(ms, cur) is None {
        assert forall|j: int| 0 <= j < ms.len() implies !ms[j] by {}
    }
}

/// Moving down from the last listed entry wraps around to the first listed
/// entry, and moving up from the first wraps around to the last.
pub proof fn lemma_moves_wrap_around(ms: Seq<bool>, cur: int)
    requires
        on_match(ms, cur),
    ensures
        (forall|j: int| cur < j < ms.len() ==> !ms[j]) ==> down_target(ms, cur) == next_match(ms, 0),
        (forall|j: int| 0 <= j < cur ==> !ms[j]) ==> up_target(ms, cur) == prev_match(ms, ms.len() as int),
{
    lemma_next_match(ms, cur + 1);
    lemma_prev_match(ms, cur);
}

} // verus!

verus! {

/// Which entries of the shown list are listed.
pub open spec fn view_flags(s: State) -> Seq<bool> {
    match s.current_view {
        Selector::Tab => s.tab_flags(),
        Selector::Pane => s.pane_flags(),
        Selector::Session => s.session_flags(),
    }
}

/// The entry at `i` of the shown list is the selected one.
pub open spec fn selected_at(s: State, i: int) -> bool {
    match s.current_view {
        Selector::Tab => s.tab_match == Some(i as usize),
        Selector::Pane => s.pane_selected(i),
        Selector::Session => s.session_match == Some(s.sessions@[i]),
    }
}

/// Pressing Down and then Up brings the highlight back to the listed entry
/// it started on, and selects it, in every list.
pub proof fn law_down_then_up_returns(o: State, m: State, n: State, c1: Seq<crate::model::Command>, c2: Seq<crate::model::Command>)
    requires
        key_handled(o, Key::Down, m, c1),
        key_handled(m, Key::Up, n, c2),
        on_match(view_flags(o), o.result_index as int),
    ensures
        n.current_view == o.current_view,
        n.result_index == o.result_index,
        selected_at(n, o.result_index as int),
        c1.len() == 0 && c2.len() == 0,
{
    lemma_up_undoes_down(view_flags(o), o.result_index as int);
    assert(m.tab_names() =~= o.tab_names());
    assert(m.pane_titles() =~= o.pane_titles());
    assert(m.session_names() =~= o.session_names());
}

/// Pressing Up and then Down brings the highlight back to the listed entry
/// it started on, and selects it, in every list.
pub proof fn law_up_then_down_returns(o: State, m: State, n: State, c1: Seq<crate::model::Command>, c2: Seq<crate::model::Command>)
    requires
        key_handled(o, Key::Up, m, c1),
        key_handled(m, Key::Down, n, c2),
        on_match(view_flags(o), o.result_index as int),
    ensures
        n.current_view == o.current_view,
        n.result_index == o.result_index,
        selected_at(n, o.result_index as int),
        c1.len() == 0 && c2.len() == 0,
{
    lemma_down_undoes_up(view_flags(o), o.result_index as int);
    assert(m.tab_names() =~= o.tab_names());
    assert(m.pane_titles() =~= o.pane_titles());
    assert(m.session_names() =~= o.session_names());
}

/// After Down or Up the highlight is on a listed entry, and that entry is
/// selected, whenever the shown list has a listed entry.
pub proof fn law_moves_stay_on_listed(o: State, key: Key, n: State, c: Seq<crate::model::Command>)
    requires
        key is Down || key is Up,
        key_handled(o, key, n, c),
        exists|j: int| on_match(view_flags(o), j),
    ensures
        on_match(view_flags(n), n.result_index as int),
        selected_at(n, n.result_index as int),
{
    lemma_moves_land_on_listed(view_flags(o), o.result_index as int);
    assert(n.tab_names() =~= o.tab_names());
    assert(n.pane_titles() =~= o.pane_titles());
    assert(n.session_names() =~= o.session_names());
}

/// Pressing Tab three times comes back to the list it started from, with an
/// empty search input.
pub proof fn law_tab_key_cycles(o: State, a: State, b: State, n: State, c1: Seq<crate::model::Command>,
    c2: Seq<crate::model::Command>, c3: Seq<crate::model::Command>)
    requires
        key_handled(o, Key::Tab, a, c1),
        key_handled(a, Key::Tab, b, c2),
        key_handled(b, Key::Tab, n, c3),
    ensures
        n.current_view == o.current_view,
        a.current_view != o.current_view,
        b.current_view != o.current_view,
        n.input@.len() == 0,
        n.input_cursor_index == 0,
        n.tab_match == o.tab_match,
        o.current_view != Selector::Pane ==> (o.tab_match matches Some(i) ==> n.result_index == i),
        o.current_view == Selector::Pane ==> n.result_index == 0,
{
}

/// With an empty search input every name is listed.
pub proof fn law_empty_input_lists_everything(name: Seq<char>)
    ensures
        is_match_spec(Seq::empty(), name),
        enhanced_score(name, Seq::empty()) is Some,
{
}

/// A query matches exactly when it is a case-insensitive subsequence of the
/// name, or when it is non-empty and its lower-cased characters are all
/// found, as a bag, among the name's lower-cased characters; a match found
/// only the second way scores 1.
pub proof fn law_what_matches(name: Seq<char>, query: Seq<char>)
    ensures
        enhanced_score(name, query) is Some <==> subsequence_ignoring_case(name, query)
            || (query.len() > 0 && chars_available(crate::text::lowercase(name), crate::text::lowercase(query))),
        !subsequence_ignoring_case(name, query) && enhanced_score(name, query) is Some
            ==> enhanced_score(name, query) == Some(1i64),
{
}

/// Whether the characters of a query are available in a candidate does not
/// depend on their order.
pub proof fn law_order_of_query_irrelevant(candidate: Seq<char>, q1: Seq<char>, q2: Seq<char>)
    requires
        q1.to_multiset() == q2.to_multiset(),
    ensures
        chars_available(candidate, q1) == chars_available(candidate, q2),
{
}

} // verus!

verus! {

/// Typing a character and then pressing Backspace gives back the search
/// input and cursor from before, wherever the cursor stood.
pub proof fn law_backspace_undoes_typing(
    o: State,
    c: char,
    ctrl: bool,
    m: State,
    n: State,
    c1: Seq<crate::model::Command>,
    c2: Seq<crate::model::Command>,
)
    requires
        o.wf(),
        !(ctrl && c == 'c'),
        key_handled(o, Key::Char { ch: c, ctrl }, m, c1),
        key_handled(m, Key::Backspace, n, c2),
    ensures
        n.input@ == o.input@,
        n.input_cursor_index == o.input_cursor_index,
{
    let s = o.input@;
    let b = o.input_cursor_index as int;
    let (m0, typed) = choose|m0: State, typed: bool|
        input_inserted(o, m0, c, typed) && if typed { crate::state::researched(m0, m) } else { m == m0 };
    assert(m.input == m0.input && m.input_cursor_index == m0.input_cursor_index);
    let (n0, removed) = choose|n0: State, removed: bool|
        input_removed(m, n0, removed) && if removed { crate::state::researched(n0, n) } else { n == n0 };
    assert(n.input == n0.input && n.input_cursor_index == n0.input_cursor_index);
    vstd::utf8::encode_utf8_valid_utf8(s);
    lemma_boundary_is_offset(s, b);
    let k = char_index_at(s, b);
    assert(k == crate::state::cursor_char(o));
    let t = s.insert(k, c);
    if s.len() == 0 {
        assert(s.insert(0, c) =~= s.push(c));
    }
    assert(m.input@ == t);
    assert(m.input_cursor_index == b + vstd::utf8::encode_scalar(c as u32).len());
    assert(t.take(k) =~= s.take(k));
    assert(t[k] == c);
    crate::text::lemma_offset_step(t, k);
    lemma_offset_is_boundary(t, k + 1);
    lemma_utf8_len_insert(s, k, c);
    assert(crate::state::cursor_char(m) == k + 1);
    assert(t.remove(k) =~= s);
}

} // verus!

verus! {

/// The cross-tab pane list does not depend on the order in which the host
/// lists the tabs' pane groups: two manifests with the same groups, one per
/// tab position, give the same list.
pub proof fn law_pane_list_ignores_manifest_order(o1: State, n1: State, o2: State, n2: State)
    requires
        crate::panes::distinct_positions(o1.pane_manifest@),
        crate::panes::distinct_positions(o2.pane_manifest@),
        forall|g: crate::model::PaneGroup| o1.pane_manifest@.contains(g) <==> o2.pane_manifest@.contains(g),
        o1.tab_infos == o2.tab_infos,
        crate::state::panes_rebuilt(o1, n1),
        crate::state::panes_rebuilt(o2, n2),
    ensures
        crate::model::flat_views(n1.all_panes@) == crate::model::flat_views(n2.all_panes@),
{
    let g1 = o1.pane_manifest@;
    let g2 = o2.pane_manifest@;
    let tabs = o1.tab_infos@;
    assert forall|t: usize| #[trigger] crate::panes::at_position(crate::model::flat_views(n1.all_panes@), t)
        == crate::panes::at_position(crate::model::flat_views(n2.all_panes@), t) by {
        crate::panes::lemma_manifest_at_position(g1, tabs, t);
        crate::panes::lemma_manifest_at_position(g2, tabs, t);
        if exists|i: int| 0 <= i < g1.len() && g1[i].tab_position == t {
            let i = choose|i: int| 0 <= i < g1.len() && g1[i].tab_position == t;
            assert(g1.contains(g1[i]));
            let j = choose|j: int| 0 <= j < g2.len() && g2[j] == g1[i];
            assert(g2[j].tab_position == t);
            let k = choose|k: int| 0 <= k < g2.len() && g2[k].tab_position == t;
            assert(k == j) by {
                if k < j {
                    assert(g2[k].tab_position != g2[j].tab_position);
                } else if j < k {
                    assert(g2[j].tab_position != g2[k].tab_position);
                }
            }
        } else {
            if exists|j: int| 0 <= j < g2.len() && g2[j].tab_position == t {
                let j = choose|j: int| 0 <= j < g2.len() && g2[j].tab_position == t;
                assert(g2.contains(g2[j]));
                let i = choose|i: int| 0 <= i < g1.len() && g1[i] == g2[j];
                assert(g1[i].tab_position == t);
            }
        }
    }
    crate::panes::lemma_sorted_same_positions_equal(
        crate::model::flat_views(n1.all_panes@),
        crate::model::flat_views(n2.all_panes@),
    );
}

} // verus!

verus! {

/// Whether a query is a subsequence of a name, ignoring case, does not
/// change when letters of the query change ASCII case.
pub proof fn law_subsequence_ignores_case(name: Seq<char>, q1: Seq<char>, q2: Seq<char>)
    requires
        q1.len() == q2.len(),
        forall|i: int| 0 <= i < q1.len() ==> crate::matching::same_ignoring_ascii_case(#[trigger] q1[i], q2[i]),
    ensures
        subsequence_ignoring_case(name, q1) == subsequence_ignoring_case(name, q2),
    decreases name.len(),
{
    if q1.len() > 0 && name.len() > 0 {
        assert forall|i: int| 0 <= i < q1.drop_first().len() implies
            crate::matching::same_ignoring_ascii_case(#[trigger] q1.drop_first()[i], q2.drop_first()[i]) by {
            assert(crate::matching::same_ignoring_ascii_case(q1[i + 1], q2[i + 1]));
        }
        assert(crate::matching::same_ignoring_ascii_case(q1[0], q2[0]));
        law_subsequence_ignores_case(name.drop_first(), q1.drop_first(), q2.drop_first());
        law_subsequence_ignores_case(name.drop_first(), q1, q2);
    }
}

} // verus!

verus! {

/// An ASCII string takes one byte per character.
proof fn lemma_ascii_utf8_len(s: Seq<char>)
    requires
        is_ascii_chars(s),
    ensures
        utf8_len(s) == s.len(),
{
    vstd::utf8::is_ascii_chars_encode_utf8(s);
}

/// Every prefix of an ASCII string is ASCII.
proof fn lemma_ascii_take(s: Seq<char>, k: int)
    requires
        is_ascii_chars(s),
        0 <= k <= s.len(),
    ensures
        is_ascii_chars(s.take(k)),
{
    assert forall|i: int| 0 <= i < s.take(k).len() implies '\0' <= #[trigger] s.take(k)[i] <= '\u{7f}' by {
        assert(s.take(k)[i] == s[i]);
    }
}

/// With an ASCII search input every byte offset up to its end is a char
/// boundary, so an ASCII input with the cursor anywhere inside it, or at its
/// end, is a well-formed state.
pub proof fn law_ascii_input_is_wf(s: State)
    requires
        is_ascii_chars(s.input@),
        s.input_cursor_index <= s.input@.len(),
        s.input@.len() <= isize::MAX,
    ensures
        s.wf(),
{
    let b = s.input_cursor_index as int;
    lemma_ascii_take(s.input@, b);
    lemma_ascii_utf8_len(s.input@.take(b));
    lemma_ascii_utf8_len(s.input@);
    lemma_offset_is_boundary(s.input@, b);
}

/// Every key keeps an ASCII search input ASCII when any typed character is
/// ASCII, and keeps the cursor within the input.
pub proof fn law_ascii_keys_keep_ascii(o: State, key: Key, n: State, commands: Seq<crate::model::Command>)
    requires
        o.wf(),
        is_ascii_chars(o.input@),
        key matches Key::Char { ch, .. } ==> ch <= '\u{7f}',
        key_handled(o, key, n, commands),
    ensures
        is_ascii_chars(n.input@),
        n.input_cursor_index <= n.input@.len(),
{
    let s = o.input@;
    let b = o.input_cursor_index as int;
    vstd::utf8::encode_utf8_valid_utf8(s);
    lemma_boundary_is_offset(s, b);
    lemma_ascii_utf8_len(s);
    let k = char_index_at(s, b);
    assert(k == crate::state::cursor_char(o));
    match key {
        Key::Left | Key::Right => {
            if 0 < k {
                lemma_offset_is_boundary(s, k - 1);
            }
            if k < s.len() {
                lemma_offset_is_boundary(s, k + 1);
            }
        },
        Key::Backspace => {
            let (m, changed) = choose|m: State, changed: bool|
                input_removed(o, m, changed) && if changed { crate::state::researched(m, n) } else { n == m };
            assert(n.input == m.input && n.input_cursor_index == m.input_cursor_index);
            if s.len() > 0 && 0 < b {
                assert(s.take(0) =~= Seq::<char>::empty());
                assert(k > 0);
                let r = s.remove(k - 1);
                assert forall|i: int| 0 <= i < r.len() implies '\0' <= #[trigger] r[i] <= '\u{7f}' by {
                    if i < k - 1 {
                        assert(r[i] == s[i]);
                    } else {
                        assert(r[i] == s[i + 1]);
                    }
                }
                lemma_ascii_take(s, k - 1);
                lemma_ascii_utf8_len(s.take(k - 1));
            } else if s.len() > 0 {
                let r = s.remove(0);
                assert forall|i: int| 0 <= i < r.len() implies '\0' <= #[trigger] r[i] <= '\u{7f}' by {
                    assert(r[i] == s[i + 1]);
                }
            }
        },
        Key::Char { ch, ctrl } => {
            if !(ctrl && ch == 'c') {
                let (m, changed) = choose|m: State, changed: bool|
                    input_inserted(o, m, ch, changed) && if changed { crate::state::researched(m, n) } else { n == m };
                assert(n.input == m.input && n.input_cursor_index == m.input_cursor_index);
                if s.len() == 0 {
                    assert(s.insert(0, ch) =~= s.push(ch));
                }
                let t = s.insert(k, ch);
                assert(m.input@ == t);
                assert forall|i: int| 0 <= i < t.len() implies '\0' <= #[trigger] t[i] <= '\u{7f}' by {
                    if i < k {
                        assert(t[i] == s[i]);
                    } else if i > k {
                        assert(t[i] == s[i - 1]);
                    }
                }
                lemma_utf8_len_insert(s, k, ch);
                lemma_ascii_utf8_len(t);
            }
        },
        _ => {},
    }
}

/// For ASCII names and queries, matching ignores letter case and the order
/// of the query's characters. A non-empty query is listed exactly when its
/// characters, lower-cased, are all found, as a bag, among the name's
/// lower-cased characters; so a query rearranged, with letters changed in
/// case, is listed for the same names. (`str::to_lowercase` gives the ASCII
/// lowering of every ASCII string, see `str_to_lowercase`.)
pub proof fn law_ascii_match_ignores_case_and_order(name: Seq<char>, q1: Seq<char>, q2: Seq<char>)
    requires
        is_ascii_chars(name),
        is_ascii_chars(q1),
        is_ascii_chars(q2),
        q1.len() > 0,
        ascii_lowered(q1).to_multiset() == ascii_lowered(q2).to_multiset(),
    ensures
        chars_available(ascii_lowered(name), ascii_lowered(q1)) == chars_available(ascii_lowered(name), ascii_lowered(q2)),
        lowercase(name) == ascii_lowered(name) && lowercase(q1) == ascii_lowered(q1) ==> (
            enhanced_score(name, q1) is Some <==> chars_available(ascii_lowered(name), ascii_lowered(q1))),
        lowercase(name) == ascii_lowered(name) && lowercase(q1) == ascii_lowered(q1)
            && lowercase(q2) == ascii_lowered(q2) ==> (
            enhanced_score(name, q1) is Some <==> enhanced_score(name, q2) is Some),
{
    vstd::seq_lib::to_multiset_len(ascii_lowered(q1));
    vstd::seq_lib::to_multiset_len(ascii_lowered(q2));
    assert(q2.len() > 0);
    if subsequence_ignoring_case(name, q1) {
        crate::matching::lemma_subsequence_passes_bag(name, q1);
    }
    if subsequence_ignoring_case(name, q2) {
        crate::matching::lemma_subsequence_passes_bag(name, q2);
    }
}

} // verus!

verus! {

/// When some score is positive, some index holds the first best one.
proof fn lemma_first_best_exists(scores: Seq<Option<i64>>)
    requires
        !no_positive(scores),
    ensures
        exists|i: int| first_best(scores, i),
    decreases scores.len(),
{
    let last = scores.len() - 1;
    let prefix = scores.drop_last();
    assert forall|j: int| 0 <= j < prefix.len() implies prefix[j] == scores[j] by {}
    if no_positive(prefix) {
        assert(beats(scores[last], 0)) by {
            let j = choose|j: int| 0 <= j < scores.len() && beats(#[trigger] scores[j], 0);
            if j < last {
                assert(prefix[j] == scores[j]);
            }
        }
        let t = scores[last]->0;
        assert forall|j: int| 0 <= j < last implies !beats(#[trigger] scores[j], t - 1) by {
            assert(!beats(prefix[j], 0));
        }
        assert(first_best(scores, last));
    } else {
        lemma_first_best_exists(prefix);
        let i = choose|i: int| first_best(prefix, i);
        let s = prefix[i]->0;
        assert forall|j: int| 0 <= j < last implies !beats(#[trigger] scores[j], s as int) by {
            assert(prefix[j] == scores[j]);
            if j < i {
                assert(!beats(prefix[j], s - 1));
            } else if j > i {
                assert(!beats(prefix[j], s as int));
            }
        }
        if beats(scores[last], s as int) {
            let t = scores[last]->0;
            assert forall|j: int| 0 <= j < last implies !beats(#[trigger] scores[j], t - 1) by {
                assert(!beats(scores[j], s as int));
            }
            assert(first_best(scores, last));
        } else {
            assert forall|j: int| 0 <= j < i implies !beats(#[trigger] scores[j], s - 1) by {
                assert(prefix[j] == scores[j]);
            }
            assert forall|j: int| i < j < scores.len() implies !beats(#[trigger] scores[j], s as int) by {
                if j < last {
                    assert(prefix[j] == scores[j]);
                }
            }
            assert(first_best(scores, i));
        }
    }
}

/// The best score that a search picks is a maximum: no score is higher, and
/// every earlier score is lower; when no score is positive, none is picked.
pub proof fn law_best_index_is_a_maximum(scores: Seq<Option<i64>>)
    ensures
        best_index(scores) matches Some(i) ==> {
            &&& 0 <= i < scores.len()
            &&& scores[i] matches Some(s) && s > 0 && {
                &&& forall|j: int| 0 <= j < scores.len() ==> (#[trigger] scores[j] matches Some(t) ==> t <= s)
                &&& forall|j: int| 0 <= j < i ==> (#[trigger] scores[j] matches Some(t) ==> t < s)
            }
        },
        best_index(scores) is None <==> forall|j: int| 0 <= j < scores.len() ==> (#[trigger] scores[j] matches Some(t) ==> t <= 0),
{
    if !no_positive(scores) {
        lemma_first_best_exists(scores);
        let i = choose|i: int| first_best(scores, i);
        let s = scores[i]->0;
        assert forall|j: int| 0 <= j < scores.len() implies (#[trigger] scores[j] matches Some(t) ==> t <= s) by {
            if j < i {
                assert(!beats(scores[j], s - 1));
            } else if j > i {
                assert(!beats(scores[j], s as int));
            }
        }
        assert forall|j: int| 0 <= j < i implies (#[trigger] scores[j] matches Some(t) ==> t < s) by {
            assert(!beats(scores[j], s - 1));
        }
        let j = choose|j: int| 0 <= j < scores.len() && beats(#[trigger] scores[j], 0);
        assert(scores[j] matches Some(t) && !(t <= 0));
    } else {
        assert forall|j: int| 0 <= j < scores.len() implies (#[trigger] scores[j] matches Some(t) ==> t <= 0) by {
            assert(!beats(scores[j], 0));
        }
    }
}

/// Searching the shown list as the user types selects and highlights an
/// entry whose score no other entry beats, and that entry is listed; when no
/// entry scores above zero, the tab search falls back to the focused tab and
/// the pane and session searches select nothing.
pub proof fn law_search_selects_a_best_listed_entry(m: State, n: State)
    requires
        researched(m, n),
    ensures
        m.current_view == Selector::Tab ==> match best_index(m.tab_scores()) {
            Some(i) => {
                &&& n.tab_match == Some(i as usize) && n.result_index == i
                &&& m.tab_scores()[i] matches Some(s) && forall|j: int| 0 <= j < m.tab_infos@.len()
                    ==> (#[trigger] m.tab_scores()[j] matches Some(t) ==> t <= s)
                &&& n.tab_flags()[i]
            },
            None => n.tab_match == Some(m.focus_tab_pos) && n.result_index == m.focus_tab_pos,
        },
        m.current_view == Selector::Pane ==> match best_index(m.pane_scores()) {
            Some(i) => {
                &&& n.pane_match == Some(m.all_panes@[i].pane_id) && n.result_index == i
                &&& m.pane_scores()[i] matches Some(s) && forall|j: int| 0 <= j < m.all_panes@.len()
                    ==> (#[trigger] m.pane_scores()[j] matches Some(t) ==> t <= s)
                &&& n.pane_flags()[i]
            },
            None => n.pane_match is None,
        },
        m.current_view == Selector::Session ==> match best_index(m.session_scores()) {
            Some(i) => {
                &&& n.session_match == Some(m.sessions@[i]) && n.result_index == i
                &&& m.session_scores()[i] matches Some(s) && forall|j: int| 0 <= j < m.sessions@.len()
                    ==> (#[trigger] m.session_scores()[j] matches Some(t) ==> t <= s)
                &&& n.session_flags()[i]
            },
            None => n.session_match is None,
        },
{
    law_best_index_is_a_maximum(m.tab_scores());
    law_best_index_is_a_maximum(m.pane_scores());
    law_best_index_is_a_maximum(m.session_scores());
    assert(n.tab_names() =~= m.tab_names());
    assert(n.pane_titles() =~= m.pane_titles());
    assert(n.session_names() =~= m.session_names());
}

/// An entry is listed exactly when the search input is empty or the enhanced
/// matcher gives it a score, whatever the score (a bag-of-characters match,
/// scored 1, is listed too).
pub proof fn law_listed_iff_scored(s: State, i: int)
    ensures
        0 <= i < s.tab_infos@.len() ==> (s.tab_flags()[i] <==> (s.input@.len() == 0 || s.tab_scores()[i] is Some)),
        0 <= i < s.all_panes@.len() ==> (s.pane_flags()[i] <==> (s.input@.len() == 0 || s.pane_scores()[i] is Some)),
        0 <= i < s.sessions@.len() ==> (s.session_flags()[i] <==> (s.input@.len() == 0 || s.session_scores()[i] is Some)),
        s.input@.len() > 0 && 0 <= i < s.tab_infos@.len() && !subsequence_ignoring_case(s.tab_names()[i], s.input@)
            && chars_available(lowercase(s.tab_names()[i]), lowercase(s.input@)) ==> s.tab_flags()[i],
{
}

/// The line of a pane is the line its title would have as a name, then the
/// name of its tab in brackets; so two panes with the same title in tabs of
/// different names are drawn differently.
pub proof fn law_pane_line_names_its_tab(p: FlatPane, q: FlatPane, highlighted: bool)
    ensures
        pane_line(p, highlighted) == name_line(p.title@, highlighted) + " "@ + dimmed_text("["@ + p.tab_name@ + "]"@),
        p.title@ == q.title@ && pane_line(p, highlighted) == pane_line(q, highlighted) ==> p.tab_name@ == q.tab_name@,
{
    assert(pane_line(p, highlighted) =~= name_line(p.title@, highlighted) + " "@ + dimmed_text("["@ + p.tab_name@ + "]"@));
    if p.title@ == q.title@ && pane_line(p, highlighted) == pane_line(q, highlighted) {
        let a = name_line(p.title@, highlighted) + " "@ + "\x1b[2m"@ + "["@;
        let b = "]"@ + "\x1b[0m"@;
        assert(pane_line(p, highlighted) =~= a + p.tab_name@ + b);
        assert(pane_line(q, highlighted) =~= a + q.tab_name@ + b);
        let l = a + p.tab_name@ + b;
        assert(p.tab_name@ =~= l.subrange(a.len() as int, (a.len() + p.tab_name@.len()) as int));
        assert(q.tab_name@ =~= l.subrange(a.len() as int, (a.len() + q.tab_name@.len()) as int));
    }
}

/// Switching with the Tab key to the tab or session list highlights the
/// selected tab, when one is selected, and keeps it selected.
pub proof fn law_switching_highlights_selected_tab(o: State, n: State, c: Seq<crate::model::Command>, i: usize)
    requires
        key_handled(o, Key::Tab, n, c),
        n.current_view != Selector::Pane,
        o.tab_match == Some(i),
    ensures
        n.result_index == i,
        n.tab_match == Some(i),
{
}

/// In the tab list PageUp highlights the top entry, whatever the search
/// input, and selects the top tab when it is listed; the input is kept. In
/// the other lists PageUp changes nothing.
pub proof fn law_page_up_goes_to_top(o: State, n: State, c: Seq<crate::model::Command>)
    requires
        key_handled(o, Key::PageUp, n, c),
    ensures
        c.len() == 0,
        o.current_view == Selector::Tab ==> {
            &&& n.result_index == 0
            &&& n.input == o.input
            &&& (o.tab_infos@.len() > 0 && is_match_spec(o.input@, o.tab_infos@[0].name@) ==> n.tab_match == Some(0usize))
            &&& (o.tab_infos@.len() > 0 && !is_match_spec(o.input@, o.tab_infos@[0].name@) ==> n.tab_match == o.tab_match)
        },
        o.current_view != Selector::Tab ==> n == o,
{
}

} // verus!
