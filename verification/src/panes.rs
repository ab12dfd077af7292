//! The cross-tab pane list: every non-plugin pane of every tab, labelled with
//! its tab's name and ordered by tab position.

use vstd::prelude::*;
use crate::model::{FlatPane, FlatPaneView, PaneGroup, PaneSummary, TabSummary, flat_views};
use crate::text::{decimal, usize_to_decimal};

verus! {

/// The name shown for the tab at `position`: the name of the first tab at
/// that position, or `Tab <position>` when no tab is known there.
pub open spec fn tab_name_for(tabs: Seq<TabSummary>, position: usize) -> Seq<char>
    decreases tabs.len(),
{
    if tabs.len() == 0 {
        "Tab "@ + decimal(position as nat)
    } else if tabs[0].position == position {
        tabs[0].name@
    } else {
        tab_name_for(tabs.drop_first(), position)
    }
}

/// The list entries of one pane group, in the group's order: its non-plugin
/// panes, each labelled with `tab_name`.
pub open spec fn group_entries(panes: Seq<PaneSummary>, position: usize, tab_name: Seq<char>) -> Seq<FlatPaneView>
    decreases panes.len(),
{
    if panes.len() == 0 {
        Seq::empty()
    } else {
        let rest = group_entries(panes.drop_last(), position, tab_name);
        let p = panes.last();
        if p.is_plugin {
            rest
        } else {
            rest.push(FlatPaneView { pane_id: p.id, title: p.title@, tab_position: position, tab_name })
        }
    }
}

/// The entries of all groups, group after group in the order given.
pub open spec fn manifest_entries(groups: Seq<PaneGroup>, tabs: Seq<TabSummary>) -> Seq<FlatPaneView>
    decreases groups.len(),
{
    if groups.len() == 0 {
        Seq::empty()
    } else {
        let g = groups.last();
        manifest_entries(groups.drop_last(), tabs)
            + group_entries(g.panes@, g.tab_position, tab_name_for(tabs, g.tab_position))
    }
}

/// The entries of `s` whose tab position is `t`, in order.
pub open spec fn at_position(s: Seq<FlatPaneView>, t: usize) -> Seq<FlatPaneView>
    decreases s.len(),
{
    if s.len() == 0 {
        Seq::empty()
    } else if s.last().tab_position == t {
        at_position(s.drop_last(), t).push(s.last())
    } else {
        at_position(s.drop_last(), t)
    }
}

/// Entries are in non-decreasing order of tab position.
pub open spec fn sorted_by_position(s: Seq<FlatPaneView>) -> bool {
    forall|i: int, j: int| 0 <= i < j < s.len() ==> s[i].tab_position <= s[j].tab_position
}

/// `out` is `input` sorted stably by tab position: sorted, and for every
/// position it holds exactly the entries of `input` at that position, in
/// their original order.
pub open spec fn stable_sort_of(out: Seq<FlatPaneView>, input: Seq<FlatPaneView>) -> bool {
    &&& sorted_by_position(out)
    &&& forall|t: usize| #[trigger] at_position(out, t) == at_position(input, t)
}

/// Finds the name of the tab at `position` (see `tab_name_for`).
pub fn find_tab_name(tabs: &Vec<TabSummary>, position: usize) -> (r: String)
    ensures
        r@ == tab_name_for(tabs@, position),
{
    let mut i: usize = 0;
    assert(tabs@.skip(0) =~= tabs@);
    while i < tabs.len()
        invariant
            i <= tabs.len(),
            tab_name_for(tabs@, position) == tab_name_for(tabs@.skip(i as int), position),
        decreases tabs.len() - i,
    {
        assert(tabs@.skip(i as int).drop_first() =~= tabs@.skip(i + 1));
        if tabs[i].position == position {
            return tabs[i].name.clone();
        }
        i = i + 1;
    }
    assert(tabs@.skip(i as int) =~= Seq::<TabSummary>::empty());
    let mut name = String::from_str("Tab ");
    let digits = usize_to_decimal(position);
    name.append(digits.as_str());
    name
}

} // verus!

verus! {

/// Collects the list entries of all groups, group after group.
pub fn flatten_manifest(groups: &Vec<PaneGroup>, tabs: &Vec<TabSummary>) -> (r: Vec<FlatPane>)
    ensures
        flat_views(r@) == manifest_entries(groups@, tabs@),
{
    let mut flat: Vec<FlatPane> = Vec::new();
    let mut gi: usize = 0;
    assert(groups@.take(0) =~= Seq::<PaneGroup>::empty());
    assert(flat_views(flat@) =~= Seq::<FlatPaneView>::empty());
    while gi < groups.len()
        invariant
            gi <= groups.len(),
            flat_views(flat@) == manifest_entries(groups@.take(gi as int), tabs@),
        decreases groups.len() - gi,
    {
        let group = &groups[gi];
        let tab_position = group.tab_position;
        let tab_name = find_tab_name(tabs, tab_position);
        let ghost before = flat_views(flat@);
        let mut pi: usize = 0;
        assert(group.panes@.take(0) =~= Seq::<PaneSummary>::empty());
        assert(before =~= before + group_entries(group.panes@.take(0), tab_position, tab_name@));
        while pi < group.panes.len()
            invariant
                pi <= group.panes.len(),
                flat_views(flat@) == before + group_entries(group.panes@.take(pi as int), tab_position, tab_name@),
            decreases group.panes.len() - pi,
        {
            let pane = &group.panes[pi];
            assert(group.panes@.take(pi + 1).drop_last() =~= group.panes@.take(pi as int));
            assert(group.panes@.take(pi + 1).last() == group.panes@[pi as int]);
            if !pane.is_plugin {
                let entry = FlatPane {
                    pane_id: pane.id,
                    title: pane.title.clone(),
                    tab_position,
                    tab_name: tab_name.clone(),
                };
                let ghost old_flat = flat@;
                flat.push(entry);
                assert(flat_views(flat@) =~= flat_views(old_flat).push(entry@));
            }
            pi = pi + 1;
        }
        assert(group.panes@.take(group.panes.len() as int) =~= group.panes@);
        assert(groups@.take(gi + 1).drop_last() =~= groups@.take(gi as int));
        assert(groups@.take(gi + 1).last() == groups@[gi as int]);
        gi = gi + 1;
    }
    assert(groups@.take(groups.len() as int) =~= groups@);
    flat
}

/// Inserting an entry at another position leaves the entries at `t` alone.
pub proof fn lemma_at_position_insert_other(s: Seq<FlatPaneView>, k: int, x: FlatPaneView, t: usize)
    requires
        0 <= k <= s.len(),
        x.tab_position != t,
    ensures
        at_position(s.insert(k, x), t) == at_position(s, t),
    decreases s.len(),
{
    let u = s.insert(k, x);
    if k == s.len() {
        assert(u.drop_last() =~= s);
    } else {
        assert(u.drop_last() =~= s.drop_last().insert(k, x));
        assert(u.last() == s.last());
        lemma_at_position_insert_other(s.drop_last(), k, x, t);
    }
}

/// Inserting an entry at position `t` after every other entry at `t` appends
/// it to the entries at `t`.
pub proof fn lemma_at_position_insert_same(s: Seq<FlatPaneView>, k: int, x: FlatPaneView, t: usize)
    requires
        0 <= k <= s.len(),
        x.tab_position == t,
        forall|j: int| k <= j < s.len() ==> s[j].tab_position != t,
    ensures
        at_position(s.insert(k, x), t) == at_position(s, t).push(x),
    decreases s.len(),
{
    let u = s.insert(k, x);
    if k == s.len() {
        assert(u.drop_last() =~= s);
    } else {
        assert(u.drop_last() =~= s.drop_last().insert(k, x));
        assert(u.last() == s.last());
        lemma_at_position_insert_same(s.drop_last(), k, x, t);
    }
}

/// Sorts the entries by tab position, keeping entries at the same position in
/// their original order (`sort_by_key` is a stable sort).
pub fn sort_by_tab_position(input: Vec<FlatPane>) -> (out: Vec<FlatPane>)
    ensures
        stable_sort_of(flat_views(out@), flat_views(input@)),
{
    let ghost orig = input@;
    let mut rest = input;
    let mut out: Vec<FlatPane> = Vec::new();
    let ghost mut i: int = 0;
    assert(orig.skip(0) =~= orig);
    assert forall|t: usize| #[trigger] at_position(flat_views(out@), t) == at_position(flat_views(orig).take(0), t) by {
        assert(flat_views(out@) =~= Seq::<FlatPaneView>::empty());
        assert(flat_views(orig).take(0) =~= Seq::<FlatPaneView>::empty());
    }
    while rest.len() > 0
        invariant
            0 <= i <= orig.len(),
            rest@ == orig.skip(i),
            sorted_by_position(flat_views(out@)),
            forall|t: usize| #[trigger] at_position(flat_views(out@), t) == at_position(flat_views(orig).take(i), t),
        decreases rest.len(),
    {
        let x = rest.remove(0);
        assert(x == orig[i]);
        let ghost o = flat_views(out@);
        let mut k: usize = 0;
        while k < out.len() && out[k].tab_position <= x.tab_position
            invariant
                k <= out.len(),
                o == flat_views(out@),
                forall|j: int| 0 <= j < k ==> o[j].tab_position <= x.tab_position,
            decreases out.len() - k,
        {
            k = k + 1;
        }
        proof {
            assert forall|j: int| k <= j < o.len() implies o[j].tab_position > x.tab_position by {
                assert(o[k as int].tab_position > x.tab_position);
            }
        }
        let ghost xv = x@;
        out.insert(k, x);
        assert(flat_views(out@) =~= o.insert(k as int, xv));
        let ghost f = flat_views(orig);
        assert(f.take(i + 1).drop_last() =~= f.take(i));
        assert(f.take(i + 1).last() == xv);
        assert forall|t: usize| #[trigger] at_position(flat_views(out@), t) == at_position(f.take(i + 1), t) by {
            if t == xv.tab_position {
                lemma_at_position_insert_same(o, k as int, xv, t);
            } else {
                lemma_at_position_insert_other(o, k as int, xv, t);
            }
        }
        proof {
            i = i + 1;
        }
        assert(rest@ =~= orig.skip(i));
    }
    assert(flat_views(orig).take(i) =~= flat_views(orig));
    out
}

} // verus!

verus! {

/// The entries at `t` of a concatenation are those of each part.
pub proof fn lemma_at_position_concat(a: Seq<FlatPaneView>, b: Seq<FlatPaneView>, t: usize)
    ensures
        at_position(a + b, t) == at_position(a, t) + at_position(b, t),
    decreases b.len(),
{
    if b.len() == 0 {
        assert(a + b =~= a);
        assert(at_position(a, t) + at_position(b, t) =~= at_position(a, t));
    } else {
        assert((a + b).drop_last() =~= a + b.drop_last());
        assert((a + b).last() == b.last());
        lemma_at_position_concat(a, b.drop_last(), t);
        if b.last().tab_position == t {
            assert(at_position(a, t) + at_position(b.drop_last(), t).push(b.last())
                =~= (at_position(a, t) + at_position(b.drop_last(), t)).push(b.last()));
        }
    }
}

/// There are entries at `t` exactly when some entry is at `t`.
pub proof fn lemma_at_position_nonempty(s: Seq<FlatPaneView>, t: usize)
    ensures
        at_position(s, t).len() > 0 <==> exists|i: int| 0 <= i < s.len() && s[i].tab_position == t,
    decreases s.len(),
{
    if s.len() > 0 {
        lemma_at_position_nonempty(s.drop_last(), t);
        if exists|i: int| 0 <= i < s.len() && s[i].tab_position == t {
            let i = choose|i: int| 0 <= i < s.len() && s[i].tab_position == t;
            if i < s.len() - 1 {
                assert(s.drop_last()[i].tab_position == t);
            }
        }
        if exists|i: int| 0 <= i < s.drop_last().len() && s.drop_last()[i].tab_position == t {
            let i = choose|i: int| 0 <= i < s.drop_last().len() && s.drop_last()[i].tab_position == t;
            assert(s[i].tab_position == t);
        }
    }
}

/// The entries at `t` of a sequence all at `t` are all of it; of a sequence
/// with none at `t`, none.
pub proof fn lemma_at_position_uniform(s: Seq<FlatPaneView>, t: usize)
    ensures
        (forall|i: int| 0 <= i < s.len() ==> s[i].tab_position == t) ==> at_position(s, t) == s,
        (forall|i: int| 0 <= i < s.len() ==> s[i].tab_position != t) ==> at_position(s, t) == Seq::<FlatPaneView>::empty(),
    decreases s.len(),
{
    if s.len() > 0 {
        lemma_at_position_uniform(s.drop_last(), t);
        assert(s.drop_last().push(s.last()) =~= s);
    }
}

/// A stable sort is unique: two sorted sequences with the same entries at
/// every position are equal.
pub proof fn lemma_sorted_same_positions_equal(a: Seq<FlatPaneView>, b: Seq<FlatPaneView>)
    requires
        sorted_by_position(a),
        sorted_by_position(b),
        forall|t: usize| #[trigger] at_position(a, t) == at_position(b, t),
    ensures
        a == b,
    decreases a.len() + b.len(),
{
    if a.len() == 0 {
        if b.len() > 0 {
            let t = b[0].tab_position;
            lemma_at_position_nonempty(b, t);
            lemma_at_position_nonempty(a, t);
            assert(at_position(a, t) == at_position(b, t));
        }
        assert(a =~= b);
    } else {
        let t = a.last().tab_position;
        lemma_at_position_nonempty(a, t);
        lemma_at_position_nonempty(b, t);
        assert(at_position(a, t) == at_position(b, t));
        assert(at_position(a, t).len() > 0);
        let u = b.last().tab_position;
        lemma_at_position_nonempty(a, u);
        lemma_at_position_nonempty(b, u);
        assert(at_position(a, u) == at_position(b, u));
        let i = choose|i: int| 0 <= i < a.len() && a[i].tab_position == u;
        let j = choose|j: int| 0 <= j < b.len() && b[j].tab_position == t;
        assert(a[i].tab_position <= a[a.len() - 1].tab_position);
        assert(b[j].tab_position <= b[b.len() - 1].tab_position);
        assert(u == t);
        assert(a.last() == at_position(a, t).last());
        assert(b.last() == at_position(b, t).last());
        assert forall|x: usize| #[trigger] at_position(a.drop_last(), x) == at_position(b.drop_last(), x) by {
            assert(at_position(a, x) == at_position(b, x));
            if x == t {
                assert(at_position(a.drop_last(), x) =~= at_position(a, x).drop_last());
                assert(at_position(b.drop_last(), x) =~= at_position(b, x).drop_last());
            }
        }
        lemma_sorted_same_positions_equal(a.drop_last(), b.drop_last());
        assert(a =~= a.drop_last().push(a.last()));
        assert(b =~= b.drop_last().push(b.last()));
    }
}

/// Every entry of a group sits at the group's position.
pub proof fn lemma_group_entries_position(panes: Seq<PaneSummary>, position: usize, tab_name: Seq<char>)
    ensures
        forall|i: int| 0 <= i < group_entries(panes, position, tab_name).len()
            ==> #[trigger] group_entries(panes, position, tab_name)[i].tab_position == position,
    decreases panes.len(),
{
    if panes.len() > 0 {
        lemma_group_entries_position(panes.drop_last(), position, tab_name);
        let rest = group_entries(panes.drop_last(), position, tab_name);
        let all = group_entries(panes, position, tab_name);
        assert forall|i: int| 0 <= i < all.len() implies #[trigger] all[i].tab_position == position by {
            if i < rest.len() {
                assert(all[i] == rest[i]);
            }
        }
    }
}

/// No two groups are for the same tab position (as in the host's manifest,
/// which maps each tab position to its panes).
pub open spec fn distinct_positions(groups: Seq<PaneGroup>) -> bool {
    forall|i: int, j: int| 0 <= i < j < groups.len() ==> groups[i].tab_position != groups[j].tab_position
}

/// The entries of all groups at position `t` are the entries of the group for
/// `t`, or none when no group is for `t`.
pub proof fn lemma_manifest_at_position(groups: Seq<PaneGroup>, tabs: Seq<TabSummary>, t: usize)
    requires
        distinct_positions(groups),
    ensures
        at_position(manifest_entries(groups, tabs), t) == (if exists|i: int| 0 <= i < groups.len() && groups[i].tab_position == t {
            let i = choose|i: int| 0 <= i < groups.len() && groups[i].tab_position == t;
            group_entries(groups[i].panes@, t, tab_name_for(tabs, t))
        } else {
            Seq::<FlatPaneView>::empty()
        }),
    decreases groups.len(),
{
    if groups.len() > 0 {
        let init = groups.drop_last();
        let g = groups.last();
        lemma_manifest_at_position(init, tabs, t);
        let ge = group_entries(g.panes@, g.tab_position, tab_name_for(tabs, g.tab_position));
        lemma_at_position_concat(manifest_entries(init, tabs), ge, t);
        lemma_group_entries_position(g.panes@, g.tab_position, tab_name_for(tabs, g.tab_position));
        lemma_at_position_uniform(ge, t);
        if g.tab_position == t {
            assert(!exists|i: int| 0 <= i < init.len() && init[i].tab_position == t) by {
                if exists|i: int| 0 <= i < init.len() && init[i].tab_position == t {
                    let i = choose|i: int| 0 <= i < init.len() && init[i].tab_position == t;
                    assert(groups[i].tab_position != groups[groups.len() - 1].tab_position);
                }
            }
            let k = choose|i: int| 0 <= i < groups.len() && groups[i].tab_position == t;
            assert(k == groups.len() - 1) by {
                if k < groups.len() - 1 {
                    assert(groups[k].tab_position != groups[groups.len() - 1].tab_position);
                }
            }
            assert(at_position(manifest_entries(init, tabs), t) + ge =~= ge);
        } else {
            if exists|i: int| 0 <= i < groups.len() && groups[i].tab_position == t {
                let i = choose|i: int| 0 <= i < groups.len() && groups[i].tab_position == t;
                assert(init[i].tab_position == t);
            }
            if exists|i: int| 0 <= i < init.len() && init[i].tab_position == t {
                let i = choose|i: int| 0 <= i < init.len() && init[i].tab_position == t;
                assert(groups[i].tab_position == t);
                let k = choose|i: int| 0 <= i < groups.len() && groups[i].tab_position == t;
                assert(k == i) by {
                    if k != i {
                        if k < i {
                            assert(groups[k].tab_position != groups[i].tab_position);
                        } else {
                            assert(groups[i].tab_position != groups[k].tab_position);
                        }
                    }
                }
            }
            assert(at_position(manifest_entries(init, tabs), t) + Seq::<FlatPaneView>::empty()
                =~= at_position(manifest_entries(init, tabs), t));
        }
    }
}

} // verus!
