//! The layout of the Extensions menu: the registered menu actions grouped
//! by menu group, the groups in ascending order of name, and each group's
//! actions in ascending order of display name (actions with equal names
//! in registration order). Names are ordered as `str`'s `Ord` orders them:
//! character by character, by code point, a proper prefix first.
use vstd::prelude::*;

use crate::action_registry::{menu_entry_view, MenuActionDef};
use crate::text::{chars_of, string_of};

verus! {

// ---------------------------------------------------------------------------
// The order of names
// ---------------------------------------------------------------------------

/// Whether `a` comes before `b`, comparing from position `i` on.
pub open spec fn lt_from(a: Seq<char>, b: Seq<char>, i: int) -> bool
    decreases a.len() - i,
{
    if i < 0 {
        false
    } else if i >= a.len() {
        i < b.len()
    } else if i >= b.len() {
        false
    } else if a[i] != b[i] {
        (a[i] as int) < (b[i] as int)
    } else {
        lt_from(a, b, i + 1)
    }
}

/// Whether the name `a` comes before the name `b`.
pub open spec fn name_lt(a: Seq<char>, b: Seq<char>) -> bool {
    lt_from(a, b, 0)
}

proof fn lemma_lt_from_irrefl(a: Seq<char>, i: int)
    requires
        0 <= i,
    ensures
        !lt_from(a, a, i),
    decreases a.len() - i,
{
    if i < a.len() {
        lemma_lt_from_irrefl(a, i + 1);
    }
}

proof fn lemma_lt_from_asym(a: Seq<char>, b: Seq<char>, i: int)
    requires
        0 <= i,
    ensures
        lt_from(a, b, i) ==> !lt_from(b, a, i),
    decreases a.len() - i,
{
    if i < a.len() && i < b.len() && a[i] == b[i] {
        lemma_lt_from_asym(a, b, i + 1);
    }
}

proof fn lemma_lt_from_total(a: Seq<char>, b: Seq<char>, i: int)
    requires
        0 <= i,
        i <= a.len() && i <= b.len(),
        a.take(i) == b.take(i),
        a != b,
    ensures
        lt_from(a, b, i) || lt_from(b, a, i),
    decreases a.len() - i,
{
    if i < a.len() && i < b.len() && a[i] == b[i] {
        assert(a.take(i + 1) =~= a.take(i).push(a[i]));
        assert(b.take(i + 1) =~= b.take(i).push(b[i]));
        lemma_lt_from_total(a, b, i + 1);
    } else if i == a.len() && i == b.len() {
        assert(a =~= a.take(i));
        assert(b =~= b.take(i));
    } else if i < a.len() && i < b.len() {
        assert((a[i] as int) != (b[i] as int));
    }
}

proof fn lemma_lt_from_trans(a: Seq<char>, b: Seq<char>, c: Seq<char>, i: int)
    requires
        0 <= i,
        lt_from(a, b, i),
        lt_from(b, c, i),
    ensures
        lt_from(a, c, i),
    decreases a.len() - i,
{
    if i < a.len() && i < b.len() && i < c.len() && a[i] == b[i] && b[i] == c[i] {
        lemma_lt_from_trans(a, b, c, i + 1);
    }
}

/// The order of names is a strict total order.
pub proof fn lemma_name_order(a: Seq<char>, b: Seq<char>, c: Seq<char>)
    ensures
        !name_lt(a, a),
        name_lt(a, b) ==> !name_lt(b, a),
        a != b ==> name_lt(a, b) || name_lt(b, a),
        name_lt(a, b) && name_lt(b, c) ==> name_lt(a, c),
{
    lemma_lt_from_irrefl(a, 0);
    lemma_lt_from_asym(a, b, 0);
    if a != b {
        assert(a.take(0) =~= b.take(0));
        lemma_lt_from_total(a, b, 0);
    }
    if name_lt(a, b) && name_lt(b, c) {
        lemma_lt_from_trans(a, b, c, 0);
    }
}

/// Whether the name `a` comes before the name `b`.
pub fn name_less(a: &str, b: &str) -> (r: bool)
    ensures
        r == name_lt(a@, b@),
{
    let av = chars_of(a);
    let bv = chars_of(b);
    let mut i: usize = 0;
    while i < av.len() && i < bv.len()
        invariant
            i <= av@.len(),
            i <= bv@.len(),
            av@ == a@,
            bv@ == b@,
            lt_from(a@, b@, 0) == lt_from(a@, b@, i as int),
        decreases av@.len() - i,
    {
        if av[i] != bv[i] {
            return av[i] < bv[i];
        }
        i = i + 1;
    }
    i < bv.len() && i >= av.len()
}

// ---------------------------------------------------------------------------
// Groups
// ---------------------------------------------------------------------------

/// Whether names are in strictly ascending order.
pub open spec fn strictly_ascending(s: Seq<Seq<char>>) -> bool {
    forall|i: int, j: int| 0 <= i < j < s.len() ==> name_lt(s[i], s[j])
}

/// The characters of each string.
pub open spec fn names_view(v: Seq<String>) -> Seq<Seq<char>> {
    v.map_values(|s: String| s@)
}

/// Whether some menu entry belongs to group `g`.
pub open spec fn has_group(menu: Seq<(Seq<char>, Seq<char>, Seq<char>)>, g: Seq<char>) -> bool {
    exists|j: int| 0 <= j < menu.len() && #[trigger] menu[j].2 == g
}

fn insert_group(groups: &mut Vec<String>, g: &str)
    requires
        strictly_ascending(names_view(old(groups)@)),
    ensures
        strictly_ascending(names_view(final(groups)@)),
        forall|x: Seq<char>| #[trigger] names_view(final(groups)@).contains(x) <==> (names_view(old(groups)@).contains(x) || x == g@),
{
    let ghost gv = names_view(groups@);
    let mut p: usize = 0;
    while p < groups.len() && name_less(groups[p].as_str(), g)
        invariant
            p <= groups@.len(),
            gv == names_view(groups@),
            forall|k: int| 0 <= k < p ==> name_lt(#[trigger] gv[k], g@),
        decreases groups@.len() - p,
    {
        p = p + 1;
    }
    if p < groups.len() && crate::strmap::str_eq(groups[p].as_str(), g) {
        assert(gv[p as int] == g@);
        return;
    }
    proof {
        if p < gv.len() {
            lemma_name_order(gv[p as int], g@, g@);
            assert(!name_lt(gv[p as int], g@));
            assert(gv[p as int] != g@);
            lemma_name_order(g@, gv[p as int], g@);
            assert(name_lt(g@, gv[p as int]));
        }
    }
    let s = string_of(&chars_of(g));
    groups.insert(p, s);
    proof {
        let nv = names_view(groups@);
        assert(nv =~= gv.insert(p as int, g@));
        assert forall|i: int, j: int| 0 <= i < j < nv.len() implies name_lt(nv[i], nv[j]) by {
            if j < p {
                assert(nv[i] == gv[i] && nv[j] == gv[j]);
            } else if j == p {
                assert(nv[i] == gv[i]);
            } else if i == p {
                assert(nv[j] == gv[j - 1]);
                if j - 1 > p {
                    lemma_name_order(g@, gv[p as int], gv[j - 1]);
                }
            } else if i < p {
                assert(nv[i] == gv[i] && nv[j] == gv[j - 1]);
            } else {
                assert(nv[i] == gv[i - 1] && nv[j] == gv[j - 1]);
            }
        }
        assert forall|x: Seq<char>| #[trigger] nv.contains(x) <==> (gv.contains(x) || x == g@) by {
            if nv.contains(x) {
                let k = choose|k: int| 0 <= k < nv.len() && nv[k] == x;
                if k < p {
                    assert(gv[k] == x);
                } else if k > p {
                    assert(gv[k - 1] == x);
                }
            }
            if gv.contains(x) {
                let k = choose|k: int| 0 <= k < gv.len() && gv[k] == x;
                if k < p {
                    assert(nv[k] == x);
                } else {
                    assert(nv[k + 1] == x);
                }
            }
            if x == g@ {
                assert(nv[p as int] == x);
            }
        }
    }
}

/// The menu groups that have actions, in ascending order of name, each once.
pub fn menu_groups(menu: &[MenuActionDef]) -> (r: Vec<String>)
    ensures
        strictly_ascending(names_view(r@)),
        forall|g: Seq<char>| #[trigger] names_view(r@).contains(g) <==> has_group(
            menu@.map_values(|d: MenuActionDef| menu_entry_view(d)),
            g,
        ),
{
    let ghost mv = menu@.map_values(|d: MenuActionDef| menu_entry_view(d));
    let mut groups: Vec<String> = Vec::new();
    let mut i: usize = 0;
    while i < menu.len()
        invariant
            i <= menu@.len(),
            mv == menu@.map_values(|d: MenuActionDef| menu_entry_view(d)),
            strictly_ascending(names_view(groups@)),
            forall|g: Seq<char>| #[trigger] names_view(groups@).contains(g) <==> exists|j: int| 0 <= j < i && #[trigger] mv[j].2 == g,
        decreases menu@.len() - i,
    {
        assert(mv[i as int].2 == menu@[i as int].group@);
        insert_group(&mut groups, menu[i].group.as_str());
        proof {
            assert forall|g: Seq<char>| #[trigger] names_view(groups@).contains(g) <==> exists|j: int| 0 <= j < i + 1 && #[trigger] mv[j].2 == g by {
                if g == mv[i as int].2 {
                    assert(exists|j: int| 0 <= j < i + 1 && #[trigger] mv[j].2 == g);
                }
                if exists|j: int| 0 <= j < i + 1 && #[trigger] mv[j].2 == g {
                    let j = choose|j: int| 0 <= j < i + 1 && #[trigger] mv[j].2 == g;
                    if j < i {
                        assert(exists|j2: int| 0 <= j2 < i && #[trigger] mv[j2].2 == g);
                    }
                }
            }
        }
        i = i + 1;
    }
    proof {
        assert forall|g: Seq<char>| #[trigger] names_view(groups@).contains(g) <==> has_group(mv, g) by {
            if has_group(mv, g) {
                let j = choose|j: int| 0 <= j < mv.len() && #[trigger] mv[j].2 == g;
                assert(exists|j2: int| 0 <= j2 < i && #[trigger] mv[j2].2 == g);
            }
        }
    }
    groups
}

// ---------------------------------------------------------------------------
// Actions of a group
// ---------------------------------------------------------------------------

/// Insert entry `e` into `sorted` after every entry whose display name does
/// not come after its own (so equal names keep their order).
pub open spec fn insert_by_name(
    sorted: Seq<(Seq<char>, Seq<char>, Seq<char>)>,
    e: (Seq<char>, Seq<char>, Seq<char>),
) -> Seq<(Seq<char>, Seq<char>, Seq<char>)>
    decreases sorted.len(),
{
    if sorted.len() == 0 {
        seq![e]
    } else if !name_lt(e.1, sorted.last().1) {
        sorted.push(e)
    } else {
        insert_by_name(sorted.drop_last(), e).push(sorted.last())
    }
}

/// The entries of group `g`, in registration order, stably sorted by display name.
pub open spec fn group_actions_spec(
    menu: Seq<(Seq<char>, Seq<char>, Seq<char>)>,
    g: Seq<char>,
) -> Seq<(Seq<char>, Seq<char>, Seq<char>)>
    decreases menu.len(),
{
    if menu.len() == 0 {
        Seq::empty()
    } else {
        let rest = group_actions_spec(menu.drop_last(), g);
        if menu.last().2 == g {
            insert_by_name(rest, menu.last())
        } else {
            rest
        }
    }
}

/// Whether entries are in ascending order of display name (no entry's
/// name comes before that of an entry ahead of it).
pub open spec fn sorted_by_name(s: Seq<(Seq<char>, Seq<char>, Seq<char>)>) -> bool {
    forall|i: int, j: int| 0 <= i < j < s.len() ==> !name_lt(s[j].1, s[i].1)
}

proof fn lemma_insert_by_name(s: Seq<(Seq<char>, Seq<char>, Seq<char>)>, e: (Seq<char>, Seq<char>, Seq<char>))
    requires
        sorted_by_name(s),
    ensures
        sorted_by_name(insert_by_name(s, e)),
        insert_by_name(s, e).len() == s.len() + 1,
        forall|i: int| 0 <= i < insert_by_name(s, e).len() ==> #[trigger] insert_by_name(s, e)[i] == e
            || s.contains(insert_by_name(s, e)[i]),
    decreases s.len(),
{
    if s.len() == 0 {
        return;
    }
    let l = s.last();
    if !name_lt(e.1, l.1) {
        let r = insert_by_name(s, e);
        assert(r == s.push(e));
        assert forall|i: int, j: int| 0 <= i < j < r.len() implies !name_lt(r[j].1, r[i].1) by {
            if j == s.len() {
                lemma_name_order(e.1, r[i].1, l.1);
                lemma_name_order(r[i].1, l.1, e.1);
                if i < s.len() - 1 {
                    assert(!name_lt(l.1, r[i].1));
                    lemma_name_order(l.1, r[i].1, e.1);
                    lemma_name_order(e.1, l.1, r[i].1);
                    if name_lt(e.1, r[i].1) {
                        // r[i] <= l <= e, so not e < r[i]
                        if l.1 != r[i].1 {
                            lemma_name_order(r[i].1, l.1, l.1);
                            assert(name_lt(r[i].1, l.1));
                            lemma_name_order(e.1, r[i].1, l.1);
                        }
                    }
                }
            } else {
                assert(r[i] == s[i] && r[j] == s[j]);
            }
        }
        assert forall|i: int| 0 <= i < r.len() implies #[trigger] r[i] == e || s.contains(r[i]) by {
            if i < s.len() {
                assert(r[i] == s[i]);
            }
        }
    } else {
        let d = s.drop_last();
        assert forall|i: int, j: int| 0 <= i < j < d.len() implies !name_lt(d[j].1, d[i].1) by {
            assert(d[i] == s[i] && d[j] == s[j]);
        }
        lemma_insert_by_name(d, e);
        let t = insert_by_name(d, e);
        let r = insert_by_name(s, e);
        assert(r == t.push(l));
        assert forall|i: int| 0 <= i < t.len() implies !name_lt(l.1, #[trigger] t[i].1) by {
            if t[i] == e {
                lemma_name_order(e.1, l.1, l.1);
            } else {
                let k = choose|k: int| 0 <= k < d.len() && d[k] == t[i];
                assert(d[k] == s[k]);
            }
        }
        assert forall|i: int, j: int| 0 <= i < j < r.len() implies !name_lt(r[j].1, r[i].1) by {
            if j < t.len() {
                assert(r[i] == t[i] && r[j] == t[j]);
            } else {
                assert(r[j] == l && r[i] == t[i]);
            }
        }
        assert forall|i: int| 0 <= i < r.len() implies #[trigger] r[i] == e || s.contains(r[i]) by {
            if i < t.len() {
                assert(r[i] == t[i]);
                if t[i] != e {
                    let k = choose|k: int| 0 <= k < d.len() && d[k] == t[i];
                    assert(s[k] == d[k]);
                }
            } else {
                assert(r[i] == s[s.len() - 1]);
            }
        }
    }
}

/// Each submenu lists only actions of its own group, in ascending order of
/// display name.
pub proof fn lemma_group_actions_sorted(menu: Seq<(Seq<char>, Seq<char>, Seq<char>)>, g: Seq<char>)
    ensures
        sorted_by_name(group_actions_spec(menu, g)),
        forall|i: int| 0 <= i < group_actions_spec(menu, g).len() ==> (#[trigger] group_actions_spec(menu, g)[i]).2 == g,
    decreases menu.len(),
{
    if menu.len() > 0 {
        lemma_group_actions_sorted(menu.drop_last(), g);
        let rest = group_actions_spec(menu.drop_last(), g);
        if menu.last().2 == g {
            lemma_insert_by_name(rest, menu.last());
            let r = group_actions_spec(menu, g);
            assert forall|i: int| 0 <= i < r.len() implies (#[trigger] r[i]).2 == g by {
                if r[i] != menu.last() {
                    let k = choose|k: int| 0 <= k < rest.len() && rest[k] == r[i];
                    assert(rest[k].2 == g);
                }
            }
        }
    }
}

fn copy_def(d: &MenuActionDef) -> (r: MenuActionDef)
    ensures
        menu_entry_view(r) == menu_entry_view(*d),
{
    MenuActionDef {
        command_name: string_of(&chars_of(d.command_name.as_str())),
        display_name: string_of(&chars_of(d.display_name.as_str())),
        group: string_of(&chars_of(d.group.as_str())),
    }
}

fn insert_entry(sorted: &mut Vec<MenuActionDef>, e: MenuActionDef)
    ensures
        final(sorted)@.map_values(|d: MenuActionDef| menu_entry_view(d)) == insert_by_name(
            old(sorted)@.map_values(|d: MenuActionDef| menu_entry_view(d)),
            menu_entry_view(e),
        ),
    decreases old(sorted)@.len(),
{
    let ghost before = sorted@.map_values(|d: MenuActionDef| menu_entry_view(d));
    if sorted.len() == 0 {
        sorted.push(e);
        assert(sorted@.map_values(|d: MenuActionDef| menu_entry_view(d)) =~= seq![menu_entry_view(e)]);
        return;
    }
    let n = sorted.len();
    let goes_before = name_less(e.display_name.as_str(), sorted[n - 1].display_name.as_str());
    assert(before.last() == menu_entry_view(sorted@[n - 1]));
    if !goes_before {
        sorted.push(e);
        assert(sorted@.map_values(|d: MenuActionDef| menu_entry_view(d)) =~= before.push(menu_entry_view(e)));
        return;
    }
    let last = sorted.pop().unwrap();
    assert(sorted@.map_values(|d: MenuActionDef| menu_entry_view(d)) =~= before.drop_last());
    insert_entry(sorted, e);
    let ghost mid = sorted@.map_values(|d: MenuActionDef| menu_entry_view(d));
    sorted.push(last);
    assert(sorted@.map_values(|d: MenuActionDef| menu_entry_view(d)) =~= mid.push(menu_entry_view(last)));
}

/// The actions of group `group`, sorted by display name, actions with
/// equal names in registration order.
pub fn group_actions(menu: &[MenuActionDef], group: &str) -> (r: Vec<MenuActionDef>)
    ensures
        r@.map_values(|d: MenuActionDef| menu_entry_view(d)) == group_actions_spec(
            menu@.map_values(|d: MenuActionDef| menu_entry_view(d)),
            group@,
        ),
{
    let ghost mv = menu@.map_values(|d: MenuActionDef| menu_entry_view(d));
    let mut out: Vec<MenuActionDef> = Vec::new();
    let mut i: usize = 0;
    while i < menu.len()
        invariant
            i <= menu@.len(),
            mv == menu@.map_values(|d: MenuActionDef| menu_entry_view(d)),
            out@.map_values(|d: MenuActionDef| menu_entry_view(d)) == group_actions_spec(mv.take(i as int), group@),
        decreases menu@.len() - i,
    {
        proof {
            let t = mv.take(i + 1);
            assert(t.drop_last() =~= mv.take(i as int));
            assert(t.last() == mv[i as int]);
            assert(mv[i as int] == menu_entry_view(menu@[i as int]));
        }
        if crate::strmap::str_eq(menu[i].group.as_str(), group) {
            insert_entry(&mut out, copy_def(&menu[i]));
        }
        i = i + 1;
    }
    assert(mv.take(menu@.len() as int) =~= mv);
    out
}

/// One submenu: its group name and its actions in menu order.
pub struct MenuGroup {
    pub name: String,
    pub actions: Vec<MenuActionDef>,
}

/// Menu entries as values.
pub open spec fn entries_view(v: Seq<MenuActionDef>) -> Seq<(Seq<char>, Seq<char>, Seq<char>)> {
    v.map_values(|d: MenuActionDef| menu_entry_view(d))
}

/// The names of the submenus.
pub open spec fn group_names(v: Seq<MenuGroup>) -> Seq<Seq<char>> {
    v.map_values(|g: MenuGroup| g.name@)
}

/// The layout of the menu: one submenu per group that has actions, in
/// ascending order of group name, each with its actions sorted by display
/// name (equal names in registration order).
pub fn menu_layout(menu: &[MenuActionDef]) -> (r: Vec<MenuGroup>)
    ensures
        strictly_ascending(group_names(r@)),
        forall|g: Seq<char>| #[trigger] group_names(r@).contains(g) <==> has_group(
            menu@.map_values(|d: MenuActionDef| menu_entry_view(d)),
            g,
        ),
        forall|k: int| 0 <= k < r@.len() ==> entries_view(#[trigger] r@[k].actions@)
            == group_actions_spec(entries_view(menu@), r@[k].name@),
{
    let names = menu_groups(menu);
    let ghost nv = names_view(names@);
    let mut out: Vec<MenuGroup> = Vec::new();
    let mut i: usize = 0;
    while i < names.len()
        invariant
            i <= names@.len(),
            nv == names_view(names@),
            group_names(out@) == nv.take(i as int),
            forall|k: int| 0 <= k < out@.len() ==> entries_view(#[trigger] out@[k].actions@)
                == group_actions_spec(entries_view(menu@), out@[k].name@),
        decreases names@.len() - i,
    {
        let actions = group_actions(menu, names[i].as_str());
        let name = string_of(&chars_of(names[i].as_str()));
        let ghost before = group_names(out@);
        out.push(MenuGroup { name, actions });
        assert(group_names(out@) =~= before.push(nv[i as int]));
        assert(nv.take(i + 1) =~= nv.take(i as int).push(nv[i as int]));
        i = i + 1;
    }
    assert(nv.take(names@.len() as int) =~= nv);
    out
}

} // verus!
