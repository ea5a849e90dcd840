//! Facets grouped by what they entail: the facets whose consequences (of
//! one kind) are the same form a component, together with everything that
//! their consequences of the other kind hold.
use vstd::prelude::*;

use crate::symbol::{Symbol, SymbolView};
use crate::utils::{strings_contain, symbols_contain, views};

verus! {

/// Facets with the same consequences (the key), and the union of their
/// other consequences (the content).
#[derive(Debug)]
pub struct Component {
    /// The consequences that the facets share.
    pub key: Vec<Symbol>,
    /// The facets, each once.
    pub facets: Vec<String>,
    /// The other consequences of the facets, each once.
    pub content: Vec<Symbol>,
}

/// The values of facets with their key and content consequences.
pub open spec fn entries_view(entries: Seq<(String, Vec<Symbol>, Vec<Symbol>)>) -> Seq<
    (Seq<char>, Seq<SymbolView>, Seq<SymbolView>),
> {
    entries.map_values(|e: (String, Vec<Symbol>, Vec<Symbol>)| (e.0@, views(e.1@), views(e.2@)))
}

/// The facets among `entries` whose key is `key`.
pub open spec fn members(entries: Seq<(Seq<char>, Seq<SymbolView>, Seq<SymbolView>)>, key: Seq<
    SymbolView,
>) -> Set<Seq<char>> {
    Set::new(|f: Seq<char>| exists|i: int| 0 <= i < entries.len() && entries[i].1 == key && entries[i].0 == f)
}

/// What the contents of the facets among `entries` whose key is `key` hold.
pub open spec fn gathered(entries: Seq<(Seq<char>, Seq<SymbolView>, Seq<SymbolView>)>, key: Seq<
    SymbolView,
>) -> Set<SymbolView> {
    Set::new(
        |x: SymbolView|
            exists|i: int| 0 <= i < entries.len() && entries[i].1 == key && entries[i].2.contains(x),
    )
}

/// Whether `groups` are the components of `entries`: one per key, each with
/// the facets of that key and what their contents hold.
pub open spec fn are_components(groups: Seq<Component>, entries: Seq<(Seq<char>, Seq<SymbolView>, Seq<SymbolView>)>) -> bool {
    &&& forall|a: int, b: int|
        0 <= a < b < groups.len() ==> views(#[trigger] groups[a].key@) != views(#[trigger] groups[b].key@)
    &&& forall|i: int|
        0 <= i < entries.len() ==> exists|g: int|
            0 <= g < groups.len() && views(#[trigger] groups[g].key@) == (#[trigger] entries[i]).1
    &&& forall|g: int|
        0 <= g < groups.len() ==> exists|i: int|
            0 <= i < entries.len() && (#[trigger] entries[i]).1 == views(#[trigger] groups[g].key@)
    &&& forall|g: int|
        0 <= g < groups.len() ==> views(#[trigger] groups[g].facets@).no_duplicates() && views(
            groups[g].facets@,
        ).to_set() == members(entries, views(groups[g].key@))
    &&& forall|g: int|
        0 <= g < groups.len() ==> views(#[trigger] groups[g].content@).no_duplicates() && views(
            groups[g].content@,
        ).to_set() == gathered(entries, views(groups[g].key@))
}

proof fn lemma_views_push<T: View>(s: Seq<T>, x: T)
    ensures
        views(s.push(x)) == views(s).push(x@),
{
    assert(views(s.push(x)) =~= views(s).push(x@));
}

/// Adds `x` to `v` unless it is there.
fn add_string(v: &mut Vec<String>, x: String)
    requires
        views(old(v)@).no_duplicates(),
    ensures
        views(final(v)@).no_duplicates(),
        views(final(v)@).to_set() == views(old(v)@).to_set().insert(x@),
{
    let ghost before = views(v@);
    if !strings_contain(v.as_slice(), &x) {
        v.push(x);
        proof {
            lemma_views_push(old(v)@, x);
            before.lemma_push_to_set_commute(x@);
            assert forall|a: int, b: int| 0 <= a < b < views(v@).len() implies views(v@)[a] != views(v@)[b] by {
                if b == before.len() {
                    assert(before[a] == views(v@)[a]);
                }
            }
        }
    }
    proof {
        if before.contains(x@) {
            assert(views(v@).to_set() =~= views(old(v)@).to_set().insert(x@));
        }
    }
}

/// Adds the symbols of `xs` that are not in `v`, each once.
fn add_symbols(v: &mut Vec<Symbol>, xs: &[Symbol])
    requires
        views(old(v)@).no_duplicates(),
    ensures
        views(final(v)@).no_duplicates(),
        views(final(v)@).to_set() == views(old(v)@).to_set().union(views(xs@).to_set()),
{
    let mut i: usize = 0;
    while i < xs.len()
        invariant
            i <= xs@.len(),
            views(v@).no_duplicates(),
            views(v@).to_set() == views(old(v)@).to_set().union(views(xs@.take(i as int)).to_set()),
        decreases xs@.len() - i,
    {
        let ghost before = views(v@);
        let ghost done = views(xs@.take(i as int));
        proof {
            lemma_views_push(xs@.take(i as int), xs@[i as int]);
            assert(xs@.take(i + 1) =~= xs@.take(i as int).push(xs@[i as int]));
            done.lemma_push_to_set_commute(xs@[i as int]@);
        }
        if !symbols_contain(v.as_slice(), &xs[i]) {
            let c = crate::symbol::copy_symbol(&xs[i]);
            let ghost pre = v@;
            v.push(c);
            proof {
                lemma_views_push(pre, c);
                before.lemma_push_to_set_commute(c@);
                assert forall|a: int, b: int| 0 <= a < b < views(v@).len() implies views(v@)[a] != views(v@)[b] by {
                    if b == before.len() {
                        assert(before[a] == views(v@)[a]);
                    }
                }
            }
        }
        proof {
            assert(views(xs@.take(i + 1)).to_set() == done.to_set().insert(xs@[i as int]@));
            assert(views(v@).to_set() =~= views(old(v)@).to_set().union(views(xs@.take(i + 1)).to_set()));
        }
        i = i + 1;
    }
    assert(xs@.take(xs@.len() as int) =~= xs@);
}

proof fn lemma_members_push(
    entries: Seq<(Seq<char>, Seq<SymbolView>, Seq<SymbolView>)>,
    e: (Seq<char>, Seq<SymbolView>, Seq<SymbolView>),
    key: Seq<SymbolView>,
)
    ensures
        members(entries.push(e), key) == if e.1 == key {
            members(entries, key).insert(e.0)
        } else {
            members(entries, key)
        },
        gathered(entries.push(e), key) == if e.1 == key {
            gathered(entries, key).union(e.2.to_set())
        } else {
            gathered(entries, key)
        },
{
    let es = entries.push(e);
    let n = entries.len() as int;
    assert(es[n] == e);
    assert forall|j: int| 0 <= j < n implies #[trigger] es[j] == entries[j] by {}
    let m1 = members(es, key);
    let m0 = if e.1 == key { members(entries, key).insert(e.0) } else { members(entries, key) };
    assert forall|f: Seq<char>| m1.contains(f) <==> m0.contains(f) by {
        if m1.contains(f) {
            let j = choose|j: int| 0 <= j < es.len() && es[j].1 == key && es[j].0 == f;
            if j < n {
                assert(entries[j].1 == key && entries[j].0 == f);
            }
        }
        if members(entries, key).contains(f) {
            let j = choose|j: int| 0 <= j < entries.len() && entries[j].1 == key && entries[j].0 == f;
            assert(es[j] == entries[j]);
        }
    }
    assert(m1 =~= m0);
    let g1 = gathered(es, key);
    let g0 = if e.1 == key { gathered(entries, key).union(e.2.to_set()) } else { gathered(entries, key) };
    assert forall|x: SymbolView| g1.contains(x) <==> g0.contains(x) by {
        if g1.contains(x) {
            let j = choose|j: int| 0 <= j < es.len() && es[j].1 == key && es[j].2.contains(x);
            if j < n {
                assert(entries[j].1 == key && entries[j].2.contains(x));
            }
        }
        if gathered(entries, key).contains(x) {
            let j = choose|j: int| 0 <= j < entries.len() && entries[j].1 == key && entries[j].2.contains(x);
            assert(es[j] == entries[j]);
        }
        if e.1 == key && e.2.contains(x) {
            assert(es[n].2.contains(x));
        }
    }
    assert(g1 =~= g0);
}

/// Adding a facet whose key is that of group `g` to that group keeps the
/// groups the components.
proof fn lemma_join_step(
    old_groups: Seq<Component>,
    new_groups: Seq<Component>,
    g: int,
    done: Seq<(Seq<char>, Seq<SymbolView>, Seq<SymbolView>)>,
    e: (Seq<char>, Seq<SymbolView>, Seq<SymbolView>),
)
    requires
        are_components(old_groups, done),
        0 <= g < old_groups.len(),
        views(old_groups[g].key@) == e.1,
        new_groups.len() == old_groups.len(),
        forall|h: int| 0 <= h < new_groups.len() && h != g ==> #[trigger] new_groups[h] == old_groups[h],
        views(new_groups[g].key@) == views(old_groups[g].key@),
        views(new_groups[g].facets@).no_duplicates(),
        views(new_groups[g].facets@).to_set() == views(old_groups[g].facets@).to_set().insert(e.0),
        views(new_groups[g].content@).no_duplicates(),
        views(new_groups[g].content@).to_set() == views(old_groups[g].content@).to_set().union(
            e.2.to_set(),
        ),
    ensures
        are_components(new_groups, done.push(e)),
{
    let ne = done.push(e);
    let n = done.len() as int;
    assert(ne[n] == e);
    assert forall|j: int| 0 <= j < n implies #[trigger] ne[j] == done[j] by {}
    assert forall|h: int| 0 <= h < new_groups.len() implies views(#[trigger] new_groups[h].key@) == views(
        old_groups[h].key@,
    ) by {}
    assert forall|h: int| 0 <= h < new_groups.len() implies views(#[trigger] new_groups[h].facets@).no_duplicates()
        && views(new_groups[h].facets@).to_set() == members(ne, views(new_groups[h].key@)) by {
        lemma_members_push(done, e, views(new_groups[h].key@));
        if h != g {
            assert(views(old_groups[h].key@) != views(old_groups[g].key@));
        }
    }
    assert forall|h: int| 0 <= h < new_groups.len() implies views(#[trigger] new_groups[h].content@).no_duplicates()
        && views(new_groups[h].content@).to_set() == gathered(ne, views(new_groups[h].key@)) by {
        lemma_members_push(done, e, views(new_groups[h].key@));
        if h != g {
            assert(views(old_groups[h].key@) != views(old_groups[g].key@));
        }
    }
    assert forall|a: int, b: int| 0 <= a < b < new_groups.len() implies views(#[trigger] new_groups[a].key@)
        != views(#[trigger] new_groups[b].key@) by {
        assert(views(old_groups[a].key@) != views(old_groups[b].key@));
    }
    assert forall|j: int| 0 <= j < ne.len() implies exists|q: int|
        0 <= q < new_groups.len() && views(#[trigger] new_groups[q].key@) == (#[trigger] ne[j]).1 by {
        if j < n {
            let q = choose|q: int|
                0 <= q < old_groups.len() && views(#[trigger] old_groups[q].key@) == (#[trigger] done[j]).1;
            assert(views(new_groups[q].key@) == views(old_groups[q].key@));
        } else {
            assert(views(new_groups[g].key@) == ne[j].1);
        }
    }
    assert forall|q: int| 0 <= q < new_groups.len() implies exists|j: int|
        0 <= j < ne.len() && (#[trigger] ne[j]).1 == views(#[trigger] new_groups[q].key@) by {
        let j = choose|j: int|
            0 <= j < done.len() && (#[trigger] done[j]).1 == views(#[trigger] old_groups[q].key@);
        assert(ne[j] == done[j]);
        assert(views(new_groups[q].key@) == views(old_groups[q].key@));
    }
}

/// A facet whose key no group has starts a group of its own, and the groups
/// stay the components.
proof fn lemma_new_step(
    old_groups: Seq<Component>,
    comp: Component,
    done: Seq<(Seq<char>, Seq<SymbolView>, Seq<SymbolView>)>,
    e: (Seq<char>, Seq<SymbolView>, Seq<SymbolView>),
)
    requires
        are_components(old_groups, done),
        forall|h: int| 0 <= h < old_groups.len() ==> views(#[trigger] old_groups[h].key@) != e.1,
        views(comp.key@) == e.1,
        views(comp.facets@).no_duplicates(),
        views(comp.facets@).to_set() == Set::<Seq<char>>::empty().insert(e.0),
        views(comp.content@).no_duplicates(),
        views(comp.content@).to_set() == e.2.to_set(),
    ensures
        are_components(old_groups.push(comp), done.push(e)),
{
    let groups = old_groups.push(comp);
    let ne = done.push(e);
    let n = old_groups.len() as int;
    let m = done.len() as int;
    let key = e.1;
    assert(groups[n] == comp);
    assert(ne[m] == e);
    assert forall|h: int| 0 <= h < n implies #[trigger] groups[h] == old_groups[h] by {}
    assert forall|j: int| 0 <= j < m implies #[trigger] ne[j] == done[j] by {}
    assert forall|j: int| 0 <= j < m implies (#[trigger] done[j]).1 != key by {
        let q = choose|q: int|
            0 <= q < old_groups.len() && views(#[trigger] old_groups[q].key@) == (#[trigger] done[j]).1;
    }
    assert(members(done, key) =~= Set::<Seq<char>>::empty());
    assert(gathered(done, key) =~= Set::<SymbolView>::empty());
    assert forall|h: int| 0 <= h < groups.len() implies views(#[trigger] groups[h].facets@).no_duplicates()
        && views(groups[h].facets@).to_set() == members(ne, views(groups[h].key@)) by {
        lemma_members_push(done, e, views(groups[h].key@));
    }
    assert forall|h: int| 0 <= h < groups.len() implies views(#[trigger] groups[h].content@).no_duplicates()
        && views(groups[h].content@).to_set() == gathered(ne, views(groups[h].key@)) by {
        lemma_members_push(done, e, views(groups[h].key@));
        if h == n {
            assert(Set::<SymbolView>::empty().union(e.2.to_set()) =~= e.2.to_set());
        }
    }
    assert forall|a: int, b: int| 0 <= a < b < groups.len() implies views(#[trigger] groups[a].key@)
        != views(#[trigger] groups[b].key@) by {
        if b < n {
            assert(views(old_groups[a].key@) != views(old_groups[b].key@));
        }
    }
    assert forall|j: int| 0 <= j < ne.len() implies exists|q: int|
        0 <= q < groups.len() && views(#[trigger] groups[q].key@) == (#[trigger] ne[j]).1 by {
        if j < m {
            let q = choose|q: int|
                0 <= q < old_groups.len() && views(#[trigger] old_groups[q].key@) == (#[trigger] done[j]).1;
            assert(groups[q] == old_groups[q]);
        } else {
            assert(views(groups[n].key@) == ne[j].1);
        }
    }
    assert forall|q: int| 0 <= q < groups.len() implies exists|j: int|
        0 <= j < ne.len() && (#[trigger] ne[j]).1 == views(#[trigger] groups[q].key@) by {
        if q < n {
            let j = choose|j: int|
                0 <= j < done.len() && (#[trigger] done[j]).1 == views(#[trigger] old_groups[q].key@);
            assert(ne[j] == done[j]);
        } else {
            assert(ne[m] == e);
        }
    }
}

/// The components of the facets `entries` (each with its key and its
/// content consequences): the facets grouped by equal keys, one component
/// per key.
pub fn components(entries: &[(String, Vec<Symbol>, Vec<Symbol>)]) -> (r: Vec<Component>)
    ensures
        are_components(r@, entries_view(entries@)),
{
    let ghost ev = entries_view(entries@);
    let mut groups: Vec<Component> = Vec::new();
    let mut i: usize = 0;
    proof {
        assert(ev.take(0) =~= Seq::<(Seq<char>, Seq<SymbolView>, Seq<SymbolView>)>::empty());
    }
    while i < entries.len()
        invariant
            i <= entries@.len(),
            ev == entries_view(entries@),
            are_components(groups@, ev.take(i as int)),
        decreases entries@.len() - i,
    {
        let ghost done = ev.take(i as int);
        let ghost e = ev[i as int];
        proof {
            assert(ev.take(i + 1) =~= done.push(e));
            assert(e == (entries@[i as int].0@, views(entries@[i as int].1@), views(entries@[i as int].2@)));
        }
        let mut g: usize = 0;
        let mut found = false;
        while g < groups.len()
            invariant_except_break
                !found,
                forall|h: int| 0 <= h < g ==> views(#[trigger] groups@[h].key@) != e.1,
            invariant
                i < entries@.len(),
                g <= groups@.len(),
                e.1 == views(entries@[i as int].1@),
            ensures
                found ==> g < groups@.len() && views(groups@[g as int].key@) == e.1,
                !found ==> forall|h: int| 0 <= h < groups@.len() ==> views(#[trigger] groups@[h].key@) != e.1,
            decreases groups@.len() - g,
        {
            if crate::navigator::symbols_eq(groups[g].key.as_slice(), entries[i].1.as_slice()) {
                found = true;
                break;
            }
            g = g + 1;
        }
        let ghost old_groups = groups@;
        if found {
            let mut comp = groups.remove(g);
            proof {
                assert(comp == old_groups[g as int]);
            }
            add_string(&mut comp.facets, crate::text::copy_string(&entries[i].0));
            add_symbols(&mut comp.content, entries[i].2.as_slice());
            groups.insert(g, comp);
            proof {
                assert forall|h: int| 0 <= h < groups@.len() && h != g implies #[trigger] groups@[h]
                    == old_groups[h] by {}
                assert(groups@[g as int] == comp);
                lemma_join_step(old_groups, groups@, g as int, done, e);
            }
        } else {
            let key_copy = crate::symbol::copy_symbols(entries[i].1.as_slice());
            let mut facets: Vec<String> = Vec::new();
            add_string(&mut facets, crate::text::copy_string(&entries[i].0));
            let mut content: Vec<Symbol> = Vec::new();
            add_symbols(&mut content, entries[i].2.as_slice());
            let comp = Component { key: key_copy, facets, content };
            proof {
                assert(views(comp.key@) =~= crate::symbol::args_view(comp.key@));
                assert(views(entries@[i as int].1@) =~= crate::symbol::args_view(entries@[i as int].1@));
                assert(views(Seq::<String>::empty()).to_set() =~= Set::<Seq<char>>::empty());
                assert(views(Seq::<Symbol>::empty()).to_set() =~= Set::<SymbolView>::empty());
                assert(Set::<SymbolView>::empty().union(e.2.to_set()) =~= e.2.to_set());
                lemma_new_step(old_groups, comp, done, e);
            }
            groups.push(comp);
        }
        i = i + 1;
    }
    assert(ev.take(entries@.len() as int) =~= ev);
    groups
}

} // verus!
