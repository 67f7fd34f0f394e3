//! What leaving a scope promises: every declaration made in it is undone.
use vstd::prelude::*;
use super::stack::{
    declare_spec, lemma_remove_last_at, pop_scope_spec, push_scope_spec, remove_from_order,
    remove_last, remove_names,
    restore, FrameView, LocalVar, ScopeView,
};

verus! {

/// The names of hidden variables a scope remembers.
pub open spec fn shadow_names(sh: Seq<(Seq<char>, LocalVar)>) -> Seq<Seq<char>> {
    sh.map_values(|e: (Seq<char>, LocalVar)| e.0)
}

/// Declarations one after the other.
pub open spec fn declare_all(f: FrameView, decls: Seq<(Seq<char>, LocalVar)>) -> FrameView
    decreases decls.len(),
{
    if decls.len() == 0 {
        f
    } else {
        declare_spec(declare_all(f, decls.drop_last()), decls.last().0, decls.last().1)
    }
}

/// `g` is `f` with one more scope in which each name was declared at most
/// once.
spec fn scope_over(f: FrameView, g: FrameView) -> bool {
    let top = g.scopes.last();
    let dc = top.declared;
    let sh = top.shadowed;
    &&& g.scopes.len() == f.scopes.len() + 1
    &&& g.scopes.drop_last() == f.scopes
    &&& dc.no_duplicates()
    &&& shadow_names(sh).no_duplicates()
    &&& forall|x: Seq<char>| #[trigger] dc.contains(x) ==> !f.locals.contains_key(x) && !shadow_names(sh).contains(x)
    &&& forall|i: int| 0 <= i < sh.len() ==> f.locals.contains_key(#[trigger] sh[i].0) && sh[i].1 == f.locals[sh[i].0]
    &&& g.order == f.order + dc
    &&& forall|x: Seq<char>| #[trigger] g.locals.contains_key(x) <==> (f.locals.contains_key(x) || dc.contains(x))
    &&& forall|x: Seq<char>|
        #![trigger g.locals[x]]
        f.locals.contains_key(x) && !shadow_names(sh).contains(x) ==> g.locals[x] == f.locals[x]
}

proof fn lemma_remove_names(m: Map<Seq<char>, LocalVar>, ds: Seq<Seq<char>>, x: Seq<char>)
    ensures
        remove_names(m, ds).contains_key(x) == (m.contains_key(x) && !ds.contains(x)),
        remove_names(m, ds).contains_key(x) ==> remove_names(m, ds)[x] == m[x],
    decreases ds.len(),
{
    if ds.len() > 0 {
        lemma_remove_names(m, ds.drop_last(), x);
        if ds.contains(x) && ds.last() != x {
            let i = choose|i: int| 0 <= i < ds.len() && ds[i] == x;
            assert(ds.drop_last()[i] == x);
        }
        if ds.drop_last().contains(x) {
            let i = choose|i: int| 0 <= i < ds.drop_last().len() && ds.drop_last()[i] == x;
            assert(ds[i] == x);
        }
        assert(ds.last() == ds[ds.len() - 1]);
    }
}

proof fn lemma_restore(m: Map<Seq<char>, LocalVar>, sh: Seq<(Seq<char>, LocalVar)>, x: Seq<char>)
    requires
        shadow_names(sh).no_duplicates(),
    ensures
        restore(m, sh).contains_key(x) == (m.contains_key(x) || shadow_names(sh).contains(x)),
        !shadow_names(sh).contains(x) && m.contains_key(x) ==> restore(m, sh)[x] == m[x],
        forall|i: int| 0 <= i < sh.len() && #[trigger] sh[i].0 == x ==> restore(m, sh)[x] == sh[i].1,
    decreases sh.len(),
{
    if sh.len() > 0 {
        let init = sh.drop_last();
        assert(shadow_names(init) =~= shadow_names(sh).drop_last());
        lemma_restore(m, init, x);
        assert(shadow_names(sh)[sh.len() - 1] == sh.last().0);
        if shadow_names(sh).contains(x) && sh.last().0 != x {
            let i = choose|i: int| 0 <= i < shadow_names(sh).len() && shadow_names(sh)[i] == x;
            assert(shadow_names(init)[i] == x);
        }
        if shadow_names(init).contains(x) {
            let i = choose|i: int| 0 <= i < shadow_names(init).len() && shadow_names(init)[i] == x;
            assert(shadow_names(sh)[i] == x);
        }
        assert forall|i: int| 0 <= i < sh.len() && #[trigger] sh[i].0 == x implies restore(m, sh)[x]
            == sh[i].1 by {
            if i < sh.len() - 1 {
                assert(shadow_names(sh)[i] == x);
                assert(shadow_names(sh)[sh.len() - 1] == sh.last().0);
                assert(init[i] == sh[i]);
            }
        }
    }
}

/// Removing the last occurrences of names that were appended, each once,
/// after an order gives back that order.
proof fn lemma_remove_appended(o: Seq<Seq<char>>, dc: Seq<Seq<char>>)
    requires
        dc.no_duplicates(),
    ensures
        remove_from_order(o + dc, dc) == o,
{
    lemma_remove_appended_prefix(o, dc, dc.len() as int);
    assert(dc.take(dc.len() as int) =~= dc);
    assert(dc.skip(dc.len() as int) =~= Seq::<Seq<char>>::empty());
    assert(o + Seq::<Seq<char>>::empty() =~= o);
}

proof fn lemma_remove_appended_prefix(o: Seq<Seq<char>>, dc: Seq<Seq<char>>, j: int)
    requires
        dc.no_duplicates(),
        0 <= j <= dc.len(),
    ensures
        remove_from_order(o + dc, dc.take(j)) == o + dc.skip(j),
    decreases j,
{
    if j == 0 {
        assert(dc.skip(0) =~= dc);
    } else {
        lemma_remove_appended_prefix(o, dc, j - 1);
        assert(dc.take(j).drop_last() =~= dc.take(j - 1));
        assert(dc.take(j).last() == dc[j - 1]);
        let cur = o + dc.skip(j - 1);
        let name = dc[j - 1];
        assert(cur[o.len() as int] == name);
        assert forall|k: int| o.len() < k < cur.len() implies cur[k] != name by {
            assert(cur[k] == dc[j - 1 + k - o.len()]);
        }
        lemma_remove_last_at(cur, name, o.len() as int);
        assert(cur.remove(o.len() as int) =~= o + dc.skip(j));
    }
}


/// Leaving a scope `g` built over `f` gives back `f`.
proof fn lemma_pop_scope_over(f: FrameView, g: FrameView)
    requires
        scope_over(f, g),
    ensures
        pop_scope_spec(g) == f,
{
    let top = g.scopes.last();
    let dc = top.declared;
    let sh = top.shadowed;
    let p = pop_scope_spec(g);
    let x_map = remove_names(g.locals, dc);
    assert forall|x: Seq<char>| #[trigger] p.locals.contains_key(x) <==> f.locals.contains_key(x) by {
        lemma_remove_names(g.locals, dc, x);
        lemma_restore(x_map, sh, x);
        if shadow_names(sh).contains(x) {
            let i = choose|i: int| 0 <= i < shadow_names(sh).len() && shadow_names(sh)[i] == x;
            assert(sh[i].0 == x);
        }
    }
    assert forall|x: Seq<char>| #[trigger] p.locals.contains_key(x) implies p.locals[x] == f.locals[x] by {
        lemma_remove_names(g.locals, dc, x);
        lemma_restore(x_map, sh, x);
        if shadow_names(sh).contains(x) {
            let i = choose|i: int| 0 <= i < shadow_names(sh).len() && shadow_names(sh)[i] == x;
            assert(sh[i].0 == x);
        } else {
            assert(g.locals[x] == f.locals[x]);
        }
    }
    assert(p.locals =~= f.locals);
    lemma_remove_appended(f.order, dc);
    assert(p.scopes =~= f.scopes);
    assert(p =~= f);
}

/// Declaring a name not yet declared in the innermost scope keeps it a
/// scope over `f`.
proof fn lemma_declare_in_scope(f: FrameView, g: FrameView, n: Seq<char>, v: LocalVar)
    requires
        scope_over(f, g),
        !g.scopes.last().declared.contains(n),
        !shadow_names(g.scopes.last().shadowed).contains(n),
    ensures
        scope_over(f, declare_spec(g, n, v)),
        declare_spec(g, n, v).scopes.last().declared.contains(n) || shadow_names(
            declare_spec(g, n, v).scopes.last().shadowed,
        ).contains(n),
        forall|x: Seq<char>|
            (#[trigger] declare_spec(g, n, v).scopes.last().declared.contains(x) || shadow_names(
                declare_spec(g, n, v).scopes.last().shadowed,
            ).contains(x)) ==> (x == n || g.scopes.last().declared.contains(x) || shadow_names(
                g.scopes.last().shadowed,
            ).contains(x)),
{
    let top = g.scopes.last();
    let h = declare_spec(g, n, v);
    let nt = h.scopes.last();
    assert(h.scopes.drop_last() =~= g.scopes.drop_last());
    if g.locals.contains_key(n) {
        assert(nt.declared == top.declared);
        assert(shadow_names(nt.shadowed) =~= shadow_names(top.shadowed).push(n));
        assert(shadow_names(nt.shadowed)[shadow_names(top.shadowed).len() as int] == n);
        assert forall|x: Seq<char>| #[trigger] shadow_names(nt.shadowed).contains(x) implies (x == n
            || shadow_names(top.shadowed).contains(x)) by {
            let i = choose|i: int| 0 <= i < shadow_names(nt.shadowed).len() && shadow_names(nt.shadowed)[i] == x;
            if i < shadow_names(top.shadowed).len() {
                assert(shadow_names(top.shadowed)[i] == x);
            }
        }
        assert forall|i: int| 0 <= i < nt.shadowed.len() implies f.locals.contains_key(
            #[trigger] nt.shadowed[i].0,
        ) && nt.shadowed[i].1 == f.locals[nt.shadowed[i].0] by {
            if i < top.shadowed.len() {
                assert(nt.shadowed[i] == top.shadowed[i]);
            }
        }
        assert forall|x: Seq<char>| #[trigger] nt.declared.contains(x) implies !f.locals.contains_key(
            x,
        ) && !shadow_names(nt.shadowed).contains(x) by {
            if shadow_names(nt.shadowed).contains(x) {
                assert(x == n || shadow_names(top.shadowed).contains(x));
            }
        }
        assert forall|x: Seq<char>|
            #![trigger h.locals[x]]
            f.locals.contains_key(x) && !shadow_names(nt.shadowed).contains(x) implies h.locals[x]
                == f.locals[x] by {
            if x == n {
                assert(shadow_names(nt.shadowed).contains(n));
            } else {
                assert(!shadow_names(top.shadowed).contains(x)) by {
                    if shadow_names(top.shadowed).contains(x) {
                        let i = choose|i: int| 0 <= i < shadow_names(top.shadowed).len() && shadow_names(top.shadowed)[i] == x;
                        assert(shadow_names(nt.shadowed)[i] == x);
                    }
                }
            }
        }
    } else {
        assert(!f.locals.contains_key(n));
        assert(nt.shadowed == top.shadowed);
        assert(nt.declared == top.declared.push(n));
        assert(nt.declared[top.declared.len() as int] == n);
        assert forall|x: Seq<char>| #[trigger] nt.declared.contains(x) implies (x == n
            || top.declared.contains(x)) by {
            let i = choose|i: int| 0 <= i < nt.declared.len() && nt.declared[i] == x;
            if i < top.declared.len() {
                assert(top.declared[i] == x);
            }
        }
        assert(h.order =~= f.order + nt.declared);
        assert forall|x: Seq<char>| #[trigger] h.locals.contains_key(x) <==> (f.locals.contains_key(x)
            || nt.declared.contains(x)) by {
            if top.declared.contains(x) {
                let i = choose|i: int| 0 <= i < top.declared.len() && top.declared[i] == x;
                assert(nt.declared[i] == x);
            }
        }
    }
}

/// The declarations made so far all sit in the innermost scope.
proof fn lemma_declare_all_in_scope(f: FrameView, decls: Seq<(Seq<char>, LocalVar)>)
    requires
        decls.map_values(|d: (Seq<char>, LocalVar)| d.0).no_duplicates(),
    ensures
        scope_over(f, declare_all(push_scope_spec(f), decls)),
        forall|x: Seq<char>|
            (#[trigger] declare_all(push_scope_spec(f), decls).scopes.last().declared.contains(x)
                || shadow_names(declare_all(push_scope_spec(f), decls).scopes.last().shadowed).contains(
                x,
            )) ==> decls.map_values(|d: (Seq<char>, LocalVar)| d.0).contains(x),
    decreases decls.len(),
{
    let names = decls.map_values(|d: (Seq<char>, LocalVar)| d.0);
    if decls.len() == 0 {
        let g = push_scope_spec(f);
        assert(g.scopes.drop_last() =~= f.scopes);
        assert(shadow_names(g.scopes.last().shadowed) =~= Seq::<Seq<char>>::empty());
        assert(g.order =~= f.order + g.scopes.last().declared);
    } else {
        let init = decls.drop_last();
        let init_names = init.map_values(|d: (Seq<char>, LocalVar)| d.0);
        assert(init_names =~= names.drop_last());
        assert forall|a: int, b: int| 0 <= a < b < init_names.len() implies init_names[a] != init_names[b] by {
            assert(names[a] != names[b]);
        }
        lemma_declare_all_in_scope(f, init);
        let g = declare_all(push_scope_spec(f), init);
        let n = decls.last().0;
        assert(names[names.len() - 1] == n);
        assert(!init_names.contains(n)) by {
            if init_names.contains(n) {
                let i = choose|i: int| 0 <= i < init_names.len() && init_names[i] == n;
                assert(names[i] == n);
            }
        }
        if g.scopes.last().declared.contains(n) || shadow_names(g.scopes.last().shadowed).contains(n) {
            assert(init_names.contains(n));
        }
        lemma_declare_in_scope(f, g, n, decls.last().1);
        let h = declare_all(push_scope_spec(f), decls);
        assert forall|x: Seq<char>|
            (#[trigger] h.scopes.last().declared.contains(x) || shadow_names(
                h.scopes.last().shadowed,
            ).contains(x)) implies names.contains(x) by {
            if x != n {
                assert(init_names.contains(x));
                let i = choose|i: int| 0 <= i < init_names.len() && init_names[i] == x;
                assert(names[i] == x);
            }
        }
    }
}

/// Leaving a scope undoes every declaration made in it since it was
/// entered, when no name was declared twice in it, whatever the frame: the
/// variables, their declaration order and the open scopes are as before the
/// scope was entered.
pub proof fn law_pop_undoes_scope(f: FrameView, decls: Seq<(Seq<char>, LocalVar)>)
    requires
        decls.map_values(|d: (Seq<char>, LocalVar)| d.0).no_duplicates(),
    ensures
        pop_scope_spec(declare_all(push_scope_spec(f), decls)) == f,
{
    lemma_declare_all_in_scope(f, decls);
    lemma_pop_scope_over(f, declare_all(push_scope_spec(f), decls));
}

} // verus!
