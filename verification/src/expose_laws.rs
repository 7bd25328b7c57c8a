//! What a view exposes, told from the elements that own one another.
use crate::expose::{
    exposed_imports, exposed_in, exposed_list, exposed_members, exposed_scope, with_one, ExposeV,
};
use crate::naming_ids::is_membership;
use crate::resolution::{
    admits_by_import, admits_by_import_step, admits_by_member, admits_by_member_step,
    admits_by_scope, admits_by_scope_step, import_scopes, resolve,
};
use crate::rstate::{
    false_count, lemma_false_count_bound, lemma_false_count_update, lemma_false_positive, RV,
};
use crate::satisfaction::members_from;
use crate::state::BV;
use vstd::prelude::*;

verus! {

/// Whether an element is owned by another through a membership.
pub open spec fn owns(g: BV, o: usize, m: usize) -> bool {
    &&& m < g.n()
    &&& match g.elements[m as int].owning {
        Some(r) => g.elements[r as int].carrier == Some(o) && is_membership(
            g.elements[r as int].ty,
        ),
        None => false,
    }
}

/// Whether a view has no conditions on what it exposes.
pub open spec fn unconditional(g: BV, view: usize) -> bool {
    &&& g.scopes[view as int].filters.len() == 0
    &&& forall|i: int|
        0 <= i < g.scopes[view as int].imports.len() ==> (
        #[trigger] g.scopes[view as int].imports[i]).filters.len() == 0
    &&& forall|i: int|
        0 <= i < g.scopes[view as int].member_imports.len() ==> (
        #[trigger] g.scopes[view as int].member_imports[i]).filters.len() == 0
}

/// Whether a list leads from a namespace down to its last element: the first is
/// a member of the namespace, and each has a body of which the next is a
/// member.
pub open spec fn leads_down(g: BV, o: usize, path: Seq<usize>) -> bool {
    &&& path.len() > 0
    &&& owns(g, o, path[0])
    &&& forall|i: int|
        0 <= i < path.len() - 1 ==> has_body(g, #[trigger] path[i]) && owns(g, path[i], path[i + 1])
}

/// Whether an element has a body of its own.
pub open spec fn has_body(g: BV, e: usize) -> bool {
    match g.elements[e as int].notes.scope {
        Some(s) => g.scopes[s as int].owner == Some(e),
        None => false,
    }
}

proof fn lemma_members(g: BV, o: usize, i: int, m: usize)
    requires
        0 <= i,
        g.n() <= usize::MAX,
    ensures
        members_from(g, o, i).contains(m) <==> i <= m && owns(g, o, m),
    decreases g.n() - i,
{
    if i < g.n() {
        lemma_members(g, o, i + 1, m);
        let all = members_from(g, o, i);
        let rest = members_from(g, o, i + 1);
        if owns(g, o, i as usize) {
            assert(all == seq![i as usize] + rest);
            assert(all[0] == i);
            if rest.contains(m) {
                let q = choose|q: int| 0 <= q < rest.len() && rest[q] == m;
                assert(all[q + 1] == m);
            }
            if all.contains(m) {
                let q = choose|q: int| 0 <= q < all.len() && all[q] == m;
                if q > 0 {
                    assert(rest[q - 1] == m);
                }
            }
        }
    }
}

proof fn lemma_admitted(g: BV, b: RV, m: nat, view: usize, i: int, e: usize)
    requires
        g.scopes[view as int].filters.len() == 0,
    ensures
        g.scopes[view as int].imports[i].filters.len() == 0 ==> admits_by_import(
            g,
            b,
            m,
            view,
            i,
            e,
            0,
            0,
        ) == (b, true),
        g.scopes[view as int].member_imports[i].filters.len() == 0 ==> admits_by_member(
            g,
            b,
            m,
            view,
            i,
            e,
            0,
            0,
        ) == (b, true),
{
    reveal(admits_by_import_step);
    reveal(admits_by_member_step);
    reveal(admits_by_scope_step);
    assert(admits_by_scope(g, b, m, view, e, 0, 0) == (b, true));
}

proof fn lemma_with_one(s: Seq<usize>, x: usize, y: usize)
    ensures
        with_one(s, x).contains(y) <==> s.contains(y) || y == x,
{
    if !s.contains(x) {
        assert(s.push(x)[s.len() as int] == x);
        if s.contains(y) {
            let q = choose|q: int| 0 <= q < s.len() && s[q] == y;
            assert(s.push(x)[q] == y);
        }
    }
}

/// Whether a scope is done with: every member of its owner is exposed, and the
/// bodies of these were gone through.
spec fn done_with(g: BV, x: ExposeV, q: int) -> bool {
    forall|o: usize, m: usize|
        g.scopes[q].owner == Some(o) && #[trigger] owns(g, o, m) ==> x.out.contains(m) && (
        g.elements[m as int].notes.scope matches Some(sub) ==> x.seen[sub as int])
}

/// How exposing goes on: nothing is lost, and every scope that was gone
/// through in between is done with.
spec fn grows(g: BV, x: ExposeV, y: ExposeV) -> bool {
    &&& y.seen.len() == x.seen.len()
    &&& false_count(y.seen) <= false_count(x.seen)
    &&& forall|q: int| 0 <= q < x.seen.len() && #[trigger] x.seen[q] ==> y.seen[q]
    &&& forall|m: usize| #[trigger] x.out.contains(m) ==> y.out.contains(m)
    &&& forall|q: int|
        0 <= q < x.seen.len() && !x.seen[q] && #[trigger] y.seen[q] ==> done_with(g, y, q)
}

proof fn lemma_grows_on(g: BV, x: ExposeV, y: ExposeV, z: ExposeV)
    requires
        g.wf(),
        x.seen.len() == g.ns(),
        grows(g, x, y),
        grows(g, y, z),
    ensures
        grows(g, x, z),
{
    assert forall|q: int| 0 <= q < x.seen.len() && !x.seen[q] && #[trigger] z.seen[q] implies done_with(
        g,
        z,
        q,
    ) by {
        if y.seen[q] {
            assert(done_with(g, y, q));
            assert forall|o: usize, m: usize|
                g.scopes[q].owner == Some(o) && #[trigger] owns(g, o, m) implies z.out.contains(m)
                && (g.elements[m as int].notes.scope matches Some(sub) ==> z.seen[sub as int]) by {
                assert(y.out.contains(m));
                lemma_body_in_range(g, m);
            }
        }
    }
}

proof fn lemma_body_in_range(g: BV, m: usize)
    requires
        g.wf(),
        m < g.n(),
    ensures
        g.elements[m as int].notes.scope matches Some(sub) ==> sub < g.ns(),
{
    reveal(BV::wf);
    assert(g.elem_ok(m as int));
}

proof fn lemma_scope(g: BV, x: ExposeV, view: usize, entry: int, sc: usize, fuel: nat)
    requires
        g.wf(),
        unconditional(g, view),
        0 <= entry < g.scopes[view as int].imports.len(),
        x.seen.len() == g.ns(),
        sc < g.ns(),
        false_count(x.seen) <= fuel,
    ensures
        ({
            let y = exposed_scope(g, x, view, entry, sc, true, fuel);
            &&& grows(g, x, y)
            &&& y.seen[sc as int]
        }),
    decreases fuel, 1int, 0int,
{
    reveal(BV::wf);
    let y = exposed_scope(g, x, view, entry, sc, true, fuel);
    if !x.seen[sc as int] {
        lemma_false_positive(x.seen, sc as int);
        lemma_false_count_update(x.seen, sc as int, true);
        let x1 = ExposeV { seen: x.seen.update(sc as int, true), ..x };
        match g.scopes[sc as int].owner {
            Some(o) => {
                let ms = members_from(g, o, 0);
                assert forall|j: int| 0 <= j < ms.len() implies #[trigger] ms[j] < g.n() by {
                    lemma_members(g, o, 0, ms[j]);
                    assert(ms.contains(ms[j]));
                }
                lemma_list(g, x1, view, entry, ms, 0, fuel);
                assert(done_with(g, y, sc as int)) by {
                    assert forall|p: usize, m: usize|
                        g.scopes[sc as int].owner == Some(p) && #[trigger] owns(g, p, m) implies y.out.contains(
                        m,
                    ) && (g.elements[m as int].notes.scope matches Some(sub) ==> y.seen[sub as int]) by {
                        lemma_members(g, o, 0, m);
                        let q = choose|q: int| 0 <= q < ms.len() && ms[q] == m;
                        assert(y.out.contains(ms[q]));
                    }
                }
            },
            None => {},
        }
        assert forall|q: int| 0 <= q < x.seen.len() && !x.seen[q] && #[trigger] y.seen[q] implies done_with(
            g,
            y,
            q,
        ) by {
            if q != sc {
                assert(!x1.seen[q]);
            }
        }
        assert forall|q: int| 0 <= q < x.seen.len() && #[trigger] x.seen[q] implies y.seen[q] by {
            assert(x1.seen[q]);
        }
        assert(x1.seen[sc as int]);
        assert forall|m: usize| #[trigger] x.out.contains(m) implies y.out.contains(m) by {
            assert(x1.out.contains(m));
        }
    }
}

proof fn lemma_list(g: BV, x: ExposeV, view: usize, entry: int, s: Seq<usize>, k: int, fuel: nat)
    requires
        g.wf(),
        unconditional(g, view),
        0 <= entry < g.scopes[view as int].imports.len(),
        x.seen.len() == g.ns(),
        false_count(x.seen) < fuel,
        0 <= k <= s.len(),
        forall|j: int| 0 <= j < s.len() ==> #[trigger] s[j] < g.n(),
    ensures
        ({
            let y = exposed_list(g, x, view, entry, s, k, true, fuel);
            &&& grows(g, x, y)
            &&& forall|j: int|
                k <= j < s.len() ==> y.out.contains(#[trigger] s[j]) && (
                g.elements[s[j] as int].notes.scope matches Some(sub) ==> y.seen[sub as int])
        }),
    decreases fuel, 0int, s.len() - k,
{
    if k < s.len() {
        lemma_admitted(g, x.b, x.b.open_count(), view, entry, s[k]);
        let x1 = ExposeV { out: with_one(x.out, s[k]), ..x };
        lemma_body_in_range(g, s[k]);
        assert forall|m: usize| #[trigger] x.out.contains(m) implies x1.out.contains(m) by {
            lemma_with_one(x.out, s[k], m);
        }
        lemma_with_one(x.out, s[k], s[k]);
        assert(grows(g, x, x1));
        let x2 = match g.elements[s[k] as int].notes.scope {
            Some(sub) => {
                lemma_scope(g, x1, view, entry, sub, (fuel - 1) as nat);
                exposed_scope(g, x1, view, entry, sub, true, (fuel - 1) as nat)
            },
            None => x1,
        };
        lemma_grows_on(g, x, x1, x2);
        lemma_list(g, x2, view, entry, s, k + 1, fuel);
        let y = exposed_list(g, x2, view, entry, s, k + 1, true, fuel);
        assert(y == exposed_list(g, x, view, entry, s, k, true, fuel));
        lemma_grows_on(g, x, x2, y);
        assert forall|j: int| k <= j < s.len() implies y.out.contains(#[trigger] s[j]) && (
        g.elements[s[j] as int].notes.scope matches Some(sub) ==> y.seen[sub as int]) by {
            if j == k {
                assert(x1.out.contains(s[k]));
                assert(x2.out.contains(s[k]));
            }
        }
    }
}

/// A view with one recursive expose of a namespace, and no conditions, exposes
/// everything in the namespace at any depth: whatever is a member of it, or of
/// something in it that has a body.
pub proof fn law_recursive_exposes_go_all_the_way_down(
    b: RV,
    view: usize,
    o: usize,
    path: Seq<usize>,
)
    requires
        b.g.wf(),
        unconditional(b.g, view),
        ({
            let (c, _) = exposed_members(b.g, b, view, Seq::empty(), 0);
            let list = import_scopes(b.g, c, c.open_count(), view).1;
            &&& list.len() == 1
            &&& list[0].entry < b.g.scopes[view as int].imports.len()
            &&& b.g.scopes[view as int].imports[list[0].entry as int].recursive
            &&& list[0].scope < b.g.ns()
            &&& b.g.scopes[list[0].scope as int].owner == Some(o)
        }),
        leads_down(b.g, o, path),
    ensures
        exposed_in(b, view).1.contains(path.last()),
{
    reveal(exposed_in);
    let g = b.g;
    let (c, out) = exposed_members(g, b, view, Seq::empty(), 0);
    let (d, list) = import_scopes(g, c, c.open_count(), view);
    let x = ExposeV { b: d, seen: Seq::new(g.ns(), |i: int| false), out };
    lemma_false_count_bound(x.seen);
    let i = list[0];
    let y = exposed_scope(g, x, view, i.entry as int, i.scope, true, g.ns());
    lemma_scope(g, x, view, i.entry as int, i.scope, g.ns());
    assert(exposed_imports(g, y, view, list, 1) == y);
    assert(exposed_imports(g, x, view, list, 0) == y);
    assert(done_with(g, y, i.scope as int));
    lemma_all_down(g, x, y, o, i.scope, path, path.len() as int);
}

proof fn lemma_all_down(g: BV, x: ExposeV, y: ExposeV, o: usize, sc: usize, path: Seq<usize>, n: int)
    requires
        g.wf(),
        x.seen.len() == g.ns(),
        forall|q: int| 0 <= q < x.seen.len() ==> !#[trigger] x.seen[q],
        grows(g, x, y),
        sc < g.ns(),
        g.scopes[sc as int].owner == Some(o),
        y.seen[sc as int],
        leads_down(g, o, path),
        0 < n <= path.len(),
    ensures
        y.out.contains(path[n - 1]),
        g.elements[path[n - 1] as int].notes.scope matches Some(sub) ==> y.seen[sub as int],
    decreases n,
{
    if n == 1 {
        assert(done_with(g, y, sc as int));
        assert(owns(g, o, path[0]));
    } else {
        lemma_all_down(g, x, y, o, sc, path, n - 1);
        let p = path[n - 2];
        assert(has_body(g, p) && owns(g, p, path[n - 2 + 1]));
        assert(p < g.n()) by {
            if n > 2 {
                assert(has_body(g, path[n - 3]) && owns(g, path[n - 3], path[n - 3 + 1]));
            }
        }
        lemma_body_in_range(g, p);
        let sub = g.elements[p as int].notes.scope->0;
        assert(y.seen[sub as int]);
        assert(done_with(g, y, sub as int));
    }
}

proof fn lemma_flat(
    g: BV,
    x: ExposeV,
    view: usize,
    entry: int,
    s: Seq<usize>,
    k: int,
    fuel: nat,
    m: usize,
)
    requires
        unconditional(g, view),
        0 <= entry < g.scopes[view as int].imports.len(),
        fuel > 0,
        0 <= k <= s.len(),
    ensures
        exposed_list(g, x, view, entry, s, k, false, fuel).out.contains(m) <==> x.out.contains(m)
            || s.skip(k).contains(m),
    decreases s.len() - k,
{
    if k < s.len() {
        lemma_admitted(g, x.b, x.b.open_count(), view, entry, s[k]);
        let x1 = ExposeV { out: with_one(x.out, s[k]), ..x };
        lemma_with_one(x.out, s[k], m);
        lemma_flat(g, x1, view, entry, s, k + 1, fuel, m);
        assert(exposed_list(g, x, view, entry, s, k, false, fuel) == exposed_list(
            g,
            x1,
            view,
            entry,
            s,
            k + 1,
            false,
            fuel,
        ));
        assert(s.skip(k).contains(m) <==> s[k] == m || s.skip(k + 1).contains(m)) by {
            if s.skip(k).contains(m) {
                let q = choose|q: int| 0 <= q < s.skip(k).len() && s.skip(k)[q] == m;
                if q > 0 {
                    assert(s.skip(k + 1)[q - 1] == m);
                }
            }
            if s[k] == m {
                assert(s.skip(k)[0] == m);
            }
            let more = s.skip(k + 1);
            if more.contains(m) {
                let q = choose|q: int| 0 <= q < more.len() && more[q] == m;
                assert(s.skip(k)[q + 1] == m);
            }
        }
    }
}

/// A view with one plain expose of a namespace, and no conditions, exposes the
/// members of the namespace and nothing in them.
pub proof fn law_plain_exposes_stay_on_one_level(b: RV, view: usize, o: usize, m: usize)
    requires
        b.g.wf(),
        unconditional(b.g, view),
        b.g.scopes[view as int].member_imports.len() == 0,
        ({
            let list = import_scopes(b.g, b, b.open_count(), view).1;
            &&& list.len() == 1
            &&& list[0].entry < b.g.scopes[view as int].imports.len()
            &&& !b.g.scopes[view as int].imports[list[0].entry as int].recursive
            &&& list[0].scope < b.g.ns()
            &&& b.g.scopes[list[0].scope as int].owner == Some(o)
        }),
    ensures
        exposed_in(b, view).1.contains(m) <==> owns(b.g, o, m),
{
    reveal(exposed_in);
    reveal(BV::wf);
    let g = b.g;
    assert(exposed_members(g, b, view, Seq::empty(), 0) == (b, Seq::<usize>::empty()));
    let (d, list) = import_scopes(g, b, b.open_count(), view);
    let x = ExposeV { b: d, seen: Seq::new(g.ns(), |i: int| false), out: Seq::empty() };
    let i = list[0];
    let y = exposed_scope(g, x, view, i.entry as int, i.scope, false, g.ns());
    assert(exposed_imports(g, y, view, list, 1) == y);
    assert(exposed_imports(g, x, view, list, 0) == y);
    let ms = members_from(g, o, 0);
    let x1 = ExposeV { seen: x.seen.update(i.scope as int, true), ..x };
    assert(y == exposed_list(g, x1, view, i.entry as int, ms, 0, false, g.ns()));
    lemma_flat(g, x1, view, i.entry as int, ms, 0, g.ns(), m);
    assert(ms.skip(0) =~= ms);
    lemma_members(g, o, 0, m);
}

/// A view with one expose of a member, and no conditions, exposes what the
/// expose names.
pub proof fn law_member_exposes_show_what_they_name(b: RV, view: usize)
    requires
        unconditional(b.g, view),
        b.g.scopes[view as int].member_imports.len() == 1,
        ({
            let (c, _) = resolve(
                b.g,
                b,
                b.open_count(),
                view,
                b.g.scopes[view as int].member_imports[0].target,
                0,
            );
            import_scopes(b.g, c, c.open_count(), view).1.len() == 0
        }),
    ensures
        exposed_in(b, view).1 == (match resolve(
            b.g,
            b,
            b.open_count(),
            view,
            b.g.scopes[view as int].member_imports[0].target,
            0,
        ).1 {
            Some(e) => seq![e],
            None => Seq::empty(),
        }),
{
    reveal(exposed_in);
    let g = b.g;
    let (c, hit) = resolve(
        g,
        b,
        b.open_count(),
        view,
        g.scopes[view as int].member_imports[0].target,
        0,
    );
    let none = Seq::<usize>::empty();
    assert(g.scopes[view as int].member_imports[0].filters.len() == 0);
    match hit {
        Some(e) => {
            lemma_admitted(g, c, c.open_count(), view, 0, e);
            assert(with_one(none, e) =~= seq![e]);
            assert(exposed_members(g, c, view, seq![e], 1) == (c, seq![e]));
            assert(exposed_members(g, b, view, none, 0) == (c, seq![e]));
        },
        None => {
            assert(exposed_members(g, c, view, none, 1) == (c, none));
            assert(exposed_members(g, b, view, none, 0) == (c, none));
        },
    }
}

} // verus!
