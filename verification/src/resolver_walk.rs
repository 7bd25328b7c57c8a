//! Walks along specializations that resolve names on the way.

use crate::resolution;
use crate::rpure::with_new;
use crate::rstate::{
    Resolver, false_count, lemma_false_count_bound, lemma_false_count_update, lemma_false_positive,
};
use crate::state::all_below;
use vstd::prelude::*;

verus! {

/// Whether a list holds an index.
fn holds(v: &Vec<usize>, t: usize) -> (r: bool)
    ensures
        r == v@.contains(t),
{
    let mut k: usize = 0;
    while k < v.len()
        invariant
            k <= v@.len(),
            forall|j: int| 0 <= j < k ==> v@[j] != t,
        decreases v@.len() - k,
    {
        if v[k] == t {
            return true;
        }
        k += 1;
    }
    false
}

impl Resolver {
    /// The elements an element explicitly specializes, each once.
    pub fn supers(&mut self, Ghost(m): Ghost<nat>, e: usize) -> (r: Vec<usize>)
        requires
            old(self)@.wf(),
            old(self)@.open_count() <= m,
            e < old(self)@.n(),
        ensures
            (final(self)@, r@) == resolution::supers(old(self)@.g, old(self)@, m, e),
            final(self)@.wf(),
            final(self)@.g == old(self)@.g,
            final(self)@.lib_boundary == old(self)@.lib_boundary,
            final(self)@.open_count() <= old(self)@.open_count(),
            all_below(r@, final(self)@.n()),
        decreases m, 100nat, 45int, 0int, 0int,
    {
        let ghost g = self@.g;
        let n: usize = self.spec_count();
        let mut acc: Vec<usize> = Vec::new();
        let mut i: usize = 0;
        assert(acc@ =~= Seq::<usize>::empty());
        while i < n
            invariant
                i <= n,
                n == g.spec_targets.len(),
                e < self@.n(),
                self@.wf(),
                self@.g == g,
                self@.lib_boundary == old(self)@.lib_boundary,
                self@.open_count() <= old(self)@.open_count() <= m,
                all_below(acc@, self@.n()),
                resolution::supers_from(g, self@, m, e, i as int, acc@) == resolution::supers_from(
                    g,
                    old(self)@,
                    m,
                    e,
                    0,
                    Seq::empty(),
                ),
            decreases n - i,
        {
            if self.spec_elem(i) == e && self.spec_is_upward(i) {
                let known = self.read_resolved(i);
                if let Some(t) = known {
                    acc = with_new(acc, Some(t), e);
                } else {
                    let qn = self.spec_qn(i);
                    let scope: usize = self.spec_scope(i);
                    let t = self.resolve(Ghost(m), scope, &qn, 0);
                    acc = with_new(acc, t, e);
                }
            }
            i += 1;
        }
        acc
    }

    /// Whether `target` follows from `e` over explicit specializations.
    pub fn conforms_upward(&mut self, Ghost(m): Ghost<nat>, e: usize, target: usize) -> (r: bool)
        requires
            old(self)@.wf(),
            old(self)@.open_count() <= m,
            e < old(self)@.n(),
            target < old(self)@.n(),
        ensures
            (final(self)@, r) == resolution::conforms_upward(old(self)@.g, old(self)@, m, e, target),
            final(self)@.wf(),
            final(self)@.g == old(self)@.g,
            final(self)@.lib_boundary == old(self)@.lib_boundary,
            final(self)@.open_count() <= old(self)@.open_count(),
        decreases m, 100nat, 47int, 0int, 0int,
    {
        if e == target {
            return true;
        }
        let ghost g = self@.g;
        proof {
            reveal(Resolver::view);
        }
        let n: usize = self.graph.count();
        let mut seen: Vec<bool> = Vec::new();
        let mut i: usize = 0;
        while i < n
            invariant
                i <= n,
                seen@.len() == i,
                forall|k: int| 0 <= k < i ==> !seen@[k],
            decreases n - i,
        {
            seen.push(false);
            i += 1;
        }
        assert(seen@ =~= Seq::new(g.n(), |i: int| false));
        let mut stack: Vec<usize> = Vec::new();
        stack.push(e);
        assert(stack@ =~= seq![e]);
        proof {
            lemma_false_count_bound(seen@);
        }
        self.conforms_walk(Ghost(m), stack, seen, target, Ghost(n as nat))
    }

    fn conforms_walk(
        &mut self,
        Ghost(m): Ghost<nat>,
        stack: Vec<usize>,
        seen: Vec<bool>,
        target: usize,
        Ghost(fuel): Ghost<nat>,
    ) -> (r: bool)
        requires
            old(self)@.wf(),
            old(self)@.open_count() <= m,
            all_below(stack@, old(self)@.n()),
            seen@.len() == old(self)@.n(),
            target < old(self)@.n(),
            false_count(seen@) <= fuel,
        ensures
            (final(self)@, r) == resolution::conforms_from(
                old(self)@.g,
                old(self)@,
                m,
                stack@,
                seen@,
                target,
                fuel,
            ),
            final(self)@.wf(),
            final(self)@.g == old(self)@.g,
            final(self)@.lib_boundary == old(self)@.lib_boundary,
            final(self)@.open_count() <= old(self)@.open_count(),
        decreases m, 100nat, 46int, fuel, stack@.len(),
    {
        let mut rest = stack;
        match rest.pop() {
            Some(x) => {
                assert(rest@ =~= stack@.drop_last());
                assert(x == stack@.last());
                if seen[x] {
                    return self.conforms_walk(Ghost(m), rest, seen, target, Ghost(fuel));
                }
                proof {
                    lemma_false_positive(seen@, x as int);
                    lemma_false_count_update(seen@, x as int, true);
                }
                let mut list = self.supers(Ghost(m), x);
                if holds(&list, target) {
                    return true;
                }
                let ghost list0 = list@;
                let mut marked = seen;
                marked.set(x, true);
                rest.append(&mut list);
                assert(rest@ =~= stack@.drop_last() + list0);
                self.conforms_walk(Ghost(m), rest, marked, target, Ghost((fuel - 1) as nat))
            },
            None => false,
        }
    }

    /// The declared types of an element, each once, in declaration order.
    pub fn direct_typings(&mut self, Ghost(m): Ghost<nat>, e: usize) -> (r: Vec<usize>)
        requires
            old(self)@.wf(),
            old(self)@.open_count() <= m,
            e < old(self)@.n(),
        ensures
            (final(self)@, r@) == resolution::direct_typings(old(self)@.g, old(self)@, m, e),
            final(self)@.wf(),
            final(self)@.g == old(self)@.g,
            final(self)@.lib_boundary == old(self)@.lib_boundary,
            final(self)@.open_count() <= old(self)@.open_count(),
            all_below(r@, final(self)@.n()),
        decreases m, 100nat, 48int, 0int, 0int,
    {
        let ghost g = self@.g;
        self.supers(Ghost(m), e);
        let ghost start = self@;
        let n: usize = self.spec_count();
        let mut acc: Vec<usize> = Vec::new();
        let mut i: usize = 0;
        assert(acc@ =~= Seq::<usize>::empty());
        while i < n
            invariant
                i <= n,
                n == g.spec_targets.len(),
                e < self@.n(),
                self@.wf(),
                self@.g == g,
                self@.lib_boundary == old(self)@.lib_boundary,
                self@.open_count() <= old(self)@.open_count() <= m,
                all_below(acc@, self@.n()),
                resolution::typings_from(g, self@, m, e, i as int, acc@) == resolution::typings_from(
                    g,
                    start,
                    m,
                    e,
                    0,
                    Seq::empty(),
                ),
            decreases n - i,
        {
            if self.spec_elem(i) == e && self.spec_is(i, "FeatureTyping") {
                let qn = self.spec_qn(i);
                let scope: usize = self.spec_scope(i);
                let t = self.resolve(Ghost(m), scope, &qn, 0);
                if let Some(x) = t {
                    let mut known = false;
                    let mut k: usize = 0;
                    while k < acc.len()
                        invariant
                            k <= acc@.len(),
                            known <==> exists|j: int| 0 <= j < k && acc@[j] == x,
                        decreases acc@.len() - k,
                    {
                        if acc[k] == x {
                            known = true;
                        }
                        k += 1;
                    }
                    assert(known <==> acc@.contains(x));
                    if !known {
                        acc.push(x);
                    }
                }
            }
            i += 1;
        }
        acc
    }

    fn reaches(
        &mut self,
        Ghost(m): Ghost<nat>,
        scope: usize,
        target: usize,
        seen: &mut Vec<bool>,
        Ghost(fuel): Ghost<nat>,
    ) -> (r: bool)
        requires
            old(self)@.wf(),
            old(self)@.open_count() <= m,
            scope < old(self)@.ns(),
            old(seen)@.len() == old(self)@.ns(),
            false_count(old(seen)@) <= fuel,
        ensures
            (final(self)@, r, final(seen)@) == resolution::reaches(
                old(self)@.g,
                old(self)@,
                m,
                scope,
                target,
                old(seen)@,
                fuel,
            ),
            final(seen)@.len() == old(seen)@.len(),
            false_count(final(seen)@) <= false_count(old(seen)@),
            final(self)@.wf(),
            final(self)@.g == old(self)@.g,
            final(self)@.lib_boundary == old(self)@.lib_boundary,
            final(self)@.open_count() <= old(self)@.open_count(),
        decreases m, 0nat, 33int, fuel, 0int,
    {
        if seen[scope] {
            return false;
        }
        proof {
            lemma_false_positive(seen@, scope as int);
            lemma_false_count_update(seen@, scope as int, true);
        }
        let list = self.base_scopes(Ghost(m), scope);
        seen.set(scope, true);
        self.reaches_any(Ghost(m), &list, 0, target, seen, Ghost((fuel - 1) as nat))
    }

    fn reaches_any(
        &mut self,
        Ghost(m): Ghost<nat>,
        list: &Vec<usize>,
        k: usize,
        target: usize,
        seen: &mut Vec<bool>,
        Ghost(fuel): Ghost<nat>,
    ) -> (r: bool)
        requires
            old(self)@.wf(),
            old(self)@.open_count() <= m,
            all_below(list@, old(self)@.ns()),
            k <= list@.len(),
            old(seen)@.len() == old(self)@.ns(),
            false_count(old(seen)@) <= fuel,
        ensures
            (final(self)@, r, final(seen)@) == resolution::reaches_any(
                old(self)@.g,
                old(self)@,
                m,
                list@,
                k as int,
                target,
                old(seen)@,
                fuel,
            ),
            final(seen)@.len() == old(seen)@.len(),
            false_count(final(seen)@) <= false_count(old(seen)@),
            final(self)@.wf(),
            final(self)@.g == old(self)@.g,
            final(self)@.lib_boundary == old(self)@.lib_boundary,
            final(self)@.open_count() <= old(self)@.open_count(),
        decreases m, 0nat, 33int, fuel, list@.len() - k + 1,
    {
        if k < list.len() {
            if list[k] == target {
                true
            } else {
                let hit = self.reaches(Ghost(m), list[k], target, seen, Ghost(fuel));
                if hit {
                    true
                } else {
                    self.reaches_any(Ghost(m), list, k + 1, target, seen, Ghost(fuel))
                }
            }
        } else {
            false
        }
    }

    /// Whether a scope inherits, over any number of steps, from another.
    pub fn reaches_base(&mut self, Ghost(m): Ghost<nat>, scope: usize, target: usize) -> (r: bool)
        requires
            old(self)@.wf(),
            old(self)@.open_count() <= m,
            scope < old(self)@.ns(),
            target < old(self)@.ns(),
        ensures
            (final(self)@, r) == resolution::reaches_base(old(self)@.g, old(self)@, m, scope, target),
            final(self)@.wf(),
            final(self)@.g == old(self)@.g,
            final(self)@.lib_boundary == old(self)@.lib_boundary,
            final(self)@.open_count() <= old(self)@.open_count(),
        decreases m, 0nat, 34int, 0int, 0int,
    {
        proof {
            reveal(Resolver::view);
        }
        let n: usize = self.graph.scope_count();
        let mut seen: Vec<bool> = Vec::new();
        let mut i: usize = 0;
        while i < n
            invariant
                i <= n,
                seen@.len() == i,
                forall|k: int| 0 <= k < i ==> !seen@[k],
            decreases n - i,
        {
            seen.push(false);
            i += 1;
        }
        assert(seen@ =~= Seq::new(self@.g.ns(), |i: int| false));
        proof {
            lemma_false_count_bound(seen@);
        }
        self.reaches(Ghost(m), scope, target, &mut seen, Ghost(n as nat))
    }
}

} // verus!
