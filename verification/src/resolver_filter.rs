//! Import filters: whether a condition hides an element.

use crate::ast::QualifiedName;
use crate::resolution;
use crate::rpure::{room, if_true};
use crate::rstate::{Resolver, Tri, lemma_false_positive};
use crate::state::below;
use vstd::prelude::*;

verus! {

impl Resolver {
    /// The conditions of a member import and of its scope, from the `k`-th on:
    /// an element is hidden only by a condition that is false of it.
    pub fn admits_by_member(
        &mut self,
        Ghost(m): Ghost<nat>,
        s: usize,
        i: usize,
        elem: usize,
        depth: usize,
        k: usize,
    ) -> (r: bool)
        requires
            old(self)@.wf(),
            old(self)@.open_count() <= m,
            s < old(self)@.ns(),
            elem < old(self)@.n(),
            i < old(self)@.g.scopes[s as int].member_imports.len() && k <= old(self)@.g.scopes[s as int].member_imports[i as int].filters.len(),
        ensures
            (final(self)@, r) == resolution::admits_by_member(
                old(self)@.g,
                old(self)@,
                m,
                s,
                i as int,
                elem,
                depth,
                k as int,
            ),
            final(self)@.wf(),
            final(self)@.g == old(self)@.g,
            final(self)@.lib_boundary == old(self)@.lib_boundary,
            final(self)@.open_count() <= old(self)@.open_count(),
        decreases m, room(depth), 34int, old(self)@.g.scopes[s as int].member_imports[i as int].filters.len() - k, 1int,
    {
        proof {
            reveal(resolution::admits_by_member_step);
            assert(
                resolution::admits_by_member(old(self)@.g, old(self)@, m, s, i as int, elem, depth, k as int) == resolution::admits_by_member_step(
                    old(self)@.g,
                    old(self)@,
                    m,
                    s,
                    i as int,
                    elem,
                    depth,
                    k as int,
                )
            );
        }
        if k >= self.member_filter_count(s, i) {
            self.admits_by_scope(Ghost(m), s, elem, depth, 0)
        } else {
            let v = self.filter_verdict(Ghost(m), self.member_filter(s, i, k), elem, depth);
            if v == Tri::False {
                false
            } else {
                self.admits_by_member(Ghost(m), s, i, elem, depth, k + 1)
            }
        }
    }

    /// The conditions of a namespace import and of its scope, from the `k`-th
    /// on.
    pub fn admits_by_import(
        &mut self,
        Ghost(m): Ghost<nat>,
        s: usize,
        i: usize,
        elem: usize,
        depth: usize,
        k: usize,
    ) -> (r: bool)
        requires
            old(self)@.wf(),
            old(self)@.open_count() <= m,
            s < old(self)@.ns(),
            elem < old(self)@.n(),
            i < old(self)@.g.scopes[s as int].imports.len() && k <= old(self)@.g.scopes[s as int].imports[i as int].filters.len(),
        ensures
            (final(self)@, r) == resolution::admits_by_import(
                old(self)@.g,
                old(self)@,
                m,
                s,
                i as int,
                elem,
                depth,
                k as int,
            ),
            final(self)@.wf(),
            final(self)@.g == old(self)@.g,
            final(self)@.lib_boundary == old(self)@.lib_boundary,
            final(self)@.open_count() <= old(self)@.open_count(),
        decreases m, room(depth), 34int, old(self)@.g.scopes[s as int].imports[i as int].filters.len() - k, 1int,
    {
        proof {
            reveal(resolution::admits_by_import_step);
            assert(
                resolution::admits_by_import(old(self)@.g, old(self)@, m, s, i as int, elem, depth, k as int) == resolution::admits_by_import_step(
                    old(self)@.g,
                    old(self)@,
                    m,
                    s,
                    i as int,
                    elem,
                    depth,
                    k as int,
                )
            );
        }
        if k >= self.import_filter_count(s, i) {
            self.admits_by_scope(Ghost(m), s, elem, depth, 0)
        } else {
            let v = self.filter_verdict(Ghost(m), self.import_filter(s, i, k), elem, depth);
            if v == Tri::False {
                false
            } else {
                self.admits_by_import(Ghost(m), s, i, elem, depth, k + 1)
            }
        }
    }

    /// The filter members of a scope, from the `k`-th on.
    pub fn admits_by_scope(
        &mut self,
        Ghost(m): Ghost<nat>,
        s: usize,
        elem: usize,
        depth: usize,
        k: usize,
    ) -> (r: bool)
        requires
            old(self)@.wf(),
            old(self)@.open_count() <= m,
            s < old(self)@.ns(),
            elem < old(self)@.n(),
            k <= old(self)@.g.scopes[s as int].filters.len(),
        ensures
            (final(self)@, r) == resolution::admits_by_scope(
                old(self)@.g,
                old(self)@,
                m,
                s,
                elem,
                depth,
                k as int,
            ),
            final(self)@.wf(),
            final(self)@.g == old(self)@.g,
            final(self)@.lib_boundary == old(self)@.lib_boundary,
            final(self)@.open_count() <= old(self)@.open_count(),
        decreases m, room(depth), 33int, old(self)@.g.scopes[s as int].filters.len() - k, 1int,
    {
        proof {
            reveal(resolution::admits_by_scope_step);
            assert(
                resolution::admits_by_scope(old(self)@.g, old(self)@, m, s, elem, depth, k as int) == resolution::admits_by_scope_step(
                    old(self)@.g,
                    old(self)@,
                    m,
                    s,
                    elem,
                    depth,
                    k as int,
                )
            );
        }
        if k >= self.scope_filter_count(s) {
            true
        } else {
            let v = self.filter_verdict(Ghost(m), self.scope_filter(s, k), elem, depth);
            if v == Tri::False {
                false
            } else {
                self.admits_by_scope(Ghost(m), s, elem, depth, k + 1)
            }
        }
    }

    /// The verdict of a filter on an element; a filter being evaluated is
    /// undecided.
    pub fn filter_verdict(
        &mut self,
        Ghost(m): Ghost<nat>,
        f: usize,
        elem: usize,
        depth: usize,
    ) -> (r: Tri)
        requires
            old(self)@.wf(),
            old(self)@.open_count() <= m,
            elem < old(self)@.n(),
            f < old(self)@.g.filter_exprs.len(),
        ensures
            (final(self)@, r) == resolution::filter_verdict(old(self)@.g, old(self)@, m, f, elem, depth),
            final(self)@.wf(),
            final(self)@.g == old(self)@.g,
            final(self)@.lib_boundary == old(self)@.lib_boundary,
            final(self)@.open_count() <= old(self)@.open_count(),
        decreases m, room(depth), 32int, 0int, 1int,
    {
        proof {
            reveal(resolution::filter_verdict_step);
            assert(
                resolution::filter_verdict(old(self)@.g, old(self)@, m, f, elem, depth) == resolution::filter_verdict_step(
                    old(self)@.g,
                    old(self)@,
                    m,
                    f,
                    elem,
                    depth,
                )
            );
        }
        if depth > 24 || self.filter_active(f) {
            Tri::Unknown
        } else {
            proof { crate::rstate::lemma_table_sizes(self@); crate::rstate::lemma_false_positive(self@.filters_active, f as int); }
            self.set_filter_active(f, true);
            let expr = self.filter_expr(f);
            let out = self.expr_verdict(Ghost((m - 1) as nat), &expr, self.filter_scope(f), elem, depth);
            self.set_filter_active(f, false);
            out
        }
    }

    /// `@M`: whether the element carries an annotation of `M`, or is an
    /// instance of the reflected metaclass `M`.
    pub fn metadata_test(
        &mut self,
        Ghost(m): Ghost<nat>,
        scope: usize,
        qn: &QualifiedName,
        elem: usize,
        depth: usize,
    ) -> (r: Tri)
        requires
            old(self)@.wf(),
            old(self)@.open_count() <= m,
            scope < old(self)@.ns(),
            elem < old(self)@.n(),
            depth <= 24,
        ensures
            (final(self)@, r) == resolution::metadata_test(
                old(self)@.g,
                old(self)@,
                m,
                scope,
                qn@,
                elem,
                depth,
            ),
            final(self)@.wf(),
            final(self)@.g == old(self)@.g,
            final(self)@.lib_boundary == old(self)@.lib_boundary,
            final(self)@.open_count() <= old(self)@.open_count(),
        decreases m, 100nat, 58int, 0int, 1int,
    {
        proof {
            reveal(resolution::metadata_test_step);
            assert(
                resolution::metadata_test(old(self)@.g, old(self)@, m, scope, qn@, elem, depth) == resolution::metadata_test_step(
                    old(self)@.g,
                    old(self)@,
                    m,
                    scope,
                    qn@,
                    elem,
                    depth,
                )
            );
        }
        let target = self.resolve(Ghost(m), scope, qn, depth + 1);
        match target {
            Some(t) => {
                self.metadata_conforms(Ghost(m), t, elem, 0)
            },
            None => {
                Tri::Unknown
            },
        }
    }

    /// The annotations of an element from the `k`-th on against a metadata
    /// definition, then its own metaclass where the definition reflects one.
    pub fn metadata_conforms(
        &mut self,
        Ghost(m): Ghost<nat>,
        target: usize,
        elem: usize,
        k: usize,
    ) -> (r: Tri)
        requires
            old(self)@.wf(),
            old(self)@.open_count() <= m,
            target < old(self)@.n(),
            elem < old(self)@.n(),
            k <= old(self)@.g.elements[elem as int].notes.metadata.len(),
        ensures
            (final(self)@, r) == resolution::metadata_conforms(
                old(self)@.g,
                old(self)@,
                m,
                target,
                elem,
                k as int,
            ),
            final(self)@.wf(),
            final(self)@.g == old(self)@.g,
            final(self)@.lib_boundary == old(self)@.lib_boundary,
            final(self)@.open_count() <= old(self)@.open_count(),
        decreases m, 100nat, 56int, old(self)@.g.elements[elem as int].notes.metadata.len() - k, 1int,
    {
        proof {
            reveal(resolution::metadata_conforms_step);
            assert(
                resolution::metadata_conforms(old(self)@.g, old(self)@, m, target, elem, k as int) == resolution::metadata_conforms_step(
                    old(self)@.g,
                    old(self)@,
                    m,
                    target,
                    elem,
                    k as int,
                )
            );
        }
        if k >= self.metadata_count(elem) {
            let bound = self.read_lib_boundary();
            if self.is_reflection(bound, target) {
                self.metaclass_test(Ghost(m), target, elem)
            } else {
                Tri::False
            }
        } else {
            let hit = self.conforms_upward(Ghost(m), self.metadata_at(elem, k), target);
            if hit {
                Tri::True
            } else {
                self.metadata_conforms(Ghost(m), target, elem, k + 1)
            }
        }
    }

    /// Whether the metaclass of an element is, or specializes, a reflected one.
    pub fn metaclass_test(&mut self, Ghost(m): Ghost<nat>, target: usize, elem: usize) -> (r: Tri)
        requires
            old(self)@.wf(),
            old(self)@.open_count() <= m,
            target < old(self)@.n(),
            elem < old(self)@.n(),
        ensures
            (final(self)@, r) == resolution::metaclass_test(old(self)@.g, old(self)@, m, target, elem),
            final(self)@.wf(),
            final(self)@.g == old(self)@.g,
            final(self)@.lib_boundary == old(self)@.lib_boundary,
            final(self)@.open_count() <= old(self)@.open_count(),
        decreases m, 100nat, 55int, 0int, 1int,
    {
        proof {
            reveal(resolution::metaclass_test_step);
            assert(
                resolution::metaclass_test(old(self)@.g, old(self)@, m, target, elem) == resolution::metaclass_test_step(
                    old(self)@.g,
                    old(self)@,
                    m,
                    target,
                    elem,
                )
            );
        }
        let sibling = self.sibling_metaclass(target, elem);
        match sibling {
            Some(me) => {
                let hit = self.conforms_upward(Ghost(m), me, target);
                if_true(hit)
            },
            None => {
                let found = self.reflection_metaclass(Ghost(m), elem);
                match found {
                    Some(me) => {
                        let hit = self.conforms_upward(Ghost(m), me, target);
                        if_true(hit)
                    },
                    None => {
                        Tri::Unknown
                    },
                }
            },
        }
    }

    /// The reflection library's element for the metaclass of an element: of
    /// SysML, else of KerML.
    pub fn reflection_metaclass(&mut self, Ghost(m): Ghost<nat>, elem: usize) -> (r: Option<usize>)
        requires
            old(self)@.wf(),
            old(self)@.open_count() <= m,
            elem < old(self)@.n(),
        ensures
            (final(self)@, r) == resolution::reflection_metaclass(old(self)@.g, old(self)@, m, elem),
            final(self)@.wf(),
            final(self)@.g == old(self)@.g,
            final(self)@.lib_boundary == old(self)@.lib_boundary,
            final(self)@.open_count() <= old(self)@.open_count(),
            below(r, final(self)@.n()),
        decreases m, 100nat, 54int, 0int, 1int,
    {
        proof {
            reveal(resolution::reflection_metaclass_step);
            assert(
                resolution::reflection_metaclass(old(self)@.g, old(self)@, m, elem) == resolution::reflection_metaclass_step(
                    old(self)@.g,
                    old(self)@,
                    m,
                    elem,
                )
            );
        }
        let first = self.reflection_name(true, elem);
        let hit = self.resolve(Ghost(m), self.root(), &first, 0);
        match hit {
            Some(t) => {
                Some(t)
            },
            None => {
                let second = self.reflection_name(false, elem);
                self.resolve(Ghost(m), self.root(), &second, 0)
            },
        }
    }

    /// `(as M).attr`: the truth value an element's `M` annotation binds.
    pub fn attr_verdict(
        &mut self,
        Ghost(m): Ghost<nat>,
        scope: usize,
        meta: &QualifiedName,
        attr: &str,
        elem: usize,
        depth: usize,
    ) -> (r: Tri)
        requires
            old(self)@.wf(),
            old(self)@.open_count() <= m,
            scope < old(self)@.ns(),
            elem < old(self)@.n(),
            depth <= 24,
        ensures
            (final(self)@, r) == resolution::attr_verdict(
                old(self)@.g,
                old(self)@,
                m,
                scope,
                meta@,
                attr@,
                elem,
                depth,
            ),
            final(self)@.wf(),
            final(self)@.g == old(self)@.g,
            final(self)@.lib_boundary == old(self)@.lib_boundary,
            final(self)@.open_count() <= old(self)@.open_count(),
        decreases m, 100nat, 58int, 0int, 1int,
    {
        proof {
            reveal(resolution::attr_verdict_step);
            assert(
                resolution::attr_verdict(old(self)@.g, old(self)@, m, scope, meta@, attr@, elem, depth) == resolution::attr_verdict_step(
                    old(self)@.g,
                    old(self)@,
                    m,
                    scope,
                    meta@,
                    attr@,
                    elem,
                    depth,
                )
            );
        }
        let target = self.resolve(Ghost(m), scope, meta, depth + 1);
        match target {
            Some(t) => {
                self.attr_from(Ghost(m), t, attr, elem, 0)
            },
            None => {
                Tri::Unknown
            },
        }
    }

    /// The annotations of an element from the `k`-th on that are of the
    /// definition.
    pub fn attr_from(
        &mut self,
        Ghost(m): Ghost<nat>,
        target: usize,
        attr: &str,
        elem: usize,
        k: usize,
    ) -> (r: Tri)
        requires
            old(self)@.wf(),
            old(self)@.open_count() <= m,
            target < old(self)@.n(),
            elem < old(self)@.n(),
            k <= old(self)@.g.elements[elem as int].notes.metadata.len(),
        ensures
            (final(self)@, r) == resolution::attr_from(
                old(self)@.g,
                old(self)@,
                m,
                target,
                attr@,
                elem,
                k as int,
            ),
            final(self)@.wf(),
            final(self)@.g == old(self)@.g,
            final(self)@.lib_boundary == old(self)@.lib_boundary,
            final(self)@.open_count() <= old(self)@.open_count(),
        decreases m, 100nat, 56int, old(self)@.g.elements[elem as int].notes.metadata.len() - k, 1int,
    {
        proof {
            reveal(resolution::attr_from_step);
            assert(
                resolution::attr_from(old(self)@.g, old(self)@, m, target, attr@, elem, k as int) == resolution::attr_from_step(
                    old(self)@.g,
                    old(self)@,
                    m,
                    target,
                    attr@,
                    elem,
                    k as int,
                )
            );
        }
        if k >= self.metadata_count(elem) {
            Tri::False
        } else {
            let ann = self.metadata_at(elem, k);
            let hit = self.conforms_upward(Ghost(m), ann, target);
            if hit {
                self.attr_member(ann, attr)
            } else {
                self.attr_from(Ghost(m), target, attr, elem, k + 1)
            }
        }
    }
}

} // verus!
