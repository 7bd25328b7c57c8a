//! The scopes a scope inherits from.

use crate::names::LookupAccess;
use crate::resolution;
use crate::rpure::{
    no_scopes, no_elems, or_self, duplicate, with_other, with_new, no_names, semantic_qn,
    semantic_base_ref,
};
use crate::rstate::{LookupResult, Resolver};
use crate::state::{all_below, below};
use vstd::prelude::*;

verus! {

impl Resolver {
    /// The inherited scopes of a scope: the bodies of the elements its owner
    /// specializes. Computed once; while it is computed there are none.
    pub fn base_scopes(&mut self, Ghost(m): Ghost<nat>, s: usize) -> (r: Vec<usize>)
        requires
            old(self)@.wf(),
            old(self)@.open_count() <= m,
            s < old(self)@.ns(),
        ensures
            (final(self)@, r@) == resolution::base_scopes(old(self)@.g, old(self)@, m, s),
            final(self)@.wf(),
            final(self)@.g == old(self)@.g,
            final(self)@.lib_boundary == old(self)@.lib_boundary,
            final(self)@.open_count() <= old(self)@.open_count(),
            all_below(r@, final(self)@.ns()),
        decreases m, 0nat, 30int, 0int, 1int,
    {
        proof {
            reveal(resolution::base_scopes_step);
            assert(
                resolution::base_scopes(old(self)@.g, old(self)@, m, s) == resolution::base_scopes_step(
                    old(self)@.g,
                    old(self)@,
                    m,
                    s,
                )
            );
        }
        match self.base_cache(s) {
            Some(v) => {
                self.recall_bases(s);
                v
            },
            None => {
                proof { crate::rstate::lemma_table_sizes(self@); crate::rstate::lemma_none_positive(self@.bases, s as int); }
                let outer = self.missed();
                self.clear_missed();
                self.set_base_cache(s, no_scopes());
                let from = or_self(self.scope_parent(s), s);
                let saved = self.read_exclude();
                self.set_exclude(self.scope_owner(s));
                let named = self.bases_from(Ghost((m - 1) as nat), s, from, 0, no_scopes());
                let chained = self.chain_bases_from(Ghost((m - 1) as nat), s, from, 0, named);
                self.set_exclude(saved);
                let all = self.with_semantic(Ghost((m - 1) as nat), s, self.scope_owner(s), chained);
                let copy = duplicate(&all);
                self.set_base_cache(s, copy);
                self.keep_base_misses(s, outer);
                all
            },
        }
    }

    /// The plain-name bases from the `i`-th on.
    pub fn bases_from(
        &mut self,
        Ghost(m): Ghost<nat>,
        s: usize,
        from: usize,
        i: usize,
        acc: Vec<usize>,
    ) -> (r: Vec<usize>)
        requires
            old(self)@.wf(),
            old(self)@.open_count() <= m,
            s < old(self)@.ns(),
            from < old(self)@.ns(),
            all_below(acc@, old(self)@.ns()),
            i <= old(self)@.g.scopes[s as int].bases.len(),
        ensures
            (final(self)@, r@) == resolution::bases_from(
                old(self)@.g,
                old(self)@,
                m,
                s,
                from,
                i as int,
                acc@,
            ),
            final(self)@.wf(),
            final(self)@.g == old(self)@.g,
            final(self)@.lib_boundary == old(self)@.lib_boundary,
            final(self)@.open_count() <= old(self)@.open_count(),
            all_below(r@, final(self)@.ns()),
        decreases m, 100nat, 50int, old(self)@.g.scopes[s as int].bases.len() - i, 1int,
    {
        proof {
            reveal(resolution::bases_from_step);
            assert(
                resolution::bases_from(old(self)@.g, old(self)@, m, s, from, i as int, acc@) == resolution::bases_from_step(
                    old(self)@.g,
                    old(self)@,
                    m,
                    s,
                    from,
                    i as int,
                    acc@,
                )
            );
        }
        if i >= self.base_count(s) {
            acc
        } else {
            let qn = self.base_at(s, i);
            let hit = self.resolve(Ghost(m), from, &qn, 0);
            let sc = self.scope_of(hit);
            let next = with_other(acc, sc, s);
            self.bases_from(Ghost(m), s, from, i + 1, next)
        }
    }

    /// The chain bases from the `i`-th on: each contributes its last link.
    pub fn chain_bases_from(
        &mut self,
        Ghost(m): Ghost<nat>,
        s: usize,
        from: usize,
        i: usize,
        acc: Vec<usize>,
    ) -> (r: Vec<usize>)
        requires
            old(self)@.wf(),
            old(self)@.open_count() <= m,
            s < old(self)@.ns(),
            from < old(self)@.ns(),
            all_below(acc@, old(self)@.ns()),
            i <= old(self)@.g.scopes[s as int].chain_bases.len(),
        ensures
            (final(self)@, r@) == resolution::chain_bases_from(
                old(self)@.g,
                old(self)@,
                m,
                s,
                from,
                i as int,
                acc@,
            ),
            final(self)@.wf(),
            final(self)@.g == old(self)@.g,
            final(self)@.lib_boundary == old(self)@.lib_boundary,
            final(self)@.open_count() <= old(self)@.open_count(),
            all_below(r@, final(self)@.ns()),
        decreases m, 100nat, 50int, old(self)@.g.scopes[s as int].chain_bases.len() - i, 1int,
    {
        proof {
            reveal(resolution::chain_bases_from_step);
            assert(
                resolution::chain_bases_from(old(self)@.g, old(self)@, m, s, from, i as int, acc@) == resolution::chain_bases_from_step(
                    old(self)@.g,
                    old(self)@,
                    m,
                    s,
                    from,
                    i as int,
                    acc@,
                )
            );
        }
        if i >= self.chain_base_count(s) {
            acc
        } else {
            let links = self.chain_base(s, i);
            let hit = self.resolve_chain(Ghost(m), from, &links, &no_names());
            let sc = self.scope_of(hit);
            let next = with_new(acc, sc, s);
            self.chain_bases_from(Ghost(m), s, from, i + 1, next)
        }
    }

    /// The bases semantic metadata implies, after the written ones.
    pub fn with_semantic(
        &mut self,
        Ghost(m): Ghost<nat>,
        s: usize,
        owner: Option<usize>,
        acc: Vec<usize>,
    ) -> (r: Vec<usize>)
        requires
            old(self)@.wf(),
            old(self)@.open_count() <= m,
            s < old(self)@.ns(),
            below(owner, old(self)@.n()),
            all_below(acc@, old(self)@.ns()),
        ensures
            (final(self)@, r@) == resolution::with_semantic(old(self)@.g, old(self)@, m, s, owner, acc@),
            final(self)@.wf(),
            final(self)@.g == old(self)@.g,
            final(self)@.lib_boundary == old(self)@.lib_boundary,
            final(self)@.open_count() <= old(self)@.open_count(),
            all_below(r@, final(self)@.ns()),
        decreases m, 100nat, 57int, 0int, 1int,
    {
        proof {
            reveal(resolution::with_semantic_step);
            assert(
                resolution::with_semantic(old(self)@.g, old(self)@, m, s, owner, acc@) == resolution::with_semantic_step(
                    old(self)@.g,
                    old(self)@,
                    m,
                    s,
                    owner,
                    acc@,
                )
            );
        }
        match owner {
            Some(o) => {
                let targets = self.semantic_targets(Ghost(m), o);
                self.with_bodies(&targets, s, 0, acc)
            },
            None => {
                acc
            },
        }
    }

    /// The base types the semantic metadata of an element names.
    pub fn semantic_targets(&mut self, Ghost(m): Ghost<nat>, elem: usize) -> (r: Vec<usize>)
        requires
            old(self)@.wf(),
            old(self)@.open_count() <= m,
            elem < old(self)@.n(),
        ensures
            (final(self)@, r@) == resolution::semantic_targets(old(self)@.g, old(self)@, m, elem),
            final(self)@.wf(),
            final(self)@.g == old(self)@.g,
            final(self)@.lib_boundary == old(self)@.lib_boundary,
            final(self)@.open_count() <= old(self)@.open_count(),
            all_below(r@, final(self)@.n()),
        decreases m, 100nat, 56int, 0int, 1int,
    {
        proof {
            reveal(resolution::semantic_targets_step);
            assert(
                resolution::semantic_targets(old(self)@.g, old(self)@, m, elem) == resolution::semantic_targets_step(
                    old(self)@.g,
                    old(self)@,
                    m,
                    elem,
                )
            );
        }
        if self.metadata_count(elem) == 0 {
            no_elems()
        } else {
            let saved_ex = self.read_exclude();
            let saved_mode = self.read_declared_only();
            self.set_exclude(None);
            self.set_declared_only(false);
            let sem = self.semantic_definition(Ghost(m));
            let out = self.semantic_metas(Ghost(m), elem, sem, 0, no_elems());
            self.set_exclude(saved_ex);
            self.set_declared_only(saved_mode);
            out
        }
    }

    /// The library's semantic metadata definition, looked up once.
    pub fn semantic_definition(&mut self, Ghost(m): Ghost<nat>) -> (r: Option<usize>)
        requires
            old(self)@.wf(),
            old(self)@.open_count() <= m,
        ensures
            (final(self)@, r) == resolution::semantic_definition(old(self)@.g, old(self)@, m),
            final(self)@.wf(),
            final(self)@.g == old(self)@.g,
            final(self)@.lib_boundary == old(self)@.lib_boundary,
            final(self)@.open_count() <= old(self)@.open_count(),
            below(r, final(self)@.n()),
        decreases m, 100nat, 53int, 0int, 1int,
    {
        proof {
            reveal(resolution::semantic_definition_step);
            assert(
                resolution::semantic_definition(old(self)@.g, old(self)@, m) == resolution::semantic_definition_step(old(self)@.g, old(self)@, m)
            );
        }
        match self.read_semantic() {
            Some(memo) => {
                self.recall_semantic();
                memo
            },
            None => {
                let outer = self.missed();
                self.clear_missed();
                let hit = self.resolve(Ghost(m), self.root(), &semantic_qn(), 0);
                self.set_semantic(hit);
                self.keep_semantic_misses(outer);
                hit
            },
        }
    }

    /// The annotations of an element from the `k`-th on.
    pub fn semantic_metas(
        &mut self,
        Ghost(m): Ghost<nat>,
        elem: usize,
        sem: Option<usize>,
        k: usize,
        acc: Vec<usize>,
    ) -> (r: Vec<usize>)
        requires
            old(self)@.wf(),
            old(self)@.open_count() <= m,
            elem < old(self)@.n(),
            below(sem, old(self)@.n()),
            all_below(acc@, old(self)@.n()),
            k <= old(self)@.g.elements[elem as int].notes.metadata.len(),
        ensures
            (final(self)@, r@) == resolution::semantic_metas(
                old(self)@.g,
                old(self)@,
                m,
                elem,
                sem,
                k as int,
                acc@,
            ),
            final(self)@.wf(),
            final(self)@.g == old(self)@.g,
            final(self)@.lib_boundary == old(self)@.lib_boundary,
            final(self)@.open_count() <= old(self)@.open_count(),
            all_below(r@, final(self)@.n()),
        decreases m, 100nat, 55int, old(self)@.g.elements[elem as int].notes.metadata.len() - k, 1int,
    {
        proof {
            reveal(resolution::semantic_metas_step);
            assert(
                resolution::semantic_metas(old(self)@.g, old(self)@, m, elem, sem, k as int, acc@) == resolution::semantic_metas_step(
                    old(self)@.g,
                    old(self)@,
                    m,
                    elem,
                    sem,
                    k as int,
                    acc@,
                )
            );
        }
        match sem {
            Some(d) => {
                if k >= self.metadata_count(elem) {
                    acc
                } else {
                    let defs = self.direct_typings(Ghost(m), self.metadata_at(elem, k));
                    let next = self.semantic_defs(Ghost(m), &defs, 0, elem, d, acc);
                    self.semantic_metas(Ghost(m), elem, sem, k + 1, next)
                }
            },
            None => {
                acc
            },
        }
    }

    /// The metadata definitions from the `k`-th on.
    pub fn semantic_defs(
        &mut self,
        Ghost(m): Ghost<nat>,
        defs: &Vec<usize>,
        k: usize,
        elem: usize,
        sem: usize,
        acc: Vec<usize>,
    ) -> (r: Vec<usize>)
        requires
            old(self)@.wf(),
            old(self)@.open_count() <= m,
            all_below(defs@, old(self)@.n()),
            elem < old(self)@.n(),
            sem < old(self)@.n(),
            all_below(acc@, old(self)@.n()),
            k <= defs@.len(),
        ensures
            (final(self)@, r@) == resolution::semantic_defs(
                old(self)@.g,
                old(self)@,
                m,
                defs@,
                k as int,
                elem,
                sem,
                acc@,
            ),
            final(self)@.wf(),
            final(self)@.g == old(self)@.g,
            final(self)@.lib_boundary == old(self)@.lib_boundary,
            final(self)@.open_count() <= old(self)@.open_count(),
            all_below(r@, final(self)@.n()),
        decreases m, 100nat, 54int, defs@.len() - k, 1int,
    {
        proof {
            reveal(resolution::semantic_defs_step);
            assert(
                resolution::semantic_defs(old(self)@.g, old(self)@, m, defs@, k as int, elem, sem, acc@) == resolution::semantic_defs_step(
                    old(self)@.g,
                    old(self)@,
                    m,
                    defs@,
                    k as int,
                    elem,
                    sem,
                    acc@,
                )
            );
        }
        if k >= defs.len() {
            acc
        } else {
            let target = self.semantic_target(Ghost(m), defs[k], sem);
            let next = with_new(acc, target, elem);
            self.semantic_defs(Ghost(m), defs, k + 1, elem, sem, next)
        }
    }

    /// What the `baseType` of a semantic metadata definition refers to.
    pub fn semantic_target(
        &mut self,
        Ghost(m): Ghost<nat>,
        def: usize,
        sem: usize,
    ) -> (r: Option<usize>)
        requires
            old(self)@.wf(),
            old(self)@.open_count() <= m,
            def < old(self)@.n(),
            sem < old(self)@.n(),
        ensures
            (final(self)@, r) == resolution::semantic_target(old(self)@.g, old(self)@, m, def, sem),
            final(self)@.wf(),
            final(self)@.g == old(self)@.g,
            final(self)@.lib_boundary == old(self)@.lib_boundary,
            final(self)@.open_count() <= old(self)@.open_count(),
            below(r, final(self)@.n()),
        decreases m, 100nat, 53int, 0int, 1int,
    {
        proof {
            reveal(resolution::semantic_target_step);
            assert(
                resolution::semantic_target(old(self)@.g, old(self)@, m, def, sem) == resolution::semantic_target_step(
                    old(self)@.g,
                    old(self)@,
                    m,
                    def,
                    sem,
                )
            );
        }
        let conforms = self.conforms_upward(Ghost(m), def, sem);
        if !conforms {
            None
        } else {
            match self.body_scope(def) {
                Some(sc) => {
                    let stamp = self.next_stamp();
                    let hit = self.lookup_at(Ghost(m), sc, "baseType", 1, stamp, LookupAccess::All);
                    match hit {
                        LookupResult::Found(bt, sub) => {
                            self.base_type_target(Ghost(m), bt)
                        },
                        _ => {
                            None
                        },
                    }
                },
                None => {
                    None
                },
            }
        }
    }

    /// What the value of a `baseType` feature refers to.
    pub fn base_type_target(&mut self, Ghost(m): Ghost<nat>, bt: usize) -> (r: Option<usize>)
        requires
            old(self)@.wf(),
            old(self)@.open_count() <= m,
            bt < old(self)@.n(),
        ensures
            (final(self)@, r) == resolution::base_type_target(old(self)@.g, old(self)@, m, bt),
            final(self)@.wf(),
            final(self)@.g == old(self)@.g,
            final(self)@.lib_boundary == old(self)@.lib_boundary,
            final(self)@.open_count() <= old(self)@.open_count(),
            below(r, final(self)@.n()),
        decreases m, 100nat, 52int, 0int, 1int,
    {
        proof {
            reveal(resolution::base_type_target_step);
            assert(
                resolution::base_type_target(old(self)@.g, old(self)@, m, bt) == resolution::base_type_target_step(
                    old(self)@.g,
                    old(self)@,
                    m,
                    bt,
                )
            );
        }
        match self.value_expr(bt) {
            Some(expr) => {
                match semantic_base_ref(&expr) {
                    Some(qn) => {
                        let vs = or_self(self.value_scope(bt), self.root());
                        self.resolve(Ghost(m), vs, &qn, 1)
                    },
                    None => {
                        None
                    },
                }
            },
            None => {
                None
            },
        }
    }
}

} // verus!
