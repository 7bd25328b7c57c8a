//! The namespaces a scope imports.

use crate::resolution;
use crate::rpure::{
    no_imports, duplicate_imports, Outcome, outcomes_ok, no_outcomes, set_outcome,
    duplicate_outcomes, same_outcomes, outcome_elems, open_imports, other_imports,
};
use crate::rstate::{OpenImport, Resolver};
use vstd::prelude::*;

verus! {

impl Resolver {
    /// The imports in force in a scope. Computed once; an import resolves with
    /// the outcomes of the other ones in force, never through itself, until
    /// nothing changes.
    pub fn import_scopes(&mut self, Ghost(m): Ghost<nat>, s: usize) -> (r: Vec<OpenImport>)
        requires
            old(self)@.wf(),
            old(self)@.open_count() <= m,
            s < old(self)@.ns(),
        ensures
            (final(self)@, r@) == resolution::import_scopes(old(self)@.g, old(self)@, m, s),
            final(self)@.wf(),
            final(self)@.g == old(self)@.g,
            final(self)@.lib_boundary == old(self)@.lib_boundary,
            final(self)@.open_count() <= old(self)@.open_count(),
            final(self)@.imports_ok(s as int, Some(r@)),
        decreases m, 0nat, 30int, 0int, 1int,
    {
        proof {
            reveal(resolution::import_scopes_step);
            assert(
                resolution::import_scopes(old(self)@.g, old(self)@, m, s) == resolution::import_scopes_step(
                    old(self)@.g,
                    old(self)@,
                    m,
                    s,
                )
            );
        }
        match self.import_cache(s) {
            Some(v) => {
                self.recall_imports(s);
                v
            },
            None => {
                proof { crate::rstate::lemma_table_sizes(self@); crate::rstate::lemma_none_positive(self@.imports, s as int); }
                let outer = self.missed();
                self.clear_missed();
                self.set_import_cache(s, no_imports());
                let start = no_outcomes(self.import_count(s));
                let done = self.import_rounds(Ghost((m - 1) as nat), s, 0, start);
                self.set_import_elems(s, outcome_elems(&done));
                let list = open_imports(&done);
                let copy = duplicate_imports(&list);
                self.set_import_cache(s, copy);
                self.keep_import_misses(s, outer);
                list
            },
        }
    }

    /// Passes over the imports from the `round`-th on: at most one more than
    /// there are imports.
    pub fn import_rounds(
        &mut self,
        Ghost(m): Ghost<nat>,
        s: usize,
        round: usize,
        outcomes: Vec<Option<Outcome>>,
    ) -> (r: Vec<Option<Outcome>>)
        requires
            old(self)@.wf(),
            old(self)@.open_count() <= m,
            s < old(self)@.ns(),
            outcomes_ok(outcomes@, old(self)@.n(), old(self)@.ns()),
            outcomes@.len() == old(self)@.g.scopes[s as int].imports.len() && round <= old(self)@.g.scopes[s as int].imports.len(),
        ensures
            (final(self)@, r@) == resolution::import_rounds(
                old(self)@.g,
                old(self)@,
                m,
                s,
                round as int,
                outcomes@,
            ),
            final(self)@.wf(),
            final(self)@.g == old(self)@.g,
            final(self)@.lib_boundary == old(self)@.lib_boundary,
            final(self)@.open_count() <= old(self)@.open_count(),
            outcomes_ok(r@, final(self)@.n(), final(self)@.ns()),
            r@.len() == old(self)@.g.scopes[s as int].imports.len(),
        decreases m, 100nat, 51int, old(self)@.g.scopes[s as int].imports.len() - round, 1int,
    {
        proof {
            reveal(resolution::import_rounds_step);
            assert(
                resolution::import_rounds(old(self)@.g, old(self)@, m, s, round as int, outcomes@) == resolution::import_rounds_step(
                    old(self)@.g,
                    old(self)@,
                    m,
                    s,
                    round as int,
                    outcomes@,
                )
            );
        }
        let before = duplicate_outcomes(&outcomes);
        let next = self.import_pass(Ghost(m), s, 0, outcomes);
        if same_outcomes(&next, &before) || round >= self.import_count(s) {
            next
        } else {
            self.import_rounds(Ghost(m), s, round + 1, next)
        }
    }

    /// One pass over the imports from the `i`-th on.
    pub fn import_pass(
        &mut self,
        Ghost(m): Ghost<nat>,
        s: usize,
        i: usize,
        outcomes: Vec<Option<Outcome>>,
    ) -> (r: Vec<Option<Outcome>>)
        requires
            old(self)@.wf(),
            old(self)@.open_count() <= m,
            s < old(self)@.ns(),
            outcomes_ok(outcomes@, old(self)@.n(), old(self)@.ns()),
            outcomes@.len() == old(self)@.g.scopes[s as int].imports.len() && i <= old(self)@.g.scopes[s as int].imports.len(),
        ensures
            (final(self)@, r@) == resolution::import_pass(
                old(self)@.g,
                old(self)@,
                m,
                s,
                i as int,
                outcomes@,
            ),
            final(self)@.wf(),
            final(self)@.g == old(self)@.g,
            final(self)@.lib_boundary == old(self)@.lib_boundary,
            final(self)@.open_count() <= old(self)@.open_count(),
            outcomes_ok(r@, final(self)@.n(), final(self)@.ns()),
            r@.len() == old(self)@.g.scopes[s as int].imports.len(),
        decreases m, 100nat, 50int, old(self)@.g.scopes[s as int].imports.len() - i, 1int,
    {
        proof {
            reveal(resolution::import_pass_step);
            assert(
                resolution::import_pass(old(self)@.g, old(self)@, m, s, i as int, outcomes@) == resolution::import_pass_step(
                    old(self)@.g,
                    old(self)@,
                    m,
                    s,
                    i as int,
                    outcomes@,
                )
            );
        }
        if i >= self.import_count(s) {
            outcomes
        } else {
            self.set_import_cache(s, other_imports(&outcomes, i));
            let target = self.import_target(s, i);
            let hit = self.resolve(Ghost(m), s, &target, 0);
            let o = self.outcome(hit);
            self.import_pass(Ghost(m), s, i + 1, set_outcome(outcomes, i, o))
        }
    }
}

} // verus!
