//! Lookup of a name in one scope.

use crate::names::LookupAccess;
use crate::resolution;
use crate::rpure::{room, answer, no_hits, with_hit};
use crate::rstate::{LookupResult, OpenImport, Resolver, Visit, hits_ok};
use crate::state::all_below;
use vstd::prelude::*;

verus! {

impl Resolver {
    /// Look a name up in one scope, within a query: a scope the query has
    /// answered answers again, one it is still working on has nothing.
    pub fn lookup_at(
        &mut self,
        Ghost(m): Ghost<nat>,
        s: usize,
        name: &str,
        depth: usize,
        stamp: u64,
        access: LookupAccess,
    ) -> (r: LookupResult)
        requires
            old(self)@.wf(),
            old(self)@.open_count() <= m,
            s < old(self)@.ns(),
        ensures
            (final(self)@, r) == resolution::lookup_at(
                old(self)@.g,
                old(self)@,
                m,
                s,
                name@,
                depth,
                stamp,
                access,
            ),
            final(self)@.wf(),
            final(self)@.g == old(self)@.g,
            final(self)@.lib_boundary == old(self)@.lib_boundary,
            final(self)@.open_count() <= old(self)@.open_count(),
            r.ok(final(self)@.n(), final(self)@.ns()),
            depth > 24 ==> r is Missing,
        decreases m, room(depth), 40int, 0int, 1int,
    {
        proof {
            reveal(resolution::lookup_at_step);
            assert(
                resolution::lookup_at(old(self)@.g, old(self)@, m, s, name@, depth, stamp, access) == resolution::lookup_at_step(
                    old(self)@.g,
                    old(self)@,
                    m,
                    s,
                    name@,
                    depth,
                    stamp,
                    access,
                )
            );
        }
        if depth > 24 {
            LookupResult::Missing
        } else {
            let v = self.visit(s, access);
            if v.stamp == stamp {
                answer(v)
            } else {
                self.set_visit(s, access, Visit { stamp: stamp, result: None });
                let hit = self.lookup_body(Ghost(m), s, name, depth, stamp, access);
                let w = self.visit(s, access);
                self.set_visit(s, access, Visit { stamp: w.stamp, result: Some(hit) });
                hit
            }
        }
    }

    /// The contributions of a scope under a name, in order of precedence: owned
    /// members, effective names, aliases, implied ends, member imports,
    /// inherited members, namespace imports.
    pub fn lookup_body(
        &mut self,
        Ghost(m): Ghost<nat>,
        s: usize,
        name: &str,
        depth: usize,
        stamp: u64,
        access: LookupAccess,
    ) -> (r: LookupResult)
        requires
            old(self)@.wf(),
            old(self)@.open_count() <= m,
            s < old(self)@.ns(),
            depth <= 24,
        ensures
            (final(self)@, r) == resolution::lookup_body(
                old(self)@.g,
                old(self)@,
                m,
                s,
                name@,
                depth,
                stamp,
                access,
            ),
            final(self)@.wf(),
            final(self)@.g == old(self)@.g,
            final(self)@.lib_boundary == old(self)@.lib_boundary,
            final(self)@.open_count() <= old(self)@.open_count(),
            r.ok(final(self)@.n(), final(self)@.ns()),
        decreases m, room(depth), 39int, 0int, 1int,
    {
        proof {
            reveal(resolution::lookup_body_step);
            assert(
                resolution::lookup_body(old(self)@.g, old(self)@, m, s, name@, depth, stamp, access) == resolution::lookup_body_step(
                    old(self)@.g,
                    old(self)@,
                    m,
                    s,
                    name@,
                    depth,
                    stamp,
                    access,
                )
            );
        }
        let ex = self.read_exclude();
        let direct = self.direct_hit(ex, s, name, access);
        let declared = self.read_declared_only();
        let effective = if declared { LookupResult::Missing } else { self.effective_hit(ex, s, name, access) };
        if direct != LookupResult::Missing {
            direct
        } else if effective != LookupResult::Missing {
            self.note_missed(s, name);
            effective
        } else {
            self.note_missed(s, name);
            let aliases = self.lookup_aliases(Ghost(m), s, name, depth, access, 0, LookupResult::Missing);
            if aliases != LookupResult::Missing {
                aliases
            } else {
                let ex2 = self.read_exclude();
                let implied = self.implied_hit(ex2, s, name);
                if implied != LookupResult::Missing {
                    implied
                } else {
                    self.lookup_imported(Ghost(m), s, name, depth, stamp, access)
                }
            }
        }
    }

    /// The alias members from the `i`-th on that answer to the name.
    pub fn lookup_aliases(
        &mut self,
        Ghost(m): Ghost<nat>,
        s: usize,
        name: &str,
        depth: usize,
        access: LookupAccess,
        i: usize,
        acc: LookupResult,
    ) -> (r: LookupResult)
        requires
            old(self)@.wf(),
            old(self)@.open_count() <= m,
            s < old(self)@.ns(),
            acc.ok(old(self)@.n(), old(self)@.ns()),
            depth <= 24 && i <= old(self)@.g.scopes[s as int].aliases.len(),
        ensures
            (final(self)@, r) == resolution::lookup_aliases(
                old(self)@.g,
                old(self)@,
                m,
                s,
                name@,
                depth,
                access,
                i as int,
                acc,
            ),
            final(self)@.wf(),
            final(self)@.g == old(self)@.g,
            final(self)@.lib_boundary == old(self)@.lib_boundary,
            final(self)@.open_count() <= old(self)@.open_count(),
            r.ok(final(self)@.n(), final(self)@.ns()),
        decreases m, room(depth), 38int, old(self)@.g.scopes[s as int].aliases.len() - i, 1int,
    {
        proof {
            reveal(resolution::lookup_aliases_step);
            assert(
                resolution::lookup_aliases(old(self)@.g, old(self)@, m, s, name@, depth, access, i as int, acc) == resolution::lookup_aliases_step(
                    old(self)@.g,
                    old(self)@,
                    m,
                    s,
                    name@,
                    depth,
                    access,
                    i as int,
                    acc,
                )
            );
        }
        if i >= self.alias_count(s) {
            acc
        } else if !self.alias_matches(s, i, name, access) {
            self.lookup_aliases(Ghost(m), s, name, depth, access, i + 1, acc)
        } else {
            let target = self.alias_target(s, i);
            let hit = self.resolve_result(Ghost(m), s, &target, depth + 1, false);
            let next = self.merge_elem(acc, hit);
            self.lookup_aliases(Ghost(m), s, name, depth, access, i + 1, next)
        }
    }

    /// Member imports, then inherited members, then namespace imports.
    pub fn lookup_imported(
        &mut self,
        Ghost(m): Ghost<nat>,
        s: usize,
        name: &str,
        depth: usize,
        stamp: u64,
        access: LookupAccess,
    ) -> (r: LookupResult)
        requires
            old(self)@.wf(),
            old(self)@.open_count() <= m,
            s < old(self)@.ns(),
            depth <= 24,
        ensures
            (final(self)@, r) == resolution::lookup_imported(
                old(self)@.g,
                old(self)@,
                m,
                s,
                name@,
                depth,
                stamp,
                access,
            ),
            final(self)@.wf(),
            final(self)@.g == old(self)@.g,
            final(self)@.lib_boundary == old(self)@.lib_boundary,
            final(self)@.open_count() <= old(self)@.open_count(),
            r.ok(final(self)@.n(), final(self)@.ns()),
        decreases m, room(depth), 37int, 0int, 1int,
    {
        proof {
            reveal(resolution::lookup_imported_step);
            assert(
                resolution::lookup_imported(old(self)@.g, old(self)@, m, s, name@, depth, stamp, access) == resolution::lookup_imported_step(
                    old(self)@.g,
                    old(self)@,
                    m,
                    s,
                    name@,
                    depth,
                    stamp,
                    access,
                )
            );
        }
        let members = self.lookup_members(Ghost(m), s, name, depth, access, 0, LookupResult::Missing);
        if members != LookupResult::Missing {
            members
        } else {
            let bases = self.base_scopes(Ghost(m), s);
            let hits = self.lookup_bases(Ghost(m), &bases, name, depth, stamp, access, 0, no_hits());
            let standing = self.drop_redefined(&hits);
            let inherited = self.merge_all(&standing, 0, LookupResult::Missing);
            if inherited != LookupResult::Missing {
                inherited
            } else {
                let list = self.import_scopes(Ghost(m), s);
                self.lookup_imports(Ghost(m), s, &list, name, depth, stamp, access, 0, LookupResult::Missing)
            }
        }
    }

    /// The member imports from the `i`-th on that answer to the name: one that
    /// is being resolved does not resolve through itself.
    pub fn lookup_members(
        &mut self,
        Ghost(m): Ghost<nat>,
        s: usize,
        name: &str,
        depth: usize,
        access: LookupAccess,
        i: usize,
        acc: LookupResult,
    ) -> (r: LookupResult)
        requires
            old(self)@.wf(),
            old(self)@.open_count() <= m,
            s < old(self)@.ns(),
            acc.ok(old(self)@.n(), old(self)@.ns()),
            depth <= 24 && i <= old(self)@.g.scopes[s as int].member_imports.len(),
        ensures
            (final(self)@, r) == resolution::lookup_members(
                old(self)@.g,
                old(self)@,
                m,
                s,
                name@,
                depth,
                access,
                i as int,
                acc,
            ),
            final(self)@.wf(),
            final(self)@.g == old(self)@.g,
            final(self)@.lib_boundary == old(self)@.lib_boundary,
            final(self)@.open_count() <= old(self)@.open_count(),
            r.ok(final(self)@.n(), final(self)@.ns()),
        decreases m, room(depth), 36int, old(self)@.g.scopes[s as int].member_imports.len() - i, 1int,
    {
        proof {
            reveal(resolution::lookup_members_step);
            assert(
                resolution::lookup_members(old(self)@.g, old(self)@, m, s, name@, depth, access, i as int, acc) == resolution::lookup_members_step(
                    old(self)@.g,
                    old(self)@,
                    m,
                    s,
                    name@,
                    depth,
                    access,
                    i as int,
                    acc,
                )
            );
        }
        if i >= self.member_count(s) {
            acc
        } else if !self.member_matches(s, i, name, access) || self.is_active(s, i) {
            self.lookup_members(Ghost(m), s, name, depth, access, i + 1, acc)
        } else {
            self.enter_member(s, i);
            let target = self.member_target(s, i);
            let hit = self.resolve_result(Ghost(m), s, &target, depth + 1, self.member_all(s, i));
            self.leave_member();
            let next = self.admit_member(Ghost(m), s, i, depth, acc, hit);
            self.lookup_members(Ghost(m), s, name, depth, access, i + 1, next)
        }
    }

    /// What a member import contributes: its element, unless a filter hides it.
    pub fn admit_member(
        &mut self,
        Ghost(m): Ghost<nat>,
        s: usize,
        i: usize,
        depth: usize,
        acc: LookupResult,
        hit: LookupResult,
    ) -> (r: LookupResult)
        requires
            old(self)@.wf(),
            old(self)@.open_count() <= m,
            s < old(self)@.ns(),
            acc.ok(old(self)@.n(), old(self)@.ns()),
            hit.ok(old(self)@.n(), old(self)@.ns()),
            i < old(self)@.g.scopes[s as int].member_imports.len(),
        ensures
            (final(self)@, r) == resolution::admit_member(
                old(self)@.g,
                old(self)@,
                m,
                s,
                i as int,
                depth,
                acc,
                hit,
            ),
            final(self)@.wf(),
            final(self)@.g == old(self)@.g,
            final(self)@.lib_boundary == old(self)@.lib_boundary,
            final(self)@.open_count() <= old(self)@.open_count(),
            r.ok(final(self)@.n(), final(self)@.ns()),
        decreases m, room(depth), 35int, 0int, 1int,
    {
        proof {
            reveal(resolution::admit_member_step);
            assert(
                resolution::admit_member(old(self)@.g, old(self)@, m, s, i as int, depth, acc, hit) == resolution::admit_member_step(
                    old(self)@.g,
                    old(self)@,
                    m,
                    s,
                    i as int,
                    depth,
                    acc,
                    hit,
                )
            );
        }
        match hit {
            LookupResult::Found(e, sub) => {
                let ok = self.admits_by_member(Ghost(m), s, i, e, depth, 0);
                if ok {
                    self.mark_used(self.member_rel(s, i));
                    self.merge_elem(acc, hit)
                } else {
                    acc
                }
            },
            LookupResult::Ambiguous => {
                LookupResult::Ambiguous
            },
            LookupResult::Missing => {
                acc
            },
        }
    }

    /// The hits of the inherited scopes from the `k`-th on.
    pub fn lookup_bases(
        &mut self,
        Ghost(m): Ghost<nat>,
        bases: &Vec<usize>,
        name: &str,
        depth: usize,
        stamp: u64,
        access: LookupAccess,
        k: usize,
        hits: Vec<LookupResult>,
    ) -> (r: Vec<LookupResult>)
        requires
            old(self)@.wf(),
            old(self)@.open_count() <= m,
            all_below(bases@, old(self)@.ns()),
            hits_ok(hits@, old(self)@.n(), old(self)@.ns()),
            depth <= 24 && k <= bases@.len(),
        ensures
            (final(self)@, r@) == resolution::lookup_bases(
                old(self)@.g,
                old(self)@,
                m,
                bases@,
                name@,
                depth,
                stamp,
                access,
                k as int,
                hits@,
            ),
            final(self)@.wf(),
            final(self)@.g == old(self)@.g,
            final(self)@.lib_boundary == old(self)@.lib_boundary,
            final(self)@.open_count() <= old(self)@.open_count(),
            hits_ok(r@, final(self)@.n(), final(self)@.ns()),
        decreases m, room(depth), 36int, bases@.len() - k, 1int,
    {
        proof {
            reveal(resolution::lookup_bases_step);
            assert(
                resolution::lookup_bases(old(self)@.g, old(self)@, m, bases@, name@, depth, stamp, access, k as int, hits@) == resolution::lookup_bases_step(
                    old(self)@.g,
                    old(self)@,
                    m,
                    bases@,
                    name@,
                    depth,
                    stamp,
                    access,
                    k as int,
                    hits@,
                )
            );
        }
        if k >= bases.len() {
            hits
        } else {
            let hit = self.lookup_at(Ghost(m), bases[k], name, depth + 1, stamp, access.inherited());
            let more = with_hit(hits, hit);
            self.lookup_bases(Ghost(m), bases, name, depth, stamp, access, k + 1, more)
        }
    }

    /// The namespace imports in force from the `k`-th on.
    pub fn lookup_imports(
        &mut self,
        Ghost(m): Ghost<nat>,
        s: usize,
        list: &Vec<OpenImport>,
        name: &str,
        depth: usize,
        stamp: u64,
        access: LookupAccess,
        k: usize,
        acc: LookupResult,
    ) -> (r: LookupResult)
        requires
            old(self)@.wf(),
            old(self)@.open_count() <= m,
            s < old(self)@.ns(),
            old(self)@.imports_ok(s as int, Some(list@)),
            acc.ok(old(self)@.n(), old(self)@.ns()),
            depth <= 24 && k <= list@.len(),
        ensures
            (final(self)@, r) == resolution::lookup_imports(
                old(self)@.g,
                old(self)@,
                m,
                s,
                list@,
                name@,
                depth,
                stamp,
                access,
                k as int,
                acc,
            ),
            final(self)@.wf(),
            final(self)@.g == old(self)@.g,
            final(self)@.lib_boundary == old(self)@.lib_boundary,
            final(self)@.open_count() <= old(self)@.open_count(),
            r.ok(final(self)@.n(), final(self)@.ns()),
        decreases m, room(depth), 36int, list@.len() - k, 1int,
    {
        proof {
            reveal(resolution::lookup_imports_step);
            assert(
                resolution::lookup_imports(old(self)@.g, old(self)@, m, s, list@, name@, depth, stamp, access, k as int, acc) == resolution::lookup_imports_step(
                    old(self)@.g,
                    old(self)@,
                    m,
                    s,
                    list@,
                    name@,
                    depth,
                    stamp,
                    access,
                    k as int,
                    acc,
                )
            );
        }
        if k >= list.len() {
            acc
        } else {
            assert((Some(list@)->0)[k as int].entry < self@.g.scopes[s as int].imports.len());
            let entry = list[k].entry;
            let target = list[k].scope;
            if access == LookupAccess::Public && !self.import_public(s, entry) {
                self.lookup_imports(Ghost(m), s, list, name, depth, stamp, access, k + 1, acc)
            } else {
                let inner = if self.import_all(s, entry) { LookupAccess::All } else { LookupAccess::Public };
                let hit = self.lookup_through(
                    Ghost(m),
                    self.import_recursive(s, entry),
                    target,
                    name,
                    depth + 1,
                    stamp,
                    inner,
                );
                let next = self.admit_import(Ghost(m), s, entry, depth, acc, hit);
                self.lookup_imports(Ghost(m), s, list, name, depth, stamp, access, k + 1, next)
            }
        }
    }

    /// Look up in an imported namespace, or in everything nested in it.
    pub fn lookup_through(
        &mut self,
        Ghost(m): Ghost<nat>,
        recursive: bool,
        s: usize,
        name: &str,
        depth: usize,
        stamp: u64,
        access: LookupAccess,
    ) -> (r: LookupResult)
        requires
            old(self)@.wf(),
            old(self)@.open_count() <= m,
            s < old(self)@.ns(),
        ensures
            (final(self)@, r) == resolution::lookup_through(
                old(self)@.g,
                old(self)@,
                m,
                recursive,
                s,
                name@,
                depth,
                stamp,
                access,
            ),
            final(self)@.wf(),
            final(self)@.g == old(self)@.g,
            final(self)@.lib_boundary == old(self)@.lib_boundary,
            final(self)@.open_count() <= old(self)@.open_count(),
            r.ok(final(self)@.n(), final(self)@.ns()),
        decreases m, room(depth), 43int, 0int, 1int,
    {
        proof {
            reveal(resolution::lookup_through_step);
            assert(
                resolution::lookup_through(old(self)@.g, old(self)@, m, recursive, s, name@, depth, stamp, access) == resolution::lookup_through_step(
                    old(self)@.g,
                    old(self)@,
                    m,
                    recursive,
                    s,
                    name@,
                    depth,
                    stamp,
                    access,
                )
            );
        }
        if recursive {
            self.lookup_recursive(Ghost(m), s, name, depth, stamp, access)
        } else {
            self.lookup_at(Ghost(m), s, name, depth, stamp, access)
        }
    }

    /// What a namespace import contributes: the hit, unless a filter hides it.
    pub fn admit_import(
        &mut self,
        Ghost(m): Ghost<nat>,
        s: usize,
        i: usize,
        depth: usize,
        acc: LookupResult,
        hit: LookupResult,
    ) -> (r: LookupResult)
        requires
            old(self)@.wf(),
            old(self)@.open_count() <= m,
            s < old(self)@.ns(),
            acc.ok(old(self)@.n(), old(self)@.ns()),
            hit.ok(old(self)@.n(), old(self)@.ns()),
            i < old(self)@.g.scopes[s as int].imports.len(),
        ensures
            (final(self)@, r) == resolution::admit_import(
                old(self)@.g,
                old(self)@,
                m,
                s,
                i as int,
                depth,
                acc,
                hit,
            ),
            final(self)@.wf(),
            final(self)@.g == old(self)@.g,
            final(self)@.lib_boundary == old(self)@.lib_boundary,
            final(self)@.open_count() <= old(self)@.open_count(),
            r.ok(final(self)@.n(), final(self)@.ns()),
        decreases m, room(depth), 35int, 0int, 1int,
    {
        proof {
            reveal(resolution::admit_import_step);
            assert(
                resolution::admit_import(old(self)@.g, old(self)@, m, s, i as int, depth, acc, hit) == resolution::admit_import_step(
                    old(self)@.g,
                    old(self)@,
                    m,
                    s,
                    i as int,
                    depth,
                    acc,
                    hit,
                )
            );
        }
        match hit {
            LookupResult::Found(e, sub) => {
                let ok = self.admits_by_import(Ghost(m), s, i, e, depth, 0);
                if ok {
                    self.mark_used(self.import_rel(s, i));
                    self.merge(acc, hit)
                } else {
                    acc
                }
            },
            LookupResult::Ambiguous => {
                LookupResult::Ambiguous
            },
            LookupResult::Missing => {
                acc
            },
        }
    }

    /// A name in a scope or any namespace nested in it.
    pub fn lookup_recursive(
        &mut self,
        Ghost(m): Ghost<nat>,
        s: usize,
        name: &str,
        depth: usize,
        stamp: u64,
        access: LookupAccess,
    ) -> (r: LookupResult)
        requires
            old(self)@.wf(),
            old(self)@.open_count() <= m,
            s < old(self)@.ns(),
        ensures
            (final(self)@, r) == resolution::lookup_recursive(
                old(self)@.g,
                old(self)@,
                m,
                s,
                name@,
                depth,
                stamp,
                access,
            ),
            final(self)@.wf(),
            final(self)@.g == old(self)@.g,
            final(self)@.lib_boundary == old(self)@.lib_boundary,
            final(self)@.open_count() <= old(self)@.open_count(),
            r.ok(final(self)@.n(), final(self)@.ns()),
        decreases m, room(depth), 42int, 0int, 1int,
    {
        proof {
            reveal(resolution::lookup_recursive_step);
            assert(
                resolution::lookup_recursive(old(self)@.g, old(self)@, m, s, name@, depth, stamp, access) == resolution::lookup_recursive_step(
                    old(self)@.g,
                    old(self)@,
                    m,
                    s,
                    name@,
                    depth,
                    stamp,
                    access,
                )
            );
        }
        if depth > 24 {
            LookupResult::Missing
        } else {
            let first = self.lookup_at(Ghost(m), s, name, depth, stamp, access);
            let subs = self.sub_scopes(s, access);
            self.lookup_subs(Ghost(m), &subs, name, depth, stamp, access, 0, first)
        }
    }

    /// The nested namespaces from the `k`-th on.
    pub fn lookup_subs(
        &mut self,
        Ghost(m): Ghost<nat>,
        subs: &Vec<usize>,
        name: &str,
        depth: usize,
        stamp: u64,
        access: LookupAccess,
        k: usize,
        acc: LookupResult,
    ) -> (r: LookupResult)
        requires
            old(self)@.wf(),
            old(self)@.open_count() <= m,
            all_below(subs@, old(self)@.ns()),
            acc.ok(old(self)@.n(), old(self)@.ns()),
            depth <= 24 && k <= subs@.len(),
        ensures
            (final(self)@, r) == resolution::lookup_subs(
                old(self)@.g,
                old(self)@,
                m,
                subs@,
                name@,
                depth,
                stamp,
                access,
                k as int,
                acc,
            ),
            final(self)@.wf(),
            final(self)@.g == old(self)@.g,
            final(self)@.lib_boundary == old(self)@.lib_boundary,
            final(self)@.open_count() <= old(self)@.open_count(),
            r.ok(final(self)@.n(), final(self)@.ns()),
        decreases m, room(depth), 41int, subs@.len() - k, 1int,
    {
        proof {
            reveal(resolution::lookup_subs_step);
            assert(
                resolution::lookup_subs(old(self)@.g, old(self)@, m, subs@, name@, depth, stamp, access, k as int, acc) == resolution::lookup_subs_step(
                    old(self)@.g,
                    old(self)@,
                    m,
                    subs@,
                    name@,
                    depth,
                    stamp,
                    access,
                    k as int,
                    acc,
                )
            );
        }
        if k >= subs.len() {
            acc
        } else {
            let hit = self.lookup_recursive(Ghost(m), subs[k], name, depth + 1, stamp, access);
            let next = self.merge(acc, hit);
            self.lookup_subs(Ghost(m), subs, name, depth, stamp, access, k + 1, next)
        }
    }
}

} // verus!
