//! Resolution of qualified names and feature chains.

use crate::ast::{QualifiedName, qns_view};
use crate::names::LookupAccess;
use crate::resolution;
use crate::rpure::{room, chain_rest, seg_count, seg_name};
use crate::rstate::{LookupResult, Resolver};
use crate::state::below;
use vstd::prelude::*;

verus! {

impl Resolver {
    /// Resolve a qualified name from a scope outwards, ambiguity retained.
    pub fn resolve_result(
        &mut self,
        Ghost(m): Ghost<nat>,
        scope: usize,
        qn: &QualifiedName,
        depth: usize,
        allow_last: bool,
    ) -> (r: LookupResult)
        requires
            old(self)@.wf(),
            old(self)@.open_count() <= m,
            scope < old(self)@.ns(),
        ensures
            (final(self)@, r) == resolution::resolve_result(
                old(self)@.g,
                old(self)@,
                m,
                scope,
                qn@,
                depth,
                allow_last,
            ),
            final(self)@.wf(),
            final(self)@.g == old(self)@.g,
            final(self)@.lib_boundary == old(self)@.lib_boundary,
            final(self)@.open_count() <= old(self)@.open_count(),
            r.ok(final(self)@.n(), final(self)@.ns()),
        decreases m, room(depth), 46int, 0int, 1int,
    {
        proof {
            reveal(resolution::resolve_result_step);
            assert(
                resolution::resolve_result(old(self)@.g, old(self)@, m, scope, qn@, depth, allow_last) == resolution::resolve_result_step(
                    old(self)@.g,
                    old(self)@,
                    m,
                    scope,
                    qn@,
                    depth,
                    allow_last,
                )
            );
        }
        if depth > 24 || seg_count(qn) == 0 {
            LookupResult::Missing
        } else {
            let from = self.root_or(scope, qn.is_global);
            let stamp = self.next_stamp();
            self.resolve_up(Ghost(m), scope, from, qn, depth, stamp, allow_last)
        }
    }

    /// The first name of a qualified name in a scope or those around it, then
    /// the rest as members.
    pub fn resolve_up(
        &mut self,
        Ghost(m): Ghost<nat>,
        origin: usize,
        s: usize,
        qn: &QualifiedName,
        depth: usize,
        stamp: u64,
        allow_last: bool,
    ) -> (r: LookupResult)
        requires
            old(self)@.wf(),
            old(self)@.open_count() <= m,
            origin < old(self)@.ns(),
            s < old(self)@.ns(),
            depth <= 24 && qn@.segments.len() > 0,
        ensures
            (final(self)@, r) == resolution::resolve_up(
                old(self)@.g,
                old(self)@,
                m,
                origin,
                s,
                qn@,
                depth,
                stamp,
                allow_last,
            ),
            final(self)@.wf(),
            final(self)@.g == old(self)@.g,
            final(self)@.lib_boundary == old(self)@.lib_boundary,
            final(self)@.open_count() <= old(self)@.open_count(),
            r.ok(final(self)@.n(), final(self)@.ns()),
        decreases m, room(depth), 45int, s as int, 1int,
    {
        proof {
            reveal(resolution::resolve_up_step);
            assert(
                resolution::resolve_up(old(self)@.g, old(self)@, m, origin, s, qn@, depth, stamp, allow_last) == resolution::resolve_up_step(
                    old(self)@.g,
                    old(self)@,
                    m,
                    origin,
                    s,
                    qn@,
                    depth,
                    stamp,
                    allow_last,
                )
            );
        }
        let hit = self.lookup_at(Ghost(m), s, seg_name(qn, 0), depth, stamp, LookupAccess::All);
        match hit {
            LookupResult::Found(e, sub) => {
                self.resolve_rest(Ghost(m), origin, e, sub, qn, 1, depth, allow_last)
            },
            LookupResult::Ambiguous => {
                LookupResult::Ambiguous
            },
            LookupResult::Missing => {
                match self.scope_parent(s) {
                    Some(p) => {
                        if p < s {
                            self.resolve_up(Ghost(m), origin, p, qn, depth, stamp, allow_last)
                        } else {
                            LookupResult::Missing
                        }
                    },
                    None => {
                        LookupResult::Missing
                    },
                }
            },
        }
    }

    /// The names of a qualified name from the `k`-th on, each a member of the
    /// element before it that the origin may access.
    pub fn resolve_rest(
        &mut self,
        Ghost(m): Ghost<nat>,
        origin: usize,
        elem: usize,
        scope: Option<usize>,
        qn: &QualifiedName,
        k: usize,
        depth: usize,
        allow_last: bool,
    ) -> (r: LookupResult)
        requires
            old(self)@.wf(),
            old(self)@.open_count() <= m,
            origin < old(self)@.ns(),
            elem < old(self)@.n(),
            below(scope, old(self)@.ns()),
            depth <= 24 && k <= qn@.segments.len(),
        ensures
            (final(self)@, r) == resolution::resolve_rest(
                old(self)@.g,
                old(self)@,
                m,
                origin,
                elem,
                scope,
                qn@,
                k as int,
                depth,
                allow_last,
            ),
            final(self)@.wf(),
            final(self)@.g == old(self)@.g,
            final(self)@.lib_boundary == old(self)@.lib_boundary,
            final(self)@.open_count() <= old(self)@.open_count(),
            r.ok(final(self)@.n(), final(self)@.ns()),
        decreases m, room(depth), 44int, qn@.segments.len() - k, 1int,
    {
        proof {
            reveal(resolution::resolve_rest_step);
            assert(
                resolution::resolve_rest(old(self)@.g, old(self)@, m, origin, elem, scope, qn@, k as int, depth, allow_last) == resolution::resolve_rest_step(
                    old(self)@.g,
                    old(self)@,
                    m,
                    origin,
                    elem,
                    scope,
                    qn@,
                    k as int,
                    depth,
                    allow_last,
                )
            );
        }
        if k >= seg_count(qn) {
            LookupResult::Found(elem, scope)
        } else {
            match scope {
                Some(sc) => {
                    let access = self.rest_access(Ghost(m), origin, sc, allow_last && k + 1 == seg_count(qn));
                    let stamp = self.next_stamp();
                    let hit = self.lookup_at(Ghost(m), sc, seg_name(qn, k), depth + 1, stamp, access);
                    match hit {
                        LookupResult::Found(e, sub) => {
                            if depth < 24 {
                                self.resolve_rest(Ghost(m), origin, e, sub, qn, k + 1, depth + 1, allow_last)
                            } else {
                                LookupResult::Missing
                            }
                        },
                        LookupResult::Ambiguous => {
                            LookupResult::Ambiguous
                        },
                        LookupResult::Missing => {
                            LookupResult::Missing
                        },
                    }
                },
                None => {
                    LookupResult::Missing
                },
            }
        }
    }

    /// What an origin may access in a scope: everything from inside it or for
    /// the last name of an `import all`, protected members where it inherits
    /// from the scope, public ones otherwise.
    pub fn rest_access(
        &mut self,
        Ghost(m): Ghost<nat>,
        origin: usize,
        target: usize,
        last_open: bool,
    ) -> (r: LookupAccess)
        requires
            old(self)@.wf(),
            old(self)@.open_count() <= m,
            origin < old(self)@.ns(),
            target < old(self)@.ns(),
        ensures
            (final(self)@, r) == resolution::rest_access(
                old(self)@.g,
                old(self)@,
                m,
                origin,
                target,
                last_open,
            ),
            final(self)@.wf(),
            final(self)@.g == old(self)@.g,
            final(self)@.lib_boundary == old(self)@.lib_boundary,
            final(self)@.open_count() <= old(self)@.open_count(),
        decreases m, 0nat, 37int, 0int, 1int,
    {
        proof {
            reveal(resolution::rest_access_step);
            assert(
                resolution::rest_access(old(self)@.g, old(self)@, m, origin, target, last_open) == resolution::rest_access_step(
                    old(self)@.g,
                    old(self)@,
                    m,
                    origin,
                    target,
                    last_open,
                )
            );
        }
        if self.scope_within(origin, target) || last_open {
            LookupAccess::All
        } else {
            let p = self.access_protected(Ghost(m), origin, target);
            if p {
                LookupAccess::Protected
            } else {
                LookupAccess::Public
            }
        }
    }

    /// Whether a scope, or one around it, inherits from another.
    pub fn access_protected(
        &mut self,
        Ghost(m): Ghost<nat>,
        origin: usize,
        target: usize,
    ) -> (r: bool)
        requires
            old(self)@.wf(),
            old(self)@.open_count() <= m,
            origin < old(self)@.ns(),
            target < old(self)@.ns(),
        ensures
            (final(self)@, r) == resolution::access_protected(old(self)@.g, old(self)@, m, origin, target),
            final(self)@.wf(),
            final(self)@.g == old(self)@.g,
            final(self)@.lib_boundary == old(self)@.lib_boundary,
            final(self)@.open_count() <= old(self)@.open_count(),
        decreases m, 0nat, 36int, origin as int, 1int,
    {
        proof {
            reveal(resolution::access_protected_step);
            assert(
                resolution::access_protected(old(self)@.g, old(self)@, m, origin, target) == resolution::access_protected_step(
                    old(self)@.g,
                    old(self)@,
                    m,
                    origin,
                    target,
                )
            );
        }
        let hit = self.reaches_base(Ghost(m), origin, target);
        if hit {
            true
        } else {
            match self.scope_parent(origin) {
                Some(p) => {
                    if p < origin {
                        self.access_protected(Ghost(m), p, target)
                    } else {
                        false
                    }
                },
                None => {
                    false
                },
            }
        }
    }

    /// Resolve a qualified name to an element.
    pub fn resolve(
        &mut self,
        Ghost(m): Ghost<nat>,
        scope: usize,
        qn: &QualifiedName,
        depth: usize,
    ) -> (r: Option<usize>)
        requires
            old(self)@.wf(),
            old(self)@.open_count() <= m,
            scope < old(self)@.ns(),
        ensures
            (final(self)@, r) == resolution::resolve(old(self)@.g, old(self)@, m, scope, qn@, depth),
            final(self)@.wf(),
            final(self)@.g == old(self)@.g,
            final(self)@.lib_boundary == old(self)@.lib_boundary,
            final(self)@.open_count() <= old(self)@.open_count(),
            below(r, final(self)@.n()),
        decreases m, room(depth), 47int, 0int, 1int,
    {
        proof {
            reveal(resolution::resolve_step);
            assert(
                resolution::resolve(old(self)@.g, old(self)@, m, scope, qn@, depth) == resolution::resolve_step(
                    old(self)@.g,
                    old(self)@,
                    m,
                    scope,
                    qn@,
                    depth,
                )
            );
        }
        let hit = self.resolve_result(Ghost(m), scope, qn, depth, false);
        hit.element()
    }

    /// Resolve a member through the links of a feature chain: the first link
    /// from the scope outwards, the others as members of the link before.
    pub fn resolve_chain(
        &mut self,
        Ghost(m): Ghost<nat>,
        scope: usize,
        links: &Vec<QualifiedName>,
        member: &QualifiedName,
    ) -> (r: Option<usize>)
        requires
            old(self)@.wf(),
            old(self)@.open_count() <= m,
            scope < old(self)@.ns(),
        ensures
            (final(self)@, r) == resolution::resolve_chain(
                old(self)@.g,
                old(self)@,
                m,
                scope,
                qns_view(links@),
                member@,
            ),
            final(self)@.wf(),
            final(self)@.g == old(self)@.g,
            final(self)@.lib_boundary == old(self)@.lib_boundary,
            final(self)@.open_count() <= old(self)@.open_count(),
            below(r, final(self)@.n()),
        decreases m, 100nat, 49int, 0int, 1int,
    {
        proof {
            reveal(resolution::resolve_chain_step);
            assert(
                resolution::resolve_chain(old(self)@.g, old(self)@, m, scope, qns_view(links@), member@) == resolution::resolve_chain_step(
                    old(self)@.g,
                    old(self)@,
                    m,
                    scope,
                    qns_view(links@),
                    member@,
                )
            );
        }
        if links.len() == 0 {
            None
        } else {
            let head = self.resolve(Ghost(m), scope, &links[0], 0);
            match head {
                Some(e) => {
                    let rest = chain_rest(links, member);
                    let saved = self.read_exclude();
                    self.set_exclude(None);
                    let hit = self.resolve_rest(Ghost(m), scope, e, self.body_scope(e), &rest, 0, 0, false);
                    self.set_exclude(saved);
                    hit.element()
                },
                None => {
                    None
                },
            }
        }
    }
}

} // verus!
