//! Name resolution state: what lookups have found and are still working on.

use crate::names::LookupAccess;
use crate::state::{below, BV, Builder};
use crate::misses::{Misses, MissesV};
use vstd::prelude::*;

verus! {

/// What a lookup answers: nothing, one element with its body scope, or
/// several indistinguishable candidates.
#[derive(Clone, Copy, Debug, PartialEq, Eq, Structural)]
pub enum LookupResult {
    Missing,
    Found(usize, Option<usize>),
    Ambiguous,
}

impl LookupResult {
    /// The element found.
    pub open spec fn elem(self) -> Option<usize> {
        match self {
            LookupResult::Found(e, _) => Some(e),
            _ => None,
        }
    }

    pub fn element(self) -> (r: Option<usize>)
        ensures
            r == self.elem(),
    {
        match self {
            LookupResult::Found(e, _) => Some(e),
            _ => None,
        }
    }

    pub open spec fn ok(self, n: nat, ns: nat) -> bool {
        match self {
            LookupResult::Found(e, s) => e < n && below(s, ns),
            _ => true,
        }
    }
}

/// A verdict of a filter condition on an element; an undecided condition
/// keeps the element visible.
#[derive(Clone, Copy, Debug, PartialEq, Eq, Structural)]
pub enum Tri {
    True,
    False,
    Unknown,
}

/// The outcome of one query at a scope: which query asked last, and what it
/// got. No result under the asking query means the query is still working.
#[derive(Clone, Copy, PartialEq, Eq, Structural)]
pub struct Visit {
    pub stamp: u64,
    pub result: Option<LookupResult>,
}

/// The visits of a scope, one for each access.
#[derive(Clone, Copy, PartialEq, Eq, Structural)]
pub struct VisitRow {
    pub public: Visit,
    pub protected: Visit,
    pub all: Visit,
}

impl VisitRow {
    pub open spec fn at(self, access: LookupAccess) -> Visit {
        match access {
            LookupAccess::Public => self.public,
            LookupAccess::Protected => self.protected,
            LookupAccess::All => self.all,
        }
    }

    pub open spec fn with(self, access: LookupAccess, v: Visit) -> VisitRow {
        match access {
            LookupAccess::Public => VisitRow { public: v, ..self },
            LookupAccess::Protected => VisitRow { protected: v, ..self },
            LookupAccess::All => VisitRow { all: v, ..self },
        }
    }

    pub open spec fn ok(self, n: nat, ns: nat) -> bool {
        &&& (self.public.result is Some ==> self.public.result->0.ok(n, ns))
        &&& (self.protected.result is Some ==> self.protected.result->0.ok(n, ns))
        &&& (self.all.result is Some ==> self.all.result->0.ok(n, ns))
    }
}

/// A namespace import in force: the import's position in its scope, and the
/// scope it opens.
#[derive(Clone, Copy, Debug, PartialEq, Eq, Structural)]
pub struct OpenImport {
    pub entry: usize,
    pub scope: usize,
}

/// A member import being resolved: its scope and position.
#[derive(Clone, Copy, Debug, PartialEq, Eq, Structural)]
pub struct ActiveImport {
    pub scope: usize,
    pub entry: usize,
}

/// A graph with its name resolution state.
pub struct Resolver {
    pub graph: Builder,
    /// First element that is no library element.
    pub lib_boundary: usize,
    /// The imports in force per scope, once computed.
    pub imports: Vec<Option<Vec<OpenImport>>>,
    /// What each namespace import of a scope resolved to.
    pub import_elems: Vec<Vec<Option<usize>>>,
    /// The inherited scopes per scope, once computed.
    pub bases: Vec<Option<Vec<usize>>>,
    pub visits: Vec<VisitRow>,
    pub stamp: u64,
    /// Which import relationships a lookup went through.
    pub used: Vec<bool>,
    /// Element that must not be a resolution result.
    pub exclude: Option<usize>,
    /// Whether effective names are skipped.
    pub declared_only: bool,
    pub filters_active: Vec<bool>,
    pub active: Vec<ActiveImport>,
    /// The library's semantic metadata definition, once looked up.
    pub semantic: Option<Option<usize>>,
    /// Resolution outcome per specialization record.
    pub resolved: Vec<Option<usize>>,
    /// The root names that searches missed.
    pub misses: Misses,
}

#[verifier::ext_equal]
pub struct RV {
    pub g: BV,
    pub lib_boundary: usize,
    pub imports: Seq<Option<Seq<OpenImport>>>,
    pub import_elems: Seq<Seq<Option<usize>>>,
    pub bases: Seq<Option<Seq<usize>>>,
    pub visits: Seq<VisitRow>,
    pub stamp: u64,
    pub used: Seq<bool>,
    pub exclude: Option<usize>,
    pub declared_only: bool,
    pub filters_active: Seq<bool>,
    pub active: Seq<ActiveImport>,
    pub semantic: Option<Option<usize>>,
    pub resolved: Seq<Option<usize>>,
    pub misses: MissesV,
}

pub open spec fn opt_seq<T>(o: Option<Vec<T>>) -> Option<Seq<T>> {
    match o {
        Some(v) => Some(v@),
        None => None,
    }
}

pub open spec fn cache_view<T>(s: Seq<Option<Vec<T>>>) -> Seq<Option<Seq<T>>> {
    s.map_values(|o: Option<Vec<T>>| opt_seq(o))
}

pub open spec fn rows_view<T>(s: Seq<Vec<T>>) -> Seq<Seq<T>> {
    s.map_values(|o: Vec<T>| o@)
}

/// How many entries are not computed yet.
pub open spec fn none_count<T>(s: Seq<Option<T>>) -> nat
    decreases s.len(),
{
    if s.len() == 0 {
        0
    } else {
        none_count(s.drop_last()) + if s.last() is None {
            1nat
        } else {
            0nat
        }
    }
}

/// How many flags are down.
pub open spec fn false_count(s: Seq<bool>) -> nat
    decreases s.len(),
{
    if s.len() == 0 {
        0
    } else {
        false_count(s.drop_last()) + if s.last() {
            0nat
        } else {
            1nat
        }
    }
}

pub proof fn lemma_none_count_update<T>(s: Seq<Option<T>>, i: int, v: Option<T>)
    requires
        0 <= i < s.len(),
    ensures
        none_count(s.update(i, v)) + (if s[i] is None {
            1nat
        } else {
            0nat
        }) == none_count(s) + (if v is None {
            1nat
        } else {
            0nat
        }),
    decreases s.len(),
{
    let u = s.update(i, v);
    if i < s.len() - 1 {
        lemma_none_count_update(s.drop_last(), i, v);
        assert(u.drop_last() =~= s.drop_last().update(i, v));
        assert(u.last() == s.last());
    } else {
        assert(u.drop_last() =~= s.drop_last());
    }
}

pub proof fn lemma_false_count_update(s: Seq<bool>, i: int, v: bool)
    requires
        0 <= i < s.len(),
    ensures
        false_count(s.update(i, v)) + (if s[i] {
            0nat
        } else {
            1nat
        }) == false_count(s) + (if v {
            0nat
        } else {
            1nat
        }),
    decreases s.len(),
{
    let u = s.update(i, v);
    if i < s.len() - 1 {
        lemma_false_count_update(s.drop_last(), i, v);
        assert(u.drop_last() =~= s.drop_last().update(i, v));
        assert(u.last() == s.last());
    } else {
        assert(u.drop_last() =~= s.drop_last());
    }
}

pub proof fn lemma_none_count_bound<T>(s: Seq<Option<T>>)
    ensures
        none_count(s) <= s.len(),
    decreases s.len(),
{
    if s.len() > 0 {
        lemma_none_count_bound(s.drop_last());
    }
}

pub proof fn lemma_false_count_bound(s: Seq<bool>)
    ensures
        false_count(s) <= s.len(),
    decreases s.len(),
{
    if s.len() > 0 {
        lemma_false_count_bound(s.drop_last());
    }
}

impl RV {
    pub open spec fn n(self) -> nat {
        self.g.n()
    }

    pub open spec fn ns(self) -> nat {
        self.g.ns()
    }

    /// How much is left to compute: the scopes without their imports or
    /// bases, and the filters not being evaluated.
    pub open spec fn open_count(self) -> nat {
        none_count(self.imports) + none_count(self.bases) + false_count(self.filters_active)
    }


    /// Every table fits the graph, and every index they hold is valid.
    #[verifier::opaque]
    pub open spec fn wf(self) -> bool {
        &&& self.g.wf()
        &&& self.ns() > 0
        &&& self.imports.len() == self.ns()
        &&& self.import_elems.len() == self.ns()
        &&& self.bases.len() == self.ns()
        &&& self.visits.len() == self.ns()
        &&& self.used.len() == self.n()
        &&& self.filters_active.len() == self.g.filter_exprs.len()
        &&& self.resolved.len() == self.g.spec_targets.len()
        &&& self.misses.imports.len() == self.ns()
        &&& self.misses.bases.len() == self.ns()
        &&& forall|s: int|
            0 <= s < self.ns() ==> self.imports_ok(s, #[trigger] self.imports[s])
        &&& forall|s: int|
            0 <= s < self.ns() ==> (#[trigger] self.bases[s] is Some ==> crate::state::all_below(
                self.bases[s]->0,
                self.ns(),
            ))
        &&& forall|s: int| 0 <= s < self.ns() ==> (#[trigger] self.visits[s]).ok(self.n(), self.ns())
        &&& forall|s: int|
            0 <= s < self.ns() ==> elems_ok(#[trigger] self.import_elems[s], self.n())
        &&& (self.semantic is Some ==> below(self.semantic->0, self.n()))
        &&& elems_ok(self.resolved, self.n())
    }

    pub open spec fn imports_ok(self, s: int, v: Option<Seq<OpenImport>>) -> bool {
        v is Some ==> forall|k: int|
            0 <= k < v->0.len() ==> (#[trigger] v->0[k]).entry < self.g.scopes[s].imports.len()
                && v->0[k].scope < self.ns()
    }

    #[verifier::opaque]
    pub open spec fn next_stamp(self) -> (RV, u64) {
        let s = if self.stamp == u64::MAX {
            0u64
        } else {
            (self.stamp + 1) as u64
        };
        (RV { stamp: s, ..self }, s)
    }

    #[verifier::opaque]
    pub open spec fn set_visit(self, s: usize, access: LookupAccess, v: Visit) -> RV {
        RV { visits: self.visits.update(s as int, self.visits[s as int].with(access, v)), ..self }
    }

    #[verifier::opaque]
    pub open spec fn set_import_cache(self, s: usize, v: Seq<OpenImport>) -> RV {
        RV { imports: self.imports.update(s as int, Some(v)), ..self }
    }

    #[verifier::opaque]
    pub open spec fn set_import_elems(self, s: usize, v: Seq<Option<usize>>) -> RV {
        RV { import_elems: self.import_elems.update(s as int, v), ..self }
    }

    #[verifier::opaque]
    pub open spec fn set_base_cache(self, s: usize, v: Seq<usize>) -> RV {
        RV { bases: self.bases.update(s as int, Some(v)), ..self }
    }

    #[verifier::opaque]
    pub open spec fn mark_used(self, rel: usize) -> RV {
        RV { used: self.used.update(rel as int, true), ..self }
    }

    #[verifier::opaque]
    pub open spec fn set_exclude(self, e: Option<usize>) -> RV {
        RV { exclude: e, ..self }
    }

    #[verifier::opaque]
    pub open spec fn set_declared_only(self, v: bool) -> RV {
        RV { declared_only: v, ..self }
    }

    #[verifier::opaque]
    pub open spec fn enter_member(self, s: usize, i: usize) -> RV {
        RV { active: self.active.push(ActiveImport { scope: s, entry: i }), ..self }
    }

    /// The member import entered last is done.
    #[verifier::opaque]
    pub open spec fn leave_member(self) -> RV {
        RV {
            active: if self.active.len() > 0 {
                self.active.drop_last()
            } else {
                self.active
            },
            ..self
        }
    }

    #[verifier::opaque]
    pub open spec fn set_filter_active(self, f: usize, v: bool) -> RV {
        RV { filters_active: self.filters_active.update(f as int, v), ..self }
    }

    #[verifier::opaque]
    pub open spec fn set_semantic(self, e: Option<usize>) -> RV {
        RV { semantic: Some(e), ..self }
    }

    #[verifier::opaque]
    pub open spec fn set_resolved(self, i: usize, e: Option<usize>) -> RV {
        RV { resolved: self.resolved.update(i as int, e), ..self }
    }
}

pub open spec fn elems_ok(s: Seq<Option<usize>>, n: nat) -> bool {
    forall|k: int| 0 <= k < s.len() ==> below(#[trigger] s[k], n)
}

pub open spec fn hits_ok(s: Seq<LookupResult>, n: nat, ns: nat) -> bool {
    forall|k: int| 0 <= k < s.len() ==> (#[trigger] s[k]).ok(n, ns)
}

/// A graph whose lookups have something left to compute has budget left.
pub proof fn lemma_none_positive<T>(s: Seq<Option<T>>, i: int)
    requires
        0 <= i < s.len(),
        s[i] is None,
    ensures
        none_count(s) > 0,
    decreases s.len(),
{
    if i < s.len() - 1 {
        lemma_none_positive(s.drop_last(), i);
    }
}

pub proof fn lemma_false_positive(s: Seq<bool>, i: int)
    requires
        0 <= i < s.len(),
        !s[i],
    ensures
        false_count(s) > 0,
    decreases s.len(),
{
    if i < s.len() - 1 {
        lemma_false_positive(s.drop_last(), i);
    }
}

/// The tables of a resolution state have the graph's sizes.
pub proof fn lemma_table_sizes(r: RV)
    requires
        r.wf(),
    ensures
        r.imports.len() == r.ns(),
        r.bases.len() == r.ns(),
        r.filters_active.len() == r.g.filter_exprs.len(),
        r.resolved.len() == r.g.spec_targets.len(),
        r.g.wf(),
{
    reveal(RV::wf);
}

impl Resolver {
    #[verifier::opaque]
    pub open spec fn view(&self) -> RV {
        RV {
            g: self.graph@,
            lib_boundary: self.lib_boundary,
            imports: cache_view(self.imports@),
            import_elems: rows_view(self.import_elems@),
            bases: cache_view(self.bases@),
            visits: self.visits@,
            stamp: self.stamp,
            used: self.used@,
            exclude: self.exclude,
            declared_only: self.declared_only,
            filters_active: self.filters_active@,
            active: self.active@,
            semantic: self.semantic,
            resolved: self.resolved@,
            misses: self.misses@,
        }
    }

    pub fn next_stamp(&mut self) -> (r: u64)
        requires
            old(self)@.wf(),
        ensures
            (final(self)@, r) == old(self)@.next_stamp(),
            final(self)@.wf(),
            final(self)@.g == old(self)@.g,
            final(self)@.lib_boundary == old(self)@.lib_boundary,
            final(self)@.open_count() == old(self)@.open_count(),
    {
        proof {
            reveal(Resolver::view);
            reveal(RV::wf);
            reveal(RV::next_stamp);
        }
        self.stamp = if self.stamp == u64::MAX {
            0
        } else {
            self.stamp + 1
        };
        assert(self@ =~= old(self)@.next_stamp().0);
        proof {
            assert forall|t: int| 0 <= t < self@.ns() implies self@.imports_ok(t, #[trigger] self@.imports[t]) by {
                assert(old(self)@.imports_ok(t, old(self)@.imports[t]));
            }
        }
        self.stamp
    }

    pub fn set_visit(&mut self, s: usize, access: LookupAccess, v: Visit)
        requires
            old(self)@.wf(),
            s < old(self)@.ns(),
            v.result is Some ==> v.result->0.ok(old(self)@.n(), old(self)@.ns()),
        ensures
            final(self)@ == old(self)@.set_visit(s, access, v),
            final(self)@.wf(),
            final(self)@.g == old(self)@.g,
            final(self)@.lib_boundary == old(self)@.lib_boundary,
            final(self)@.open_count() == old(self)@.open_count(),
    {
        proof {
            reveal(Resolver::view);
            reveal(RV::wf);
            reveal(RV::set_visit);
        }
        let mut row = self.visits[s];
        match access {
            LookupAccess::Public => {
                row.public = v;
            },
            LookupAccess::Protected => {
                row.protected = v;
            },
            LookupAccess::All => {
                row.all = v;
            },
        }
        assert(row == old(self)@.visits[s as int].with(access, v));
        self.visits.set(s, row);
        assert(self@ =~= old(self)@.set_visit(s, access, v));
        proof {
            assert forall|t: int| 0 <= t < self@.ns() implies self@.imports_ok(t, #[trigger] self@.imports[t]) by {
                assert(old(self)@.imports_ok(t, old(self)@.imports[t]));
            }
        }
    }

    pub fn set_import_cache(&mut self, s: usize, v: Vec<OpenImport>)
        requires
            old(self)@.wf(),
            s < old(self)@.ns(),
            old(self)@.imports_ok(s as int, Some(v@)),
        ensures
            final(self)@ == old(self)@.set_import_cache(s, v@),
            final(self)@.wf(),
            final(self)@.g == old(self)@.g,
            final(self)@.lib_boundary == old(self)@.lib_boundary,
            old(self)@.imports[s as int] is None ==> final(self)@.open_count() + 1 == old(self)@.open_count(),
            old(self)@.imports[s as int] is Some ==> final(self)@.open_count() == old(self)@.open_count(),
            final(self)@.imports[s as int] is Some,
    {
        proof {
            reveal(Resolver::view);
            reveal(RV::wf);
            reveal(RV::set_import_cache);
            lemma_none_count_update(self@.imports, s as int, Some(v@));
        }
        self.imports.set(s, Some(v));
        assert(cache_view(self.imports@) =~= cache_view(old(self).imports@).update(s as int, Some(v@)));
        assert(self@ =~= old(self)@.set_import_cache(s, v@));
        proof {
            assert forall|t: int| 0 <= t < self@.ns() implies self@.imports_ok(t, #[trigger] self@.imports[t]) by {
                assert(old(self)@.imports_ok(t, old(self)@.imports[t]));
            }
        }
    }

    pub fn set_import_elems(&mut self, s: usize, v: Vec<Option<usize>>)
        requires
            old(self)@.wf(),
            s < old(self)@.ns(),
            elems_ok(v@, old(self)@.n()),
        ensures
            final(self)@ == old(self)@.set_import_elems(s, v@),
            final(self)@.wf(),
            final(self)@.g == old(self)@.g,
            final(self)@.lib_boundary == old(self)@.lib_boundary,
            final(self)@.open_count() == old(self)@.open_count(),
            final(self)@.imports == old(self)@.imports,
    {
        proof {
            reveal(Resolver::view);
            reveal(RV::wf);
            reveal(RV::set_import_elems);
        }
        self.import_elems.set(s, v);
        assert(rows_view(self.import_elems@) =~= rows_view(old(self).import_elems@).update(s as int, v@));
        assert(self@ =~= old(self)@.set_import_elems(s, v@));
        proof {
            assert forall|t: int| 0 <= t < self@.ns() implies self@.imports_ok(t, #[trigger] self@.imports[t]) by {
                assert(old(self)@.imports_ok(t, old(self)@.imports[t]));
            }
        }
    }

    pub fn set_base_cache(&mut self, s: usize, v: Vec<usize>)
        requires
            old(self)@.wf(),
            s < old(self)@.ns(),
            crate::state::all_below(v@, old(self)@.ns()),
        ensures
            final(self)@ == old(self)@.set_base_cache(s, v@),
            final(self)@.wf(),
            final(self)@.g == old(self)@.g,
            final(self)@.lib_boundary == old(self)@.lib_boundary,
            old(self)@.bases[s as int] is None ==> final(self)@.open_count() + 1 == old(self)@.open_count(),
            old(self)@.bases[s as int] is Some ==> final(self)@.open_count() == old(self)@.open_count(),
            final(self)@.bases[s as int] is Some,
    {
        proof {
            reveal(Resolver::view);
            reveal(RV::wf);
            reveal(RV::set_base_cache);
            lemma_none_count_update(self@.bases, s as int, Some(v@));
        }
        self.bases.set(s, Some(v));
        assert(cache_view(self.bases@) =~= cache_view(old(self).bases@).update(s as int, Some(v@)));
        assert(self@ =~= old(self)@.set_base_cache(s, v@));
        proof {
            assert forall|t: int| 0 <= t < self@.ns() implies self@.imports_ok(t, #[trigger] self@.imports[t]) by {
                assert(old(self)@.imports_ok(t, old(self)@.imports[t]));
            }
        }
    }

    pub fn mark_used(&mut self, rel: usize)
        requires
            old(self)@.wf(),
            rel < old(self)@.n(),
        ensures
            final(self)@ == old(self)@.mark_used(rel),
            final(self)@.wf(),
            final(self)@.g == old(self)@.g,
            final(self)@.lib_boundary == old(self)@.lib_boundary,
            final(self)@.open_count() == old(self)@.open_count(),
    {
        proof {
            reveal(Resolver::view);
            reveal(RV::wf);
            reveal(RV::mark_used);
        }
        self.used.set(rel, true);
        assert(self@ =~= old(self)@.mark_used(rel));
        proof {
            assert forall|t: int| 0 <= t < self@.ns() implies self@.imports_ok(t, #[trigger] self@.imports[t]) by {
                assert(old(self)@.imports_ok(t, old(self)@.imports[t]));
            }
        }
    }

    pub fn set_exclude(&mut self, e: Option<usize>)
        requires
            old(self)@.wf(),
        ensures
            final(self)@ == old(self)@.set_exclude(e),
            final(self)@.wf(),
            final(self)@.g == old(self)@.g,
            final(self)@.lib_boundary == old(self)@.lib_boundary,
            final(self)@.open_count() == old(self)@.open_count(),
    {
        proof {
            reveal(Resolver::view);
            reveal(RV::wf);
            reveal(RV::set_exclude);
        }
        self.exclude = e;
        assert(self@ =~= old(self)@.set_exclude(e));
        proof {
            assert forall|t: int| 0 <= t < self@.ns() implies self@.imports_ok(t, #[trigger] self@.imports[t]) by {
                assert(old(self)@.imports_ok(t, old(self)@.imports[t]));
            }
        }
    }

    pub fn set_declared_only(&mut self, v: bool)
        requires
            old(self)@.wf(),
        ensures
            final(self)@ == old(self)@.set_declared_only(v),
            final(self)@.wf(),
            final(self)@.g == old(self)@.g,
            final(self)@.lib_boundary == old(self)@.lib_boundary,
            final(self)@.open_count() == old(self)@.open_count(),
    {
        proof {
            reveal(Resolver::view);
            reveal(RV::wf);
            reveal(RV::set_declared_only);
        }
        self.declared_only = v;
        assert(self@ =~= old(self)@.set_declared_only(v));
        proof {
            assert forall|t: int| 0 <= t < self@.ns() implies self@.imports_ok(t, #[trigger] self@.imports[t]) by {
                assert(old(self)@.imports_ok(t, old(self)@.imports[t]));
            }
        }
    }

    pub fn enter_member(&mut self, s: usize, i: usize)
        requires
            old(self)@.wf(),
        ensures
            final(self)@ == old(self)@.enter_member(s, i),
            final(self)@.wf(),
            final(self)@.g == old(self)@.g,
            final(self)@.lib_boundary == old(self)@.lib_boundary,
            final(self)@.open_count() == old(self)@.open_count(),
    {
        proof {
            reveal(Resolver::view);
            reveal(RV::wf);
            reveal(RV::enter_member);
        }
        self.active.push(ActiveImport { scope: s, entry: i });
        assert(self@ =~= old(self)@.enter_member(s, i));
        proof {
            assert forall|t: int| 0 <= t < self@.ns() implies self@.imports_ok(t, #[trigger] self@.imports[t]) by {
                assert(old(self)@.imports_ok(t, old(self)@.imports[t]));
            }
        }
    }

    pub fn leave_member(&mut self)
        requires
            old(self)@.wf(),
        ensures
            final(self)@ == old(self)@.leave_member(),
            final(self)@.wf(),
            final(self)@.g == old(self)@.g,
            final(self)@.lib_boundary == old(self)@.lib_boundary,
            final(self)@.open_count() == old(self)@.open_count(),
    {
        proof {
            reveal(Resolver::view);
            reveal(RV::wf);
            reveal(RV::leave_member);
        }
        self.active.pop();
        assert(self@.active =~= old(self)@.leave_member().active);
        assert(self@ =~= old(self)@.leave_member());
        proof {
            assert forall|t: int| 0 <= t < self@.ns() implies self@.imports_ok(t, #[trigger] self@.imports[t]) by {
                assert(old(self)@.imports_ok(t, old(self)@.imports[t]));
            }
        }
    }

    pub fn set_filter_active(&mut self, f: usize, v: bool)
        requires
            old(self)@.wf(),
            f < old(self)@.g.filter_exprs.len(),
        ensures
            final(self)@ == old(self)@.set_filter_active(f, v),
            final(self)@.wf(),
            final(self)@.g == old(self)@.g,
            final(self)@.lib_boundary == old(self)@.lib_boundary,
            v && !old(self)@.filters_active[f as int] ==> final(self)@.open_count() + 1 == old(self)@.open_count(),
            final(self)@.open_count() <= old(self)@.open_count() + 1,
    {
        proof {
            reveal(Resolver::view);
            reveal(RV::wf);
            reveal(RV::set_filter_active);
            lemma_false_count_update(self@.filters_active, f as int, v);
        }
        self.filters_active.set(f, v);
        assert(self@ =~= old(self)@.set_filter_active(f, v));
        proof {
            assert forall|t: int| 0 <= t < self@.ns() implies self@.imports_ok(t, #[trigger] self@.imports[t]) by {
                assert(old(self)@.imports_ok(t, old(self)@.imports[t]));
            }
        }
    }

    pub fn set_semantic(&mut self, e: Option<usize>)
        requires
            old(self)@.wf(),
            below(e, old(self)@.n()),
        ensures
            final(self)@ == old(self)@.set_semantic(e),
            final(self)@.wf(),
            final(self)@.g == old(self)@.g,
            final(self)@.lib_boundary == old(self)@.lib_boundary,
            final(self)@.open_count() == old(self)@.open_count(),
    {
        proof {
            reveal(Resolver::view);
            reveal(RV::wf);
            reveal(RV::set_semantic);
        }
        self.semantic = Some(e);
        assert(self@ =~= old(self)@.set_semantic(e));
        proof {
            assert forall|t: int| 0 <= t < self@.ns() implies self@.imports_ok(t, #[trigger] self@.imports[t]) by {
                assert(old(self)@.imports_ok(t, old(self)@.imports[t]));
            }
        }
    }

    pub fn set_resolved(&mut self, i: usize, e: Option<usize>)
        requires
            old(self)@.wf(),
            i < old(self)@.g.spec_targets.len(),
            below(e, old(self)@.n()),
        ensures
            final(self)@ == old(self)@.set_resolved(i, e),
            final(self)@.wf(),
            final(self)@.g == old(self)@.g,
            final(self)@.lib_boundary == old(self)@.lib_boundary,
            final(self)@.open_count() == old(self)@.open_count(),
    {
        proof {
            reveal(Resolver::view);
            reveal(RV::wf);
            reveal(RV::set_resolved);
        }
        self.resolved.set(i, e);
        assert(self@ =~= old(self)@.set_resolved(i, e));
        proof {
            assert forall|t: int| 0 <= t < self@.ns() implies self@.imports_ok(t, #[trigger] self@.imports[t]) by {
                assert(old(self)@.imports_ok(t, old(self)@.imports[t]));
            }
        }
    }
}

} // verus!
