//! The start of name resolution.
use crate::misses::{no_misses, Misses};
use crate::rstate::{cache_view, rows_view, OpenImport, Resolver, Visit, VisitRow, RV};
use crate::state::{Builder, BV};
use vstd::prelude::*;

verus! {

pub open spec fn no_visit() -> Visit {
    Visit { stamp: 0, result: None }
}

/// The resolution state of a graph before anything was looked up.
pub open spec fn fresh(g: BV, lib_boundary: usize) -> RV {
    RV {
        g,
        lib_boundary,
        imports: Seq::new(g.ns(), |i: int| None),
        import_elems: Seq::new(g.ns(), |i: int| Seq::empty()),
        bases: Seq::new(g.ns(), |i: int| None),
        visits: Seq::new(
            g.ns(),
            |i: int| VisitRow { public: no_visit(), protected: no_visit(), all: no_visit() },
        ),
        stamp: 0,
        used: Seq::new(g.n(), |i: int| false),
        exclude: None,
        declared_only: false,
        filters_active: Seq::new(g.filter_exprs.len(), |i: int| false),
        active: Seq::empty(),
        semantic: None,
        resolved: Seq::new(g.spec_targets.len(), |i: int| None),
        misses: no_misses(g.ns()),
    }
}

fn flags(n: usize) -> (r: Vec<bool>)
    ensures
        r@ == Seq::new(n as nat, |i: int| false),
{
    let mut r: Vec<bool> = Vec::new();
    while r.len() < n
        invariant
            r@.len() <= n,
            forall|i: int| 0 <= i < r@.len() ==> !r@[i],
        decreases n - r@.len(),
    {
        r.push(false);
    }
    assert(r@ =~= Seq::new(n as nat, |i: int| false));
    r
}

fn unknowns(n: usize) -> (r: Vec<Option<usize>>)
    ensures
        r@ == Seq::new(n as nat, |i: int| None::<usize>),
{
    let mut r: Vec<Option<usize>> = Vec::new();
    while r.len() < n
        invariant
            r@.len() <= n,
            forall|i: int| 0 <= i < r@.len() ==> r@[i] is None,
        decreases n - r@.len(),
    {
        r.push(None);
    }
    assert(r@ =~= Seq::new(n as nat, |i: int| None::<usize>));
    r
}

fn unvisited(n: usize) -> (r: Vec<VisitRow>)
    ensures
        r@ == Seq::new(
            n as nat,
            |i: int| VisitRow { public: no_visit(), protected: no_visit(), all: no_visit() },
        ),
{
    let mut r: Vec<VisitRow> = Vec::new();
    let v = Visit { stamp: 0, result: None };
    while r.len() < n
        invariant
            r@.len() <= n,
            v == no_visit(),
            forall|i: int|
                0 <= i < r@.len() ==> r@[i] == (VisitRow {
                    public: no_visit(),
                    protected: no_visit(),
                    all: no_visit(),
                }),
        decreases n - r@.len(),
    {
        r.push(VisitRow { public: v, protected: v, all: v });
    }
    assert(r@ =~= Seq::new(
        n as nat,
        |i: int| VisitRow { public: no_visit(), protected: no_visit(), all: no_visit() },
    ));
    r
}

fn no_imports_yet(n: usize) -> (r: Vec<Option<Vec<OpenImport>>>)
    ensures
        cache_view(r@) == Seq::new(n as nat, |i: int| None::<Seq<OpenImport>>),
{
    let mut r: Vec<Option<Vec<OpenImport>>> = Vec::new();
    while r.len() < n
        invariant
            r@.len() <= n,
            forall|i: int| 0 <= i < r@.len() ==> r@[i] is None,
        decreases n - r@.len(),
    {
        r.push(None);
    }
    assert(cache_view(r@) =~= Seq::new(n as nat, |i: int| None::<Seq<OpenImport>>));
    r
}

fn no_bases_yet(n: usize) -> (r: Vec<Option<Vec<usize>>>)
    ensures
        cache_view(r@) == Seq::new(n as nat, |i: int| None::<Seq<usize>>),
{
    let mut r: Vec<Option<Vec<usize>>> = Vec::new();
    while r.len() < n
        invariant
            r@.len() <= n,
            forall|i: int| 0 <= i < r@.len() ==> r@[i] is None,
        decreases n - r@.len(),
    {
        r.push(None);
    }
    assert(cache_view(r@) =~= Seq::new(n as nat, |i: int| None::<Seq<usize>>));
    r
}

fn no_outcomes_yet(n: usize) -> (r: Vec<Vec<Option<usize>>>)
    ensures
        rows_view(r@) == Seq::new(n as nat, |i: int| Seq::<Option<usize>>::empty()),
{
    let mut r: Vec<Vec<Option<usize>>> = Vec::new();
    while r.len() < n
        invariant
            r@.len() <= n,
            forall|i: int| 0 <= i < r@.len() ==> r@[i]@ == Seq::<Option<usize>>::empty(),
        decreases n - r@.len(),
    {
        let row: Vec<Option<usize>> = Vec::new();
        assert(row@ =~= Seq::<Option<usize>>::empty());
        r.push(row);
    }
    assert(rows_view(r@) =~= Seq::new(n as nat, |i: int| Seq::<Option<usize>>::empty()));
    r
}

impl Resolver {
    /// Resolution over a graph, with nothing looked up yet.
    pub fn new(graph: Builder, lib_boundary: usize) -> (r: Resolver)
        requires
            graph@.wf(),
            graph@.ns() > 0,
        ensures
            r@ == fresh(graph@, lib_boundary),
            r@.wf(),
    {
        proof {
            reveal(Builder::view);
            reveal(Resolver::view);
            reveal(RV::wf);
        }
        let n: usize = graph.elements.len();
        let ns: usize = graph.scopes.len();
        let nf: usize = graph.filter_exprs.len();
        let nt: usize = graph.spec_targets.len();
        let r = Resolver {
            graph,
            lib_boundary,
            imports: no_imports_yet(ns),
            import_elems: no_outcomes_yet(ns),
            bases: no_bases_yet(ns),
            visits: unvisited(ns),
            stamp: 0,
            used: flags(n),
            exclude: None,
            declared_only: false,
            filters_active: flags(nf),
            active: Vec::new(),
            semantic: None,
            resolved: unknowns(nt),
            misses: Misses::new(ns),
        };
        assert(r@ =~= fresh(graph@, lib_boundary));
        r
    }
}

} // verus!
