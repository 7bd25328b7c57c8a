//! Building all units of a model into one resolved graph.
use crate::assign_ids::IdWork;
use crate::ast::{Dialect, ModelUnit};
use crate::cache_format::CacheV;
use crate::lib_names::{
    effective_table, lib_pending_fingerprint, record_lib_effective_names, refs_hash,
};
use crate::libcache::{rows_view, texts, LibraryCache, Row};
use crate::linker::Linker;
use crate::linking::{linked, Hint, LV};
use crate::naming_ids::{library_ids, own_ids, user_ids, with_ids, IdsV};
use crate::resolver_new::fresh;
use crate::rstate::{Resolver, RV};
use crate::shadowing::{introduces, introduces_any, is_replayable, replayable};
use crate::shape;
use crate::state::{all_below, empty_graph, Builder, BV};
use crate::text::{concat, joined};
use std::collections::HashMap;
use vstd::prelude::*;

verus! {

/// The positions from `k` on of the library units, or of the others.
pub open spec fn order_from(units: Seq<ModelUnit>, lib: bool, k: int) -> Seq<usize>
    decreases units.len() - k,
    when 0 <= k
{
    if k >= units.len() {
        Seq::empty()
    } else if units[k].is_library == lib {
        seq![k as usize] + order_from(units, lib, k + 1)
    } else {
        order_from(units, lib, k + 1)
    }
}

/// Units as they are built: where each starts, and the library's roots.
#[verifier::ext_equal]
pub struct UnitsV {
    pub b: BV,
    pub unit_starts: Seq<(usize, usize)>,
    pub scope_starts: Seq<(usize, usize)>,
    pub lib_roots: Seq<(usize, Dialect)>,
}

/// One more unit, at position `k` of the model.
#[verifier::opaque]
pub open spec fn with_unit(u: UnitsV, unit: ModelUnit, k: usize) -> UnitsV {
    let unit_starts = u.unit_starts.push((u.b.n() as usize, k));
    let scope_starts = u.scope_starts.push((u.b.ns() as usize, k));
    let (b, root) = u.b.set_dialect(unit.unit.dialect).new_root(
        "Namespace"@,
        joined("$root/"@, unit.name@),
    );
    UnitsV {
        b: shape::build_members(b, unit.unit.members, root, 0),
        unit_starts,
        scope_starts,
        lib_roots: if unit.is_library {
            u.lib_roots.push((root, unit.unit.dialect))
        } else {
            u.lib_roots
        },
    }
}

/// The units of one kind from position `k` on.
pub open spec fn with_units(u: UnitsV, units: Seq<ModelUnit>, lib: bool, k: int) -> UnitsV
    decreases units.len() - k,
    when 0 <= k
{
    if k >= units.len() {
        u
    } else {
        with_units(
            if units[k].is_library == lib {
                with_unit(u, units[k], k as usize)
            } else {
                u
            },
            units,
            lib,
            k + 1,
        )
    }
}

/// Which library outcomes a build takes over or records.
pub enum CacheSlot {
    Off,
    Record,
    Replay(LibraryCache),
}

/// The cache that a build is offered: none where the user's names could
/// capture a library reference.
pub open spec fn replayed(units: Seq<ModelUnit>, slot: CacheSlot) -> Option<CacheV> {
    match slot {
        CacheSlot::Replay(c) => if replayable(units) {
            Some(c@)
        } else {
            None
        },
        _ => None,
    }
}

pub open spec fn start_graph() -> BV {
    empty_graph(Dialect::Sysml).push_scope(None).0
}

/// The graph of the library units.
pub open spec fn library_units(units: Seq<ModelUnit>) -> UnitsV {
    with_units(
        UnitsV {
            b: start_graph(),
            unit_starts: Seq::empty(),
            scope_starts: Seq::empty(),
            lib_roots: Seq::empty(),
        },
        units,
        true,
        0,
    )
}

/// The graph of all units, library units first.
pub open spec fn all_units(units: Seq<ModelUnit>) -> UnitsV {
    with_units(library_units(units), units, false, 0)
}

/// What a build leaves behind.
pub struct BuiltV {
    pub l: LV,
    pub boundary: usize,
    pub scope_starts: Seq<(usize, usize)>,
    pub qnames: Seq<(u128, Seq<Seq<char>>)>,
    pub mem_qnames: Seq<(u128, Seq<Seq<char>>)>,
    pub recorded: Option<CacheV>,
}

/// A graph before its references are resolved.
pub open spec fn unlinked(
    b: BV,
    boundary: usize,
    starts: Seq<(usize, usize)>,
    hints: Seq<Option<Hint>>,
) -> LV {
    LV {
        r: fresh(b, boundary),
        unit_starts: starts,
        hints,
        unresolved: Seq::empty(),
        ambiguous: Seq::empty(),
        sites: Seq::empty(),
        recorded: Seq::empty(),
        missed: Seq::empty(),
        unsure: Seq::empty(),
    }
}

/// The roots of the user's units: the unit starts from the boundary on.
pub open spec fn user_roots(starts: Seq<(usize, usize)>, boundary: usize, k: int) -> Seq<usize>
    decreases starts.len() - k,
    when 0 <= k
{
    if k >= starts.len() {
        Seq::empty()
    } else if starts[k].0 >= boundary {
        seq![starts[k].0] + user_roots(starts, boundary, k + 1)
    } else {
        user_roots(starts, boundary, k + 1)
    }
}

pub open spec fn no_ids(b: BV) -> IdsV {
    IdsV { ids: own_ids(b), remap: Map::empty(), qnames: Seq::empty(), mem_qnames: Seq::empty() }
}

/// The user's ids put into a linked graph.
#[verifier::opaque]
pub open spec fn with_user_ids(
    l: LV,
    boundary: usize,
    qnames: Seq<(u128, Seq<Seq<char>>)>,
    mem_qnames: Seq<(u128, Seq<Seq<char>>)>,
) -> LV {
    let g = l.r.g;
    let s = user_ids(
        g,
        IdsV { ids: own_ids(g), remap: Map::empty(), qnames, mem_qnames },
        boundary as int,
        user_roots(l.unit_starts, boundary, 0),
    );
    LV { r: RV { g: with_ids(g, s, boundary as int), ..l.r }, ..l }
}

/// Ids given to the first elements of a graph, from the `k`-th on.
pub open spec fn relabelled(s: IdsV, ids: Seq<u128>, k: int) -> IdsV
    decreases ids.len() - k,
    when 0 <= k
{
    if k >= ids.len() {
        s
    } else {
        relabelled(s.reassign(k as usize, ids[k]), ids, k + 1)
    }
}

/// A lowered graph whose first elements have the given ids; every link to
/// them follows.
#[verifier::opaque]
pub open spec fn labelled(b: BV, ids: Seq<u128>) -> BV {
    with_ids(b, relabelled(no_ids(b), ids, 0), 0)
}

/// The ids of a model's library and its name tables, as assigned.
pub open spec fn library_labels(units: Seq<ModelUnit>) -> IdsV {
    let u = library_units(units);
    library_ids(u.b, no_ids(u.b), u.lib_roots, 0)
}

/// How many elements the library units of a model make.
pub open spec fn library_size(units: Seq<ModelUnit>) -> usize {
    library_units(units).b.n() as usize
}

/// The ids of a model's library elements, in creation order.
pub open spec fn library_element_ids(units: Seq<ModelUnit>) -> Seq<u128> {
    library_labels(units).ids
}

/// A model's graph before its references are resolved, the library under the
/// given ids and with the given outcomes to replay.
pub open spec fn prepared(
    units: Seq<ModelUnit>,
    lib_ids: Seq<u128>,
    hints: Seq<Option<Hint>>,
) -> LV {
    let u = all_units(units);
    unlinked(labelled(u.b, lib_ids), library_size(units), u.unit_starts, hints)
}

/// A model's graph before a build without recorded outcomes resolves it.
pub open spec fn unresolved_graph(units: Seq<ModelUnit>) -> LV {
    prepared(units, library_element_ids(units), Seq::empty())
}

/// Hash of a model's library references, in order.
pub open spec fn fingerprint(units: Seq<ModelUnit>) -> u64 {
    let p = library_units(units).b.pending;
    refs_hash(p, library_size(units), p.len() as int)
}

/// The lowered graph of a model is valid, and its library part of it.
pub open spec fn lowers_well(units: Seq<ModelUnit>) -> bool {
    &&& all_units(units).b.wf()
    &&& library_units(units).b.n() <= all_units(units).b.n()
}

/// The library units of a model, resolved with no other unit beside them.
pub open spec fn library_linked(units: Seq<ModelUnit>) -> LV {
    linked(
        unlinked(
            labelled(library_units(units).b, library_element_ids(units)),
            library_size(units),
            Seq::empty(),
            Seq::empty(),
        ),
    )
}

/// What is recorded of a model's library: where its references end, which
/// top-level names they missed on the way, its ids and its names.
pub open spec fn library_recording(units: Seq<ModelUnit>) -> CacheV {
    let s = library_labels(units);
    let l = library_linked(units);
    CacheV {
        outcomes: l.recorded,
        misses: l.missed,
        lib_ids: s.ids,
        lib_qnames: effective_table(
            l.r.g,
            own_ids(l.r.g),
            library_size(units) as int,
            s.qnames,
        ),
        lib_mem_qnames: s.mem_qnames,
        fingerprint: fingerprint(units),
    }
}

/// A linked model with the user's ids; the library's names are those given
/// and those that its linked elements add.
pub open spec fn completed(
    units: Seq<ModelUnit>,
    l: LV,
    qnames: Seq<(u128, Seq<Seq<char>>)>,
    mem_qnames: Seq<(u128, Seq<Seq<char>>)>,
) -> BuiltV {
    let boundary = library_size(units);
    let q = effective_table(l.r.g, own_ids(l.r.g), boundary as int, qnames);
    BuiltV {
        l: with_user_ids(l, boundary, q, mem_qnames),
        boundary,
        scope_starts: all_units(units).scope_starts,
        qnames: q,
        mem_qnames,
        recorded: None,
    }
}

/// A build that searches for every reference.
pub open spec fn searching_build(units: Seq<ModelUnit>) -> BuiltV {
    let s = library_labels(units);
    completed(units, linked(unresolved_graph(units)), s.qnames, s.mem_qnames)
}

/// Whether recorded outcomes fit a model: there is an id for every library
/// element, and the references are those recorded.
pub open spec fn cache_applies(units: Seq<ModelUnit>, c: CacheV) -> bool {
    library_size(units) == c.lib_ids.len() && c.fingerprint == fingerprint(units)
}

/// The recorded outcomes as they are replayed: one whose search missed a
/// top-level name that the user's units introduce is resolved afresh.
/// `unsure` tells which of the misses were ambiguities, as far as that is
/// known.
pub open spec fn replay_hints(
    units: Seq<ModelUnit>,
    c: CacheV,
    unsure: Seq<bool>,
) -> Seq<Option<Hint>> {
    Seq::new(
        c.outcomes.len(),
        |k: int|
            if k < c.misses.len() && introduces(units, c.misses[k]) {
                None
            } else {
                Some(Hint { target: c.outcomes[k], ambiguous: k < unsure.len() && unsure[k] })
            },
    )
}

/// A model's graph before a build that replays a library's outcomes resolves
/// it.
pub open spec fn replaying_graph(units: Seq<ModelUnit>, c: CacheV, unsure: Seq<bool>) -> LV {
    prepared(units, c.lib_ids, replay_hints(units, c, unsure))
}

/// A build that replays a library's outcomes.
pub open spec fn replaying_build(units: Seq<ModelUnit>, c: CacheV, unsure: Seq<bool>) -> BuiltV {
    completed(
        units,
        linked(replaying_graph(units, c, unsure)),
        c.lib_qnames,
        c.lib_mem_qnames,
    )
}

/// A build on the recording of its own library.
pub open spec fn own_build(units: Seq<ModelUnit>) -> BuiltV {
    replaying_build(units, library_recording(units), library_linked(units).unsure)
}

/// A build. The library is resolved on its own and its outcomes replayed
/// beside the user's units, except where the user's names could capture a
/// library reference: then everything is searched for. A cache that applies
/// stands in for resolving the library.
pub open spec fn built(units: Seq<ModelUnit>, slot: CacheSlot) -> BuiltV {
    let m = match replayed(units, slot) {
        Some(c) => if cache_applies(units, c) {
            replaying_build(units, c, Seq::empty())
        } else {
            own_build(units)
        },
        None => if replayable(units) {
            own_build(units)
        } else {
            searching_build(units)
        },
    };
    BuiltV {
        recorded: if slot is Record {
            Some(library_recording(units))
        } else {
            None
        },
        ..m
    }
}

/// A model as one resolved graph.
pub struct Built {
    pub linker: Linker,
    /// The first element that is no library element.
    pub boundary: usize,
    pub scope_starts: Vec<(usize, usize)>,
    pub qnames: Vec<Row>,
    pub mem_qnames: Vec<Row>,
    pub recorded: Option<LibraryCache>,
}

impl Built {
    pub open spec fn view(&self) -> BuiltV {
        BuiltV {
            l: self.linker@,
            boundary: self.boundary,
            scope_starts: self.scope_starts@,
            qnames: rows_view(self.qnames@),
            mem_qnames: rows_view(self.mem_qnames@),
            recorded: match self.recorded {
                Some(c) => Some(c@),
                None => None,
            },
        }
    }
}

/// What is recorded of a library, and which of its misses were ambiguities.
struct Recorded {
    cache: LibraryCache,
    unsure: Vec<bool>,
}

/// The units built so far.
struct Units {
    b: Builder,
    unit_starts: Vec<(usize, usize)>,
    scope_starts: Vec<(usize, usize)>,
    lib_roots: Vec<(usize, Dialect)>,
}

impl Units {
    spec fn view(&self) -> UnitsV {
        UnitsV {
            b: self.b@,
            unit_starts: self.unit_starts@,
            scope_starts: self.scope_starts@,
            lib_roots: self.lib_roots@,
        }
    }

    /// The graph is valid, has its root scope, and every start is an element.
    spec fn ok(&self) -> bool {
        &&& self.b@.wf()
        &&& self.b@.ns() > 0
        &&& forall|k: int| 0 <= k < self.lib_roots@.len() ==> (#[trigger] self.lib_roots@[k]).0 < self.b@.n()
        &&& forall|k: int| 0 <= k < self.unit_starts@.len() ==> (#[trigger] self.unit_starts@[k]).0 < self.b@.n()
    }

    fn add_unit(&mut self, unit: &ModelUnit, k: usize)
        requires
            old(self).ok(),
        ensures
            final(self)@ == with_unit(old(self)@, *unit, k),
            final(self).ok(),
            final(self)@.b.n() >= old(self)@.b.n(),
    {
        proof {
            reveal(with_unit);
        }
        let n: usize = self.b.count();
        let ns: usize = self.b.scope_count();
        self.unit_starts.push((n, k));
        self.scope_starts.push((ns, k));
        self.b.set_dialect(unit.unit.dialect);
        let path: String = concat("$root/", unit.name.as_str());
        let root: usize = self.b.new_root("Namespace", path.as_str());
        if unit.is_library {
            self.lib_roots.push((root, unit.unit.dialect));
        }
        self.b.build_members(&unit.unit.members, root, 0);
    }

    fn add_units(&mut self, units: &Vec<ModelUnit>, lib: bool)
        requires
            old(self).ok(),
        ensures
            final(self)@ == with_units(old(self)@, units@, lib, 0),
            final(self).ok(),
            final(self)@.b.n() >= old(self)@.b.n(),
    {
        let n: usize = units.len();
        let mut k: usize = 0;
        while k < n
            invariant
                n == units@.len(),
                k <= n,
                self.ok(),
                self@.b.n() >= old(self)@.b.n(),
                with_units(self@, units@, lib, k as int) == with_units(old(self)@, units@, lib, 0),
            decreases n - k,
        {
            if units[k].is_library == lib {
                self.add_unit(&units[k], k);
            }
            k += 1;
        }
    }
}

fn start_units() -> (r: Units)
    ensures
        r@ == (UnitsV {
            b: start_graph(),
            unit_starts: Seq::empty(),
            scope_starts: Seq::empty(),
            lib_roots: Seq::empty(),
        }),
        r.ok(),
{
    proof {
        reveal(BV::push_scope);
    }
    let mut b = Builder::new(Dialect::Sysml);
    let _root: usize = b.push_scope(None);
    let r = Units { b, unit_starts: Vec::new(), scope_starts: Vec::new(), lib_roots: Vec::new() };
    assert(r@ =~= (UnitsV {
        b: start_graph(),
        unit_starts: Seq::empty(),
        scope_starts: Seq::empty(),
        lib_roots: Seq::empty(),
    }));
    r
}

fn id_work(g: &Builder) -> (r: IdWork)
    ensures
        r@ == no_ids(g@),
{
    proof {
        reveal(IdWork::view);
    }
    let r = IdWork {
        ids: g.element_ids(),
        remap: HashMap::new(),
        qnames: Vec::new(),
        mem_qnames: Vec::new(),
    };
    assert(r@ =~= no_ids(g@));
    r
}

fn roots_of_user(
    starts: &Vec<(usize, usize)>,
    boundary: usize,
    Ghost(n): Ghost<nat>,
) -> (r: Vec<usize>)
    requires
        forall|k: int| 0 <= k < starts@.len() ==> (#[trigger] starts@[k]).0 < n,
    ensures
        r@ == user_roots(starts@, boundary, 0),
        all_below(r@, n),
{
    let mut out: Vec<usize> = Vec::new();
    let m: usize = starts.len();
    let mut k: usize = 0;
    let ghost whole = user_roots(starts@, boundary, 0);
    assert(out@ + whole =~= whole);
    while k < m
        invariant
            m == starts@.len(),
            k <= m,
            forall|k: int| 0 <= k < starts@.len() ==> (#[trigger] starts@[k]).0 < n,
            all_below(out@, n),
            out@ + user_roots(starts@, boundary, k as int) == whole,
        decreases m - k,
    {
        let (start, _unit) = starts[k];
        let ghost before = out@;
        if start >= boundary {
            out.push(start);
            assert(before + (seq![start] + user_roots(starts@, boundary, k + 1)) =~= out@ + user_roots(
                starts@,
                boundary,
                k + 1,
            ));
        }
        k += 1;
    }
    assert(out@ + Seq::<usize>::empty() =~= out@);
    out
}

impl Linker {
    pub fn start(
        b: Builder,
        boundary: usize,
        starts: Vec<(usize, usize)>,
        hints: Vec<Option<Hint>>,
    ) -> (r: Linker)
        requires
            b@.wf(),
            b@.ns() > 0,
            boundary <= b@.n(),
        ensures
            r@ == unlinked(b@, boundary, starts@, hints@),
            r@.wf(),
    {
        proof {
            reveal(Linker::view);
        }
        let r = Linker {
            res: Resolver::new(b, boundary),
            unit_starts: starts,
            hints,
            unresolved: Vec::new(),
            ambiguous: Vec::new(),
            sites: Vec::new(),
            recorded: Vec::new(),
            missed: Vec::new(),
            unsure: Vec::new(),
        };
        assert(r@ =~= unlinked(b@, boundary, starts@, hints@));
        r
    }

    pub fn read_starts(&self) -> (r: Vec<(usize, usize)>)
        ensures
            r@ == self@.unit_starts,
    {
        proof {
            reveal(Linker::view);
        }
        let mut out: Vec<(usize, usize)> = Vec::new();
        let n: usize = self.unit_starts.len();
        let mut i: usize = 0;
        while i < n
            invariant
                n == self.unit_starts@.len(),
                i <= n,
                out@ == self.unit_starts@.take(i as int),
            decreases n - i,
        {
            out.push(self.unit_starts[i]);
            assert(out@ =~= self.unit_starts@.take(i + 1));
            i += 1;
        }
        assert(out@ =~= self.unit_starts@);
        out
    }

    /// Puts the user's ids in.
    pub fn set_user_ids(
        &mut self,
        boundary: usize,
        qnames: Vec<Row>,
        mem_qnames: Vec<Row>,
    ) -> (r: (Vec<Row>, Vec<Row>))
        requires
            old(self)@.wf(),
            boundary <= old(self)@.r.n(),
            forall|k: int|
                0 <= k < old(self)@.unit_starts.len() ==> (#[trigger] old(self)@.unit_starts[k]).0
                    < old(self)@.r.n(),
        ensures
            final(self)@ == with_user_ids(
                old(self)@,
                boundary,
                rows_view(qnames@),
                rows_view(mem_qnames@),
            ),
            final(self)@.wf(),
            rows_view(r.0@) == rows_view(qnames@),
            rows_view(r.1@) == rows_view(mem_qnames@),
    {
        proof {
            reveal(with_user_ids);
        }
        let ghost g = self@.r.g;
        let starts: Vec<(usize, usize)> = self.read_starts();
        let roots: Vec<usize> = roots_of_user(&starts, boundary, Ghost(g.n()));
        let q: Vec<Row> = copy_rows(&qnames);
        let m: Vec<Row> = copy_rows(&mem_qnames);
        let w = self.user_id_work(boundary, &roots, qnames, mem_qnames);
        self.put_ids(&w, boundary);
        (q, m)
    }

    fn user_id_work(
        &self,
        boundary: usize,
        roots: &Vec<usize>,
        qnames: Vec<Row>,
        mem_qnames: Vec<Row>,
    ) -> (w: IdWork)
        requires
            self@.wf(),
            all_below(roots@, self@.r.n()),
        ensures
            w@ == user_ids(
                self@.r.g,
                IdsV {
                    ids: own_ids(self@.r.g),
                    remap: Map::empty(),
                    qnames: rows_view(qnames@),
                    mem_qnames: rows_view(mem_qnames@),
                },
                boundary as int,
                roots@,
            ),
            w@.ids.len() == self@.r.n(),
    {
        proof {
            reveal(Linker::view);
            reveal(Resolver::view);
            reveal(RV::wf);
            reveal(IdWork::view);
        }
        let g: &Builder = &self.res.graph;
        let mut w = IdWork { ids: g.element_ids(), remap: HashMap::new(), qnames, mem_qnames };
        assert(w@ =~= (IdsV {
            ids: own_ids(self@.r.g),
            remap: Map::empty(),
            qnames: rows_view(qnames@),
            mem_qnames: rows_view(mem_qnames@),
        }));
        w.assign_user_ids(g, boundary, roots);
        w
    }

    fn put_ids(&mut self, w: &IdWork, from: usize)
        requires
            old(self)@.wf(),
            w@.ids.len() == old(self)@.r.n(),
        ensures
            final(self)@ == (LV {
                r: RV { g: with_ids(old(self)@.r.g, w@, from as int), ..old(self)@.r },
                ..old(self)@
            }),
            final(self)@.wf(),
    {
        proof {
            reveal(Linker::view);
            reveal(Resolver::view);
            reveal(RV::wf);
        }
        self.res.graph.apply_ids(w, from);
        proof {
            let a = old(self)@.r;
            let b = self@.r;
            assert forall|t: int| 0 <= t < b.ns() implies b.imports_ok(t, #[trigger] b.imports[t]) by {
                assert(a.imports_ok(t, a.imports[t]));
            }
        }
    }

    fn add_effective_names(&self, boundary: usize, qnames: &mut Vec<Row>)
        requires
            self@.wf(),
            boundary <= self@.r.n(),
        ensures
            rows_view(final(qnames)@) == effective_table(
                self@.r.g,
                own_ids(self@.r.g),
                boundary as int,
                rows_view(old(qnames)@),
            ),
    {
        proof {
            reveal(Linker::view);
            reveal(Resolver::view);
            reveal(RV::wf);
        }
        let g: &Builder = &self.res.graph;
        let ids: Vec<u128> = g.element_ids();
        record_lib_effective_names(g, &ids, boundary, qnames);
    }

    /// What was recorded of a library, with its ids and names.
    fn into_recorded(
        self,
        lib_ids: Vec<u128>,
        fingerprint: u64,
        qnames: Vec<Row>,
        mem_qnames: Vec<Row>,
    ) -> (r: Recorded)
        ensures
            r.cache@ == (CacheV {
                outcomes: self@.recorded,
                misses: self@.missed,
                lib_ids: lib_ids@,
                lib_qnames: rows_view(qnames@),
                lib_mem_qnames: rows_view(mem_qnames@),
                fingerprint,
            }),
            r.unsure@ == self@.unsure,
    {
        proof {
            reveal(Linker::view);
        }
        Recorded {
            cache: LibraryCache {
                outcomes: self.recorded,
                outcome_misses: self.missed,
                lib_ids,
                lib_qnames: qnames,
                lib_mem_qnames: mem_qnames,
                fingerprint,
            },
            unsure: self.unsure,
        }
    }
}

fn copy_rows(rows: &Vec<Row>) -> (r: Vec<Row>)
    ensures
        rows_view(r@) == rows_view(rows@),
{
    let mut out: Vec<Row> = Vec::new();
    let n: usize = rows.len();
    let mut i: usize = 0;
    while i < n
        invariant
            n == rows@.len(),
            i <= n,
            rows_view(out@) == rows_view(rows@).take(i as int),
        decreases n - i,
    {
        let row = Row { id: rows[i].id, segs: crate::lib_names::copy_segs(&rows[i].segs) };
        let ghost before = rows_view(out@);
        out.push(row);
        assert(rows_view(out@) =~= before.push(row@));
        assert(rows_view(rows@).take(i + 1) =~= before.push(rows@[i as int]@));
        i += 1;
    }
    assert(rows_view(rows@).take(n as int) =~= rows_view(rows@));
    out
}

/// Ids change no more of a graph than its elements.
proof fn lemma_labelled(b: BV, ids: Seq<u128>)
    ensures
        labelled(b, ids) == (BV { elements: labelled(b, ids).elements, ..b }),
        labelled(b, ids).n() == b.n(),
{
    reveal(labelled);
}

/// Puts ids into a lowered graph, from its first element on.
fn label(b: &mut Builder, ids: &Vec<u128>)
    requires
        old(b)@.wf(),
        ids@.len() <= old(b)@.n(),
    ensures
        final(b)@ == labelled(old(b)@, ids@),
        final(b)@.wf(),
{
    proof {
        reveal(labelled);
    }
    let mut w = id_work(b);
    let n: usize = ids.len();
    let mut k: usize = 0;
    while k < n
        invariant
            n == ids@.len(),
            n <= b@.n(),
            k <= n,
            w@.ids.len() == b@.n(),
            relabelled(w@, ids@, k as int) == relabelled(no_ids(b@), ids@, 0),
        decreases n - k,
    {
        w.reassign(k, ids[k]);
        k += 1;
    }
    b.apply_ids(&w, 0);
}

fn hints_of(units: &Vec<ModelUnit>, cache: &LibraryCache, unsure: &Vec<bool>) -> (r: Vec<
    Option<Hint>,
>)
    ensures
        r@ == replay_hints(units@, cache@, unsure@),
{
    let mut out: Vec<Option<Hint>> = Vec::new();
    let n: usize = cache.outcomes.len();
    let mut k: usize = 0;
    let ghost want = replay_hints(units@, cache@, unsure@);
    while k < n
        invariant
            n == cache.outcomes@.len(),
            want == replay_hints(units@, cache@, unsure@),
            k <= n,
            out@ == want.take(k as int),
        decreases n - k,
    {
        let missed: bool = if k < cache.outcome_misses.len() {
            assert(cache@.misses[k as int] == texts(cache.outcome_misses@[k as int]@));
            introduces_any(units, &cache.outcome_misses[k])
        } else {
            false
        };
        out.push(
            if missed {
                None
            } else {
                Some(
                    Hint {
                        target: cache.outcomes[k],
                        ambiguous: k < unsure.len() && unsure[k],
                    },
                )
            },
        );
        assert(want.take(k + 1) =~= want.take(k as int).push(want[k as int]));
        k += 1;
    }
    assert(want.take(n as int) =~= want);
    out
}

/// Resolves a model's library on its own.
fn record_library(units: &Vec<ModelUnit>) -> (r: Recorded)
    ensures
        r.cache@ == library_recording(units@),
        r.unsure@ == library_linked(units@).unsure,
        cache_applies(units@, r.cache@),
{
    let mut u = start_units();
    u.add_units(units, true);
    let boundary: usize = u.b.count();
    let fingerprint: u64 = lib_pending_fingerprint(&u.b, boundary);
    let mut w = id_work(&u.b);
    w.assign_library_ids(&u.b, &u.lib_roots);
    proof {
        reveal(IdWork::view);
    }
    let lib_ids: Vec<u128> = w.ids;
    let mut b = u.b;
    let ghost lowered = b@;
    label(&mut b, &lib_ids);
    proof {
        lemma_labelled(lowered, lib_ids@);
    }
    let hints: Vec<Option<Hint>> = Vec::new();
    let starts: Vec<(usize, usize)> = Vec::new();
    assert(hints@ =~= Seq::<Option<Hint>>::empty());
    assert(starts@ =~= Seq::<(usize, usize)>::empty());
    let mut linker = Linker::start(b, boundary, starts, hints);
    linker.resolve_pending();
    let mut qnames: Vec<Row> = w.qnames;
    linker.add_effective_names(boundary, &mut qnames);
    linker.into_recorded(lib_ids, fingerprint, qnames, w.mem_qnames)
}

/// Resolves a labelled model and gives the user's elements their ids.
fn complete(
    units: &Vec<ModelUnit>,
    b: Builder,
    boundary: usize,
    unit_starts: Vec<(usize, usize)>,
    scope_starts: Vec<(usize, usize)>,
    hints: Vec<Option<Hint>>,
    qnames: Vec<Row>,
    mem_qnames: Vec<Row>,
) -> (r: Built)
    requires
        b@.wf(),
        b@.ns() > 0,
        boundary <= b@.n(),
        boundary == library_size(units@),
        scope_starts@ == all_units(units@).scope_starts,
        forall|k: int| 0 <= k < unit_starts@.len() ==> (#[trigger] unit_starts@[k]).0 < b@.n(),
    ensures
        r@ == completed(
            units@,
            linked(unlinked(b@, boundary, unit_starts@, hints@)),
            rows_view(qnames@),
            rows_view(mem_qnames@),
        ),
        r@.l.wf(),
        r@.boundary <= r@.l.r.n(),
{
    let mut linker = Linker::start(b, boundary, unit_starts, hints);
    linker.resolve_pending();
    let mut names: Vec<Row> = qnames;
    linker.add_effective_names(boundary, &mut names);
    let (q, m) = linker.set_user_ids(boundary, names, mem_qnames);
    proof {
        reveal(with_user_ids);
    }
    Built { linker, boundary, scope_starts, qnames: q, mem_qnames: m, recorded: None }
}

/// A build on recorded outcomes that apply.
fn build_replaying(
    units: &Vec<ModelUnit>,
    u: Units,
    boundary: usize,
    cache: &LibraryCache,
    unsure: &Vec<bool>,
) -> (r: Built)
    requires
        u.ok(),
        u@ == all_units(units@),
        boundary <= u@.b.n(),
        boundary == library_size(units@),
        cache_applies(units@, cache@),
    ensures
        r@ == replaying_build(units@, cache@, unsure@),
        r@.l.wf(),
        r@.boundary <= r@.l.r.n(),
{
    let mut b = u.b;
    let ghost lowered = b@;
    label(&mut b, &cache.lib_ids);
    proof {
        lemma_labelled(lowered, cache.lib_ids@);
    }
    let hints: Vec<Option<Hint>> = hints_of(units, cache, unsure);
    let qnames: Vec<Row> = copy_rows(&cache.lib_qnames);
    let mem_qnames: Vec<Row> = copy_rows(&cache.lib_mem_qnames);
    complete(units, b, boundary, u.unit_starts, u.scope_starts, hints, qnames, mem_qnames)
}

/// A build that searches for every reference.
fn build_searching(units: &Vec<ModelUnit>) -> (r: Built)
    ensures
        r@ == searching_build(units@),
        r@.l.wf(),
        r@.boundary <= r@.l.r.n(),
{
    let mut u = start_units();
    u.add_units(units, true);
    let boundary: usize = u.b.count();
    let mut w = id_work(&u.b);
    w.assign_library_ids(&u.b, &u.lib_roots);
    u.add_units(units, false);
    proof {
        reveal(IdWork::view);
    }
    let lib_ids: Vec<u128> = w.ids;
    let mut b = u.b;
    let ghost lowered = b@;
    label(&mut b, &lib_ids);
    proof {
        lemma_labelled(lowered, lib_ids@);
    }
    let hints: Vec<Option<Hint>> = Vec::new();
    assert(hints@ =~= Seq::<Option<Hint>>::empty());
    complete(units, b, boundary, u.unit_starts, u.scope_starts, hints, w.qnames, w.mem_qnames)
}

/// Builds all units of a model into one resolved graph, library units first.
/// The library is resolved on its own, or its recorded outcomes are taken
/// where they apply; the second value says that they were offered and did
/// not.
pub fn build_model(units: &Vec<ModelUnit>, slot: CacheSlot) -> (r: (Built, bool))
    ensures
        r.0@ == built(units@, slot),
        r.0@.l.wf(),
        r.0@.boundary <= r.0@.l.r.n(),
        lowers_well(units@),
        r.1 == (match replayed(units@, slot) {
            Some(c) => !cache_applies(units@, c),
            None => false,
        }),
{
    let mut u = start_units();
    u.add_units(units, true);
    let boundary: usize = u.b.count();
    let fingerprint: u64 = lib_pending_fingerprint(&u.b, boundary);
    u.add_units(units, false);
    let replays: bool = is_replayable(units);
    let mut stale: bool = false;
    let record: bool = match slot {
        CacheSlot::Replay(cache) => {
            if replays {
                if boundary == cache.lib_ids.len() && fingerprint == cache.fingerprint {
                    let unsure: Vec<bool> = Vec::new();
                    assert(unsure@ =~= Seq::<bool>::empty());
                    let b = build_replaying(units, u, boundary, &cache, &unsure);
                    return (b, false);
                }
                stale = true;
            }
            false
        },
        CacheSlot::Record => true,
        CacheSlot::Off => false,
    };
    if replays {
        let own: Recorded = record_library(units);
        let mut b: Built = build_replaying(units, u, boundary, &own.cache, &own.unsure);
        if record {
            b.recorded = Some(own.cache);
        }
        (b, stale)
    } else {
        let mut b: Built = build_searching(units);
        if record {
            let own: Recorded = record_library(units);
            b.recorded = Some(own.cache);
        }
        (b, stale)
    }
}

} // verus!
