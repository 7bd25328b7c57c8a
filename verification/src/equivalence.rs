//! A model that is built on a recorded library is the model that is built
//! without one.
use crate::ast::ModelUnit;
use crate::cache_format::CacheV;
use crate::compact::compact_range;
use crate::libcache::LibraryCache;
use crate::linking::{
    law_ambiguities_are_only_reported, law_replay_gives_the_library_its_links, library_refs,
    linked, replayed_at, sole_with_id,
};
use crate::model_build::{
    all_units, built, cache_applies, fingerprint, labelled, library_element_ids, library_labels,
    library_linked, library_recording, library_size, library_units, lowers_well, no_ids,
    replaying_graph, start_graph, unlinked, with_unit, with_units, with_user_ids, CacheSlot, UnitsV,
};
use crate::naming_ids::law_every_library_element_has_an_id;
use crate::shadowing::{introduces, replayable, top_introduces};
use crate::state::BV;
use vstd::prelude::*;

verus! {

/// The library units of a model from the `k`-th unit on.
pub open spec fn library_from(units: Seq<ModelUnit>, k: int) -> Seq<ModelUnit>
    decreases units.len() - k,
    when 0 <= k
{
    if k >= units.len() {
        Seq::empty()
    } else if units[k].is_library {
        seq![units[k]] + library_from(units, k + 1)
    } else {
        library_from(units, k + 1)
    }
}

/// Whether two models have the same library units, in the same order.
pub open spec fn share_library(a: Seq<ModelUnit>, b: Seq<ModelUnit>) -> bool {
    library_from(a, 0) == library_from(b, 0)
}

proof fn lemma_same_lowering(
    u: UnitsV,
    v: UnitsV,
    a: Seq<ModelUnit>,
    b: Seq<ModelUnit>,
    i: int,
    j: int,
)
    requires
        0 <= i <= a.len(),
        0 <= j <= b.len(),
        u.b == v.b,
        u.lib_roots == v.lib_roots,
        library_from(a, i) == library_from(b, j),
    ensures
        with_units(u, a, true, i).b == with_units(v, b, true, j).b,
        with_units(u, a, true, i).lib_roots == with_units(v, b, true, j).lib_roots,
    decreases a.len() - i + b.len() - j, a.len() - i,
{
    if i < a.len() && !a[i].is_library {
        lemma_same_lowering(u, v, a, b, i + 1, j);
    } else if j < b.len() && !b[j].is_library {
        lemma_same_lowering(u, v, a, b, i, j + 1);
    } else if i < a.len() && j < b.len() {
        reveal(with_unit);
        let x = library_from(a, i + 1);
        let y = library_from(b, j + 1);
        assert(library_from(a, i)[0] == a[i] && library_from(b, j)[0] == b[j]);
        assert(x =~= library_from(a, i).drop_first());
        assert(y =~= library_from(b, j).drop_first());
        lemma_same_lowering(
            with_unit(u, a[i], i as usize),
            with_unit(v, b[j], j as usize),
            a,
            b,
            i + 1,
            j + 1,
        );
    } else if i < a.len() {
        assert(library_from(a, i).len() > 0);
        assert(library_from(b, j).len() == 0);
    } else if j < b.len() {
        assert(library_from(b, j).len() > 0);
        assert(library_from(a, i).len() == 0);
    }
}

/// What a library is given of its own does not hang on the user's units: its
/// elements' ids, its memberships' names, its size and the hash of its
/// references.
pub proof fn law_libraries_are_labelled_alike(a: Seq<ModelUnit>, b: Seq<ModelUnit>)
    requires
        share_library(a, b),
    ensures
        library_labels(a) == library_labels(b),
        library_size(a) == library_size(b),
        fingerprint(a) == fingerprint(b),
{
    let start = UnitsV {
        b: start_graph(),
        unit_starts: Seq::empty(),
        scope_starts: Seq::empty(),
        lib_roots: Seq::empty(),
    };
    lemma_same_lowering(start, start, a, b, 0, 0);
}

/// What is recorded of a library is the same whichever model it is recorded
/// from: where its references end and what they missed, its ids and its names
/// do not hang on the user's units.
pub proof fn law_recordings_are_the_librarys(a: Seq<ModelUnit>, b: Seq<ModelUnit>)
    requires
        share_library(a, b),
    ensures
        built(a, CacheSlot::Record).recorded is Some,
        built(a, CacheSlot::Record).recorded == built(b, CacheSlot::Record).recorded,
        library_linked(a) == library_linked(b),
{
    law_libraries_are_labelled_alike(a, b);
    let start = UnitsV {
        b: start_graph(),
        unit_starts: Seq::empty(),
        scope_starts: Seq::empty(),
        lib_roots: Seq::empty(),
    };
    lemma_same_lowering(start, start, a, b, 0, 0);
}

/// A model built on a cache of its library, recorded from whatever model has
/// that library, is the model built without one: the whole graph, and with it
/// the compact form of every element, the reference sites, the names, and how
/// many references are reported. Where no library reference is ambiguous, which
/// a cache does not tell from one without a target, everything is the same.
pub proof fn law_warm_builds_equal_cold_builds(
    lib: Seq<ModelUnit>,
    units: Seq<ModelUnit>,
    cache: LibraryCache,
    from: int,
    to: int,
)
    requires
        share_library(lib, units),
        built(lib, CacheSlot::Record).recorded == Some(cache@),
    ensures
        ({
            let warm = built(units, CacheSlot::Replay(cache));
            let cold = built(units, CacheSlot::Off);
            &&& warm.l.r == cold.l.r
            &&& compact_range(warm.l.r.g, from, to) == compact_range(cold.l.r.g, from, to)
            &&& warm.l.sites == cold.l.sites
            &&& warm.l.unit_starts == cold.l.unit_starts
            &&& warm.l.unresolved.len() + warm.l.ambiguous.len() == cold.l.unresolved.len()
                + cold.l.ambiguous.len()
            &&& warm.boundary == cold.boundary
            &&& warm.scope_starts == cold.scope_starts
            &&& warm.qnames == cold.qnames
            &&& warm.mem_qnames == cold.mem_qnames
            &&& !library_linked(units).unsure.contains(true) ==> warm == cold
        }),
{
    reveal(with_user_ids);
    law_recordings_are_the_librarys(lib, units);
    let c = cache@;
    let unsure = library_linked(units).unsure;
    assert(c == library_recording(units));
    if replayable(units) && cache_applies(units, c) {
        let warm = replaying_graph(units, c, Seq::empty());
        let cold = replaying_graph(units, c, unsure);
        law_ambiguities_are_only_reported(warm, cold);
        if !unsure.contains(true) {
            assert(warm.hints =~= cold.hints);
        }
    }
}

/// A model built on its own recording is the model built without one.
pub proof fn law_own_recordings_replay(
    units: Seq<ModelUnit>,
    cache: LibraryCache,
    from: int,
    to: int,
)
    requires
        built(units, CacheSlot::Record).recorded == Some(cache@),
    ensures
        ({
            let warm = built(units, CacheSlot::Replay(cache));
            let cold = built(units, CacheSlot::Record);
            &&& warm.l.r == cold.l.r
            &&& compact_range(warm.l.r.g, from, to) == compact_range(cold.l.r.g, from, to)
            &&& warm.qnames == cold.qnames
            &&& warm.mem_qnames == cold.mem_qnames
        }),
{
    law_warm_builds_equal_cold_builds(units, units, cache, from, to);
}

/// A cache of a model's library always applies to the model.
pub proof fn law_library_caches_apply(lib: Seq<ModelUnit>, units: Seq<ModelUnit>, c: CacheV)
    requires
        lowers_well(lib),
        share_library(lib, units),
        built(lib, CacheSlot::Record).recorded == Some(c),
    ensures
        cache_applies(units, c),
{
    reveal(BV::wf);
    law_libraries_are_labelled_alike(lib, units);
    let u = library_units(lib);
    law_every_library_element_has_an_id(u.b, no_ids(u.b), u.lib_roots, 0);
}

/// A library reference whose search missed a name that the model introduces
/// is not replayed: it is resolved afresh.
pub proof fn law_introduced_names_are_searched(
    units: Seq<ModelUnit>,
    c: CacheV,
    unsure: Seq<bool>,
    i: int,
)
    requires
        0 <= i < replaying_graph(units, c, unsure).r.g.pending.len(),
        ({
            let p = replaying_graph(units, c, unsure).r.g.pending;
            let rank = library_refs(p, library_size(units), i);
            0 <= rank < c.misses.len() && introduces(units, c.misses[rank])
        }),
    ensures
        ({
            let l = replaying_graph(units, c, unsure);
            !replayed_at(l, l.r.g.pending, i)
        }),
{
}

/// Whether the ids of the library elements that library references end at
/// each stand for one library element.
pub open spec fn targets_told_apart(units: Seq<ModelUnit>) -> bool {
    let g = labelled(library_units(units).b, library_element_ids(units));
    let found = library_linked(units).recorded;
    forall|k: int|
        0 <= k < found.len() ==> (#[trigger] found[k] matches Some(id) ==> sole_with_id(
            g,
            id,
            library_size(units),
        ) is Some)
}

proof fn lemma_no_user_units(u: UnitsV, units: Seq<ModelUnit>, k: int)
    requires
        0 <= k,
        forall|i: int| 0 <= i < units.len() ==> (#[trigger] units[i]).is_library,
    ensures
        with_units(u, units, false, k) == u,
    decreases units.len() - k,
{
    if k < units.len() {
        lemma_no_user_units(u, units, k + 1);
    }
}

/// A library built with no other unit has the links that the search for them
/// ended at: replaying stands for searching. The ids of the targets must tell
/// them apart.
pub proof fn law_libraries_are_linked_as_searched(
    units: Seq<ModelUnit>,
    unsure: Seq<bool>,
    e: int,
)
    requires
        lowers_well(units),
        forall|i: int| 0 <= i < units.len() ==> (#[trigger] units[i]).is_library,
        targets_told_apart(units),
        0 <= e < library_size(units),
    ensures
        linked(replaying_graph(units, library_recording(units), unsure)).r.g.elements[e]
            == library_linked(units).r.g.elements[e],
{
    reveal(labelled);
    reveal(BV::wf);
    let c = library_recording(units);
    let warm = replaying_graph(units, c, unsure);
    let cold = unlinked(
        labelled(library_units(units).b, library_element_ids(units)),
        library_size(units),
        Seq::empty(),
        Seq::empty(),
    );
    lemma_no_user_units(library_units(units), units, 0);
    assert(warm.r == cold.r);
    let b = all_units(units).b;
    let p = cold.r.g.pending;
    assert forall|i: int| 0 <= i < p.len() implies (#[trigger] p[i]).elem < cold.r.n() by {
        assert(b.pending[i].ok(b.n(), b.ns(), b.spec_targets.len()));
    }
    assert(p.take(p.len() as int) =~= p);
    assert forall|name: Seq<char>| !#[trigger] top_introduces(units, name) by {}
    assert forall|k: int| 0 <= k < warm.hints.len() implies #[trigger] warm.hints[k] is Some && (
    warm.hints[k]->0).target == linked(cold).recorded[k] by {
        if k < c.misses.len() {
            assert(!introduces(units, c.misses[k]));
        }
    }
    law_replay_gives_the_library_its_links(cold, warm, p.len() as int);
}

} // verus!
