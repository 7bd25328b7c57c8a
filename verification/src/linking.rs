//! What it means to resolve the recorded references of a graph.
use crate::ast::{QnV, Span};
use crate::props::{LinkV, ValueV};
use crate::refname::ref_text;
use crate::resolution;
use crate::rstate::{LookupResult, RV};
use crate::state::{PendingV, BV};
use vstd::prelude::*;

verus! {

/// A reference as written, and the element it is written on.
pub struct MentionV {
    pub elem: usize,
    pub qn: QnV,
}

/// A reference site: where a name stands and what it denotes.
pub struct SiteV {
    pub unit: usize,
    pub span: Span,
    pub name_span: Span,
    pub target: usize,
    pub kind: Seq<char>,
    pub scope: usize,
    pub exclude: Option<usize>,
    pub plain: bool,
    pub owner: usize,
    pub chain_root: Option<usize>,
}

/// A recorded outcome: the target's id, or that there was none, and whether
/// that is because there were several.
#[derive(Clone, Copy, Debug, PartialEq, Eq, Structural)]
pub struct Hint {
    pub target: Option<u128>,
    pub ambiguous: bool,
}

/// A graph whose references are being resolved.
#[verifier::ext_equal]
pub struct LV {
    pub r: RV,
    /// First element and index of each unit, in build order.
    pub unit_starts: Seq<(usize, usize)>,
    /// Recorded outcomes of the library references, replayed in order; none
    /// for a reference that is resolved afresh.
    pub hints: Seq<Option<Hint>>,
    pub unresolved: Seq<MentionV>,
    pub ambiguous: Seq<MentionV>,
    pub sites: Seq<SiteV>,
    /// The outcomes of the library references, in order.
    pub recorded: Seq<Option<u128>>,
    /// Per outcome, the root names that its search missed.
    pub missed: Seq<Seq<Seq<char>>>,
    /// Per outcome, whether its search was ambiguous.
    pub unsure: Seq<bool>,
}

/// The state after a search: lookups leave the graph as it is.
pub open spec fn kept(a: RV, b: RV) -> RV {
    RV { g: a.g, lib_boundary: a.lib_boundary, ..b }
}

/// The last of the first `k` elements with an id.
pub open spec fn last_with_id(g: BV, id: u128, k: int) -> Option<usize>
    decreases k,
{
    if k <= 0 {
        None
    } else if g.elements[k - 1].id == id {
        Some((k - 1) as usize)
    } else {
        last_with_id(g, id, k - 1)
    }
}

/// The library element with an id, where there is exactly one.
pub open spec fn sole_with_id(g: BV, id: u128, boundary: usize) -> Option<usize> {
    match last_with_id(g, id, boundary as int) {
        Some(t) => if last_with_id(g, id, t as int) is None {
            Some(t)
        } else {
            None
        },
        None => None,
    }
}

/// The outcome of the last of the first `k` namespace imports of a scope
/// that is spelled like `qn`.
pub open spec fn import_outcome(b: RV, s: usize, qn: QnV, k: int) -> Option<usize>
    decreases k,
{
    if k <= 0 {
        None
    } else if ref_text(b.g.import_target(s, k - 1)) == ref_text(qn) {
        if k - 1 < b.import_elems[s as int].len() {
            b.import_elems[s as int][k - 1]
        } else {
            None
        }
    } else {
        import_outcome(b, s, qn, k - 1)
    }
}

/// The reference in its context: a namespace import takes the outcome of its
/// scope's imports, a chain step is a member of the link before.
#[verifier::opaque]
pub open spec fn contextual(b: RV, p: PendingV) -> (RV, Option<usize>) {
    if p.key == "importedNamespace"@ {
        let (b, _) = resolution::import_scopes(b.g, b, b.open_count(), p.scope);
        (b, import_outcome(b, p.scope, p.qn, b.g.import_count(p.scope) as int))
    } else {
        match p.chain {
            Some(links) => resolution::resolve_chain(b.g, b, b.open_count(), p.scope, links, p.qn),
            None => (b, None),
        }
    }
}

/// Whether a reference continues a feature chain.
pub open spec fn is_chained(p: PendingV) -> bool {
    match p.chain {
        Some(links) => links.len() > 0,
        None => false,
    }
}

/// The last segment of a name, on its own.
pub open spec fn last_alone(qn: QnV) -> QnV {
    QnV {
        is_global: false,
        segments: if qn.segments.len() == 0 {
            Seq::empty()
        } else {
            seq![qn.segments.last()]
        },
        span: qn.span,
    }
}

/// What a lexical hit stands for: itself for a plain or global name; for a
/// chain continuation only where the chain reaches the same element.
#[verifier::opaque]
pub open spec fn agreed(b: RV, p: PendingV, found: Option<usize>) -> (RV, Option<usize>) {
    if !is_chained(p) || p.qn.is_global {
        (b, found)
    } else {
        match found {
            Some(t) => {
                let b = b.set_declared_only(false);
                let (b, again) = resolution::resolve_chain(
                    b.g,
                    b,
                    b.open_count(),
                    p.scope,
                    p.chain->0,
                    last_alone(p.qn),
                );
                (b, if again == Some(t) {
                    Some(t)
                } else {
                    None
                })
            },
            None => (b, None),
        }
    }
}

/// The reference from its written scope, and whether it was ambiguous there.
#[verifier::opaque]
pub open spec fn lexical(b: RV, p: PendingV) -> (RV, Option<usize>, bool) {
    let b = b.set_declared_only(p.declared_only);
    let (b, hit) = resolution::resolve_result(b.g, b, b.open_count(), p.scope, p.qn, 0, false);
    let (b, found) = agreed(b, p, hit.elem());
    (b, found, hit == LookupResult::Ambiguous)
}

/// What a reference denotes, and whether it was ambiguous.
#[verifier::opaque]
pub open spec fn denoted(b: RV, p: PendingV) -> (RV, Option<usize>, bool) {
    let b = b.set_exclude(p.exclude);
    let b = b.set_declared_only(false);
    let (b, found) = contextual(b, p);
    if found is Some || p.key == "importedNamespace"@ {
        (b, found, false)
    } else {
        lexical(b, p)
    }
}

/// The element that the first link of a chain denotes.
#[verifier::opaque]
pub open spec fn chain_root(b: RV, p: PendingV) -> (RV, Option<usize>) {
    if is_chained(p) {
        let saved = b.declared_only;
        let b = b.set_declared_only(false);
        let (b, root) = resolution::resolve(b.g, b, b.open_count(), p.scope, p.chain->0[0], 0);
        (b.set_declared_only(saved), root)
    } else {
        (b, None)
    }
}

/// The unit that built an element: that of the last start at or before it.
pub open spec fn unit_of(starts: Seq<(usize, usize)>, elem: usize, k: int) -> usize
    decreases k,
{
    if k <= 0 {
        0
    } else if starts[k - 1].0 <= elem {
        starts[k - 1].1
    } else {
        unit_of(starts, elem, k - 1)
    }
}

pub open spec fn elem_unit(starts: Seq<(usize, usize)>, elem: usize) -> usize {
    unit_of(starts, elem, starts.len() as int)
}

pub open spec fn last_span(qn: QnV) -> Span {
    if qn.segments.len() == 0 {
        qn.span
    } else {
        qn.segments.last().span
    }
}

pub open spec fn is_plain(p: PendingV) -> bool {
    p.chain is None && !p.declared_only && p.key != "importedNamespace"@
}

/// The site of a whole reference.
pub open spec fn whole_site(
    starts: Seq<(usize, usize)>,
    p: PendingV,
    target: usize,
    root: Option<usize>,
) -> SiteV {
    SiteV {
        unit: elem_unit(starts, p.elem),
        span: p.qn.span,
        name_span: last_span(p.qn),
        target,
        kind: p.key,
        scope: p.scope,
        exclude: p.exclude,
        plain: is_plain(p),
        owner: p.elem,
        chain_root: root,
    }
}

/// The site of the first `k` segments of a reference.
pub open spec fn prefix_site(
    starts: Seq<(usize, usize)>,
    p: PendingV,
    k: int,
    target: usize,
) -> SiteV {
    SiteV {
        unit: elem_unit(starts, p.elem),
        span: p.qn.span,
        name_span: p.qn.segments[k - 1].span,
        target,
        kind: "qualifier"@,
        scope: p.scope,
        exclude: None,
        plain: false,
        owner: p.elem,
        chain_root: None,
    }
}

pub open spec fn prefix_qn(qn: QnV, k: int) -> QnV {
    QnV { is_global: qn.is_global, segments: qn.segments.take(k), span: qn.span }
}

/// The sites of the proper prefixes from `k` segments on.
pub open spec fn prefix_sites(l: LV, p: PendingV, k: int) -> LV
    decreases p.qn.segments.len() - k,
{
    if k < 1 || k >= p.qn.segments.len() {
        l
    } else {
        let (b, hit) = resolution::resolve(l.r.g, l.r, l.r.open_count(), p.scope, prefix_qn(p.qn, k), 0);
        let l = LV { r: kept(l.r, b), ..l };
        prefix_sites(
            match hit {
                Some(t) => LV { sites: l.sites.push(prefix_site(l.unit_starts, p, k, t)), ..l },
                None => l,
            },
            p,
            k + 1,
        )
    }
}

/// The sites that a user reference leaves.
#[verifier::opaque]
pub open spec fn with_sites(l: LV, p: PendingV, found: Option<usize>) -> LV {
    let l = match found {
        Some(t) => {
            let (b, root) = chain_root(l.r, p);
            LV {
                r: kept(l.r, b),
                sites: l.sites.push(whole_site(l.unit_starts, p, t, root)),
                ..l
            }
        },
        None => l,
    };
    prefix_sites(l, p, 1)
}

/// The element a property names for what the reference denotes: a
/// membership import names the owning membership, a conjugated typing the
/// implicit conjugated definition.
#[verifier::opaque]
pub open spec fn serialized(g: BV, p: PendingV, found: Option<usize>) -> Option<usize> {
    let found = if p.key == "importedMembership"@ {
        match found {
            Some(t) => match g.elements[t as int].owning {
                Some(r) => Some(r),
                None => Some(t),
            },
            None => None,
        }
    } else {
        found
    };
    if g.elements[p.elem as int].ty == "ConjugatedPortTyping"@ && p.key == "type"@ {
        match found {
            Some(t) => match g.elements[t as int].notes.conjugated {
                Some(c) => Some(c),
                None => Some(t),
            },
            None => None,
        }
    } else {
        found
    }
}

impl RV {
    /// A link under a reference's key: a list entry is appended, a single
    /// value is set.
    #[verifier::opaque]
    pub open spec fn set_value(self, p: PendingV, link: LinkV) -> RV {
        RV {
            g: match p.index {
                Some(_) => self.g.append_link(p.elem, p.key, link),
                None => self.g.set(p.elem, p.key, ValueV::Ref(link)),
            },
            ..self
        }
    }
}

/// The outcome of a specialization, where the reference is one.
#[verifier::opaque]
pub open spec fn note_outcome(b: RV, p: PendingV, found: Option<usize>) -> RV {
    match p.spec_idx {
        Some(i) => b.set_resolved(i, found),
        None => b,
    }
}

/// A reference that resolved to `target`.
#[verifier::opaque]
pub open spec fn link_found(l: LV, p: PendingV, target: usize) -> LV {
    let b = note_outcome(l.r, p, Some(target));
    LV { r: b.set_value(p, LinkV::Id(b.g.elements[target as int].id)), ..l }
}

/// A reference that did not resolve: it keeps its spelling and is reported.
#[verifier::opaque]
pub open spec fn link_missing(l: LV, p: PendingV, ambiguous: bool) -> LV {
    let m = MentionV { elem: p.elem, qn: p.qn };
    let l = if ambiguous {
        LV { ambiguous: l.ambiguous.push(m), ..l }
    } else {
        LV { unresolved: l.unresolved.push(m), ..l }
    };
    LV { r: l.r.set_value(p, LinkV::Name(ref_text(p.qn))), ..l }
}

/// The entry at `rank`, where there is one, replaced.
pub open spec fn set_at<T>(s: Seq<T>, rank: Option<int>, v: T) -> Seq<T> {
    match rank {
        Some(k) => s.update(k, v),
        None => s,
    }
}

/// The id that a search for a reference ends at.
#[verifier::opaque]
pub open spec fn searched_id(l: LV, p: PendingV) -> Option<u128> {
    match serialized(l.r.g, p, denoted(l.r.clear_missed(), p).1) {
        Some(t) => Some(l.r.g.elements[t as int].id),
        None => None,
    }
}

/// A reference resolved by search. `rank` is its position among the library
/// references, where it is one.
#[verifier::opaque]
pub open spec fn link_searched(l: LV, p: PendingV, rank: Option<int>) -> LV {
    let saved = (l.r.exclude, l.r.declared_only);
    let (b, found, ambiguous) = denoted(l.r.clear_missed(), p);
    let missed = b.misses.now;
    let l = LV { r: kept(l.r, b), ..l };
    let l = if rank is Some {
        l
    } else {
        with_sites(l, p, found)
    };
    let target = serialized(l.r.g, p, found);
    let l = LV { r: l.r.set_exclude(saved.0).set_declared_only(saved.1), ..l };
    let l = LV {
        recorded: set_at(
            l.recorded,
            rank,
            match target {
                Some(t) => Some(l.r.g.elements[t as int].id),
                None => None,
            },
        ),
        missed: set_at(l.missed, rank, missed),
        unsure: set_at(l.unsure, rank, ambiguous),
        ..l
    };
    match target {
        Some(t) => link_found(l, p, t),
        None => {
            let l = LV { r: note_outcome(l.r, p, None), ..l };
            link_missing(l, p, ambiguous)
        },
    }
}

/// A library reference with its recorded outcome: a target that one element
/// stands for is taken over, a recorded miss stays one, any other target is
/// searched for.
#[verifier::opaque]
pub open spec fn link_replayed(l: LV, p: PendingV, rank: int) -> LV {
    match (l.hints[rank]->0).target {
        Some(id) => match sole_with_id(l.r.g, id, l.r.lib_boundary) {
            Some(t) => {
                let b = note_outcome(l.r, p, Some(t));
                LV { r: b.set_value(p, LinkV::Id(id)), ..l }
            },
            None => link_searched(l, p, Some(rank)),
        },
        None => link_missing(l, p, (l.hints[rank]->0).ambiguous),
    }
}

/// One reference; `rank` counts the library references before it.
#[verifier::opaque]
pub open spec fn link_one(l: LV, p: PendingV, rank: int) -> LV {
    if p.elem < l.r.lib_boundary {
        if rank < l.hints.len() && l.hints[rank] is Some {
            link_replayed(l, p, rank)
        } else {
            link_searched(l, p, Some(rank))
        }
    } else {
        link_searched(l, p, None)
    }
}

/// The position after a reference among the library references.
pub open spec fn next_rank(boundary: usize, p: PendingV, rank: int) -> int {
    if p.elem < boundary {
        rank + 1
    } else {
        rank
    }
}

/// The references from `i` on: the specializations, or all others.
pub open spec fn link_pass(l: LV, pending: Seq<PendingV>, i: int, rank: int, specs: bool) -> LV
    decreases pending.len() - i,
{
    if i < 0 || i >= pending.len() {
        l
    } else {
        let p = pending[i];
        let next = next_rank(l.r.lib_boundary, p, rank);
        let l = if p.spec_idx is Some == specs {
            link_one(l, p, rank)
        } else {
            l
        };
        link_pass(l, pending, i + 1, next, specs)
    }
}

/// How many of the first `k` references are library references.
pub open spec fn library_refs(pending: Seq<PendingV>, boundary: usize, k: int) -> int
    decreases k,
{
    if k <= 0 {
        0
    } else {
        next_rank(boundary, pending[k - 1], library_refs(pending, boundary, k - 1))
    }
}

/// The order of the sites: by unit, then by span, then by name.
pub open spec fn site_before(a: SiteV, b: SiteV) -> bool {
    if a.unit != b.unit {
        a.unit < b.unit
    } else if a.span.start != b.span.start {
        a.span.start < b.span.start
    } else if a.span.end != b.span.end {
        a.span.end < b.span.end
    } else if a.name_span.start != b.name_span.start {
        a.name_span.start < b.name_span.start
    } else {
        a.name_span.end < b.name_span.end
    }
}

/// Where a site goes among the first `k` sorted ones: behind those that are
/// not after it.
pub open spec fn site_slot(sorted: Seq<SiteV>, x: SiteV, k: int) -> int
    decreases k,
{
    if k <= 0 {
        0
    } else if site_before(x, sorted[k - 1]) {
        site_slot(sorted, x, k - 1)
    } else {
        k
    }
}

/// The first `k` sites in order; sites that compare equal keep theirs.
pub open spec fn sorted_sites(sites: Seq<SiteV>, k: int) -> Seq<SiteV>
    decreases k,
{
    if k <= 0 {
        Seq::empty()
    } else {
        let s = sorted_sites(sites, k - 1);
        s.insert(site_slot(s, sites[k - 1], s.len() as int), sites[k - 1])
    }
}

/// Nothing recorded yet.
pub open spec fn started(l: LV) -> LV {
    let n = library_refs(l.r.g.pending, l.r.lib_boundary, l.r.g.pending.len() as int) as nat;
    LV {
        recorded: Seq::new(n, |i: int| None),
        missed: Seq::new(n, |i: int| Seq::empty()),
        unsure: Seq::new(n, |i: int| false),
        ..l
    }
}

/// A graph without references to resolve, and nothing left to replay.
pub open spec fn finished(l: LV) -> LV {
    LV {
        r: RV { g: BV { pending: Seq::empty(), ..l.r.g }, ..l.r },
        hints: Seq::empty(),
        sites: sorted_sites(l.sites, l.sites.len() as int),
        ..l
    }
}

/// All recorded references, which are taken from the graph: the
/// specializations first, so that the others see a complete shadow graph.
pub open spec fn linked(l: LV) -> LV {
    let pending = l.r.g.pending;
    let l = started(l);
    let l = link_pass(l, pending, 0, 0, true);
    finished(link_pass(l, pending, 0, 0, false))
}

/// Sites are in order.
pub open spec fn in_order(sites: Seq<SiteV>) -> bool {
    forall|i: int, j: int|
        0 <= i < j < sites.len() ==> !site_before(#[trigger] sites[j], #[trigger] sites[i])
}

proof fn lemma_slot(sorted: Seq<SiteV>, x: SiteV, k: int)
    requires
        0 <= k <= sorted.len(),
    ensures
        0 <= site_slot(sorted, x, k) <= k,
        forall|i: int| site_slot(sorted, x, k) <= i < k ==> site_before(x, #[trigger] sorted[i]),
        site_slot(sorted, x, k) > 0 ==> !site_before(x, sorted[site_slot(sorted, x, k) - 1]),
    decreases k,
{
    if k > 0 && site_before(x, sorted[k - 1]) {
        lemma_slot(sorted, x, k - 1);
    }
}

proof fn lemma_sorted(sites: Seq<SiteV>, k: int)
    requires
        0 <= k <= sites.len(),
    ensures
        sorted_sites(sites, k).len() == k,
        in_order(sorted_sites(sites, k)),
        sorted_sites(sites, k).to_multiset() == sites.take(k).to_multiset(),
    decreases k,
{
    broadcast use vstd::seq_lib::group_to_multiset_ensures;

    if k <= 0 {
        assert(sites.take(k) =~= Seq::<SiteV>::empty());
    } else {
        lemma_sorted(sites, k - 1);
        let s = sorted_sites(sites, k - 1);
        let x = sites[k - 1];
        let at = site_slot(s, x, s.len() as int);
        lemma_slot(s, x, s.len() as int);
        let t = s.insert(at, x);
        assert forall|i: int, j: int| 0 <= i < j < t.len() implies !site_before(
            #[trigger] t[j],
            #[trigger] t[i],
        ) by {
            let a = if i < at { s[i] } else if i == at { x } else { s[i - 1] };
            let b = if j < at { s[j] } else if j == at { x } else { s[j - 1] };
            assert(t[i] == a && t[j] == b);
            if j == at && i < at - 1 {
                assert(!site_before(s[at - 1], s[i]));
            }
        }
        let (a, b) = (s.take(at), s.skip(at));
        assert(s =~= a + b);
        assert(t =~= a.push(x) + b);
        vstd::seq_lib::lemma_multiset_commutative(a, b);
        vstd::seq_lib::lemma_multiset_commutative(a.push(x), b);
        assert(t.to_multiset() =~= s.to_multiset().insert(x));
        assert(sites.take(k) =~= sites.take(k - 1).push(x));
    }
}

/// Resolving leaves the reference sites in source order, unit by unit, and
/// sorting neither loses nor invents one.
pub proof fn law_sites_come_in_source_order(sites: Seq<SiteV>)
    ensures
        in_order(sorted_sites(sites, sites.len() as int)),
        sorted_sites(sites, sites.len() as int).to_multiset() == sites.to_multiset(),
{
    lemma_sorted(sites, sites.len() as int);
    assert(sites.take(sites.len() as int) =~= sites);
}

/// Replaying the recorded outcomes of a library reference gives what the
/// search recorded: a target that one element's id tells is linked by that id,
/// and a recorded miss stays unresolved under its spelling.
pub proof fn law_replay_links_the_recorded_target(l: LV, p: PendingV, rank: int)
    requires
        0 <= rank < l.hints.len(),
        l.hints[rank] is Some,
        p.elem < l.r.lib_boundary,
    ensures
        match (l.hints[rank]->0).target {
            Some(id) => match sole_with_id(l.r.g, id, l.r.lib_boundary) {
                Some(t) => link_one(l, p, rank).r == note_outcome(l.r, p, Some(t)).set_value(
                    p,
                    LinkV::Id(id),
                ),
                None => link_one(l, p, rank) == link_searched(l, p, Some(rank)),
            },
            None => link_one(l, p, rank) == link_missing(l, p, (l.hints[rank]->0).ambiguous),
        },
{
    reveal(link_one);
    reveal(link_replayed);
}

/// The link an outcome stands for.
pub open spec fn link_for(p: PendingV, outcome: Option<u128>) -> LinkV {
    match outcome {
        Some(id) => LinkV::Id(id),
        None => LinkV::Name(ref_text(p.qn)),
    }
}

/// A graph with one more link.
#[verifier::opaque]
pub open spec fn put_link(g: BV, p: PendingV, link: LinkV) -> BV {
    match p.index {
        Some(_) => g.append_link(p.elem, p.key, link),
        None => g.set(p.elem, p.key, ValueV::Ref(link)),
    }
}

/// Whether the library reference at a rank is replayed: there is a recorded
/// outcome, and a recorded target is known.
pub open spec fn replays(l: LV, rank: int) -> bool {
    rank < l.hints.len() && l.hints[rank] is Some && ((l.hints[rank]->0).target matches Some(id)
        ==> sole_with_id(l.r.g, id, l.r.lib_boundary) is Some)
}

/// The id that a reference is given: what is replayed, or else what a search
/// ends at.
pub open spec fn outcome_of(l: LV, p: PendingV, rank: int) -> Option<u128> {
    if p.elem < l.r.lib_boundary && replays(l, rank) {
        (l.hints[rank]->0).target
    } else {
        searched_id(l, p)
    }
}

/// The ids that the references of a pass are given from `i` on, each at its
/// position.
pub open spec fn pass_outcomes(
    l: LV,
    pending: Seq<PendingV>,
    i: int,
    rank: int,
    specs: bool,
    acc: Seq<Option<u128>>,
) -> Seq<Option<u128>>
    decreases pending.len() - i,
{
    if i < 0 || i >= pending.len() {
        acc
    } else {
        let p = pending[i];
        let next = next_rank(l.r.lib_boundary, p, rank);
        if p.spec_idx is Some == specs {
            pass_outcomes(
                link_one(l, p, rank),
                pending,
                i + 1,
                next,
                specs,
                acc.update(i, outcome_of(l, p, rank)),
            )
        } else {
            pass_outcomes(l, pending, i + 1, next, specs, acc)
        }
    }
}

/// The ids that linking gives the references of a graph, in their order.
pub open spec fn outcomes(l: LV) -> Seq<Option<u128>> {
    let pending = l.r.g.pending;
    let a = started(l);
    let none = Seq::new(pending.len(), |i: int| None::<u128>);
    let first = pass_outcomes(a, pending, 0, 0, true, none);
    pass_outcomes(link_pass(a, pending, 0, 0, true), pending, 0, 0, false, first)
}

/// A graph with the links of the references of a pass from `i` on.
pub open spec fn written(
    g: BV,
    pending: Seq<PendingV>,
    outs: Seq<Option<u128>>,
    i: int,
    specs: bool,
) -> BV
    decreases pending.len() - i,
{
    if i < 0 || i >= pending.len() {
        g
    } else {
        let p = pending[i];
        written(
            if p.spec_idx is Some == specs {
                put_link(g, p, link_for(p, outs[i]))
            } else {
                g
            },
            pending,
            outs,
            i + 1,
            specs,
        )
    }
}

proof fn lemma_prefix_sites(l: LV, p: PendingV, k: int)
    ensures
        ({
            let m = prefix_sites(l, p, k);
            m == (LV { r: kept(l.r, m.r), sites: m.sites, ..l })
        }),
    decreases p.qn.segments.len() - k,
{
    if !(k < 1 || k >= p.qn.segments.len()) {
        let (b, hit) = resolution::resolve(
            l.r.g,
            l.r,
            l.r.open_count(),
            p.scope,
            prefix_qn(p.qn, k),
            0,
        );
        let a = LV { r: kept(l.r, b), ..l };
        let c = match hit {
            Some(t) => LV { sites: a.sites.push(prefix_site(a.unit_starts, p, k, t)), ..a },
            None => a,
        };
        lemma_prefix_sites(c, p, k + 1);
    }
}

proof fn lemma_set_value(b: RV, p: PendingV, link: LinkV)
    ensures
        b.set_value(p, link) == (RV { g: put_link(b.g, p, link), ..b }),
{
    reveal(RV::set_value);
    reveal(put_link);
}

/// What linking one reference does to the graph, and what it keeps.
proof fn lemma_link_searched(l: LV, p: PendingV, rank: Option<int>)
    ensures
        ({
            let m = link_searched(l, p, rank);
            let id = searched_id(l, p);
            &&& m.r.g == put_link(l.r.g, p, link_for(p, id))
            &&& m.r.lib_boundary == l.r.lib_boundary
            &&& m.hints == l.hints
            &&& m.unit_starts == l.unit_starts
            &&& m.recorded == set_at(l.recorded, rank, id)
        }),
{
    reveal(link_searched);
    reveal(searched_id);
    reveal(with_sites);
    reveal(link_found);
    reveal(link_missing);
    reveal(note_outcome);
    reveal(RV::set_exclude);
    reveal(RV::set_declared_only);
    reveal(RV::set_resolved);
    let (b, found, ambiguous) = denoted(l.r.clear_missed(), p);
    let a = LV { r: kept(l.r, b), ..l };
    let c = match found {
        Some(t) => {
            let (d, root) = chain_root(a.r, p);
            LV {
                r: kept(a.r, d),
                sites: a.sites.push(whole_site(a.unit_starts, p, t, root)),
                ..a
            }
        },
        None => a,
    };
    lemma_prefix_sites(c, p, 1);
    let w = if rank is Some {
        a
    } else {
        with_sites(a, p, found)
    };
    assert(w.r.g == l.r.g && w.hints == l.hints && w.recorded == l.recorded);
    let r = w.r.set_exclude(l.r.exclude).set_declared_only(l.r.declared_only);
    match serialized(l.r.g, p, found) {
        Some(t) => {
            let n = note_outcome(r, p, Some(t));
            lemma_set_value(n, p, LinkV::Id(n.g.elements[t as int].id));
        },
        None => {
            lemma_set_value(note_outcome(r, p, None), p, LinkV::Name(ref_text(p.qn)));
        },
    }
}

proof fn lemma_link_one(l: LV, p: PendingV, rank: int)
    ensures
        ({
            let m = link_one(l, p, rank);
            &&& m.r.g == put_link(l.r.g, p, link_for(p, outcome_of(l, p, rank)))
            &&& m.r.lib_boundary == l.r.lib_boundary
            &&& m.hints == l.hints
            &&& m.unit_starts == l.unit_starts
            &&& m.recorded == (if p.elem < l.r.lib_boundary && !replays(l, rank) {
                l.recorded.update(rank, outcome_of(l, p, rank))
            } else {
                l.recorded
            })
        }),
{
    reveal(link_one);
    reveal(link_replayed);
    reveal(link_missing);
    reveal(note_outcome);
    reveal(RV::set_resolved);
    lemma_link_searched(l, p, Some(rank));
    lemma_link_searched(l, p, None);
    lemma_set_value(l.r, p, LinkV::Name(ref_text(p.qn)));
    if p.elem < l.r.lib_boundary && rank < l.hints.len() && l.hints[rank] is Some {
        if let Some(id) = (l.hints[rank]->0).target {
            if let Some(t) = sole_with_id(l.r.g, id, l.r.lib_boundary) {
                lemma_set_value(note_outcome(l.r, p, Some(t)), p, LinkV::Id(id));
            }
        }
    }
}

proof fn lemma_put_keeps(g: BV, p: PendingV, link: LinkV)
    requires
        p.elem < g.n(),
    ensures
        put_link(g, p, link) == (BV { elements: put_link(g, p, link).elements, ..g }),
        put_link(g, p, link).n() == g.n(),
        forall|i: int| 0 <= i < g.n() ==> (#[trigger] put_link(g, p, link).elements[i]).id == g.elements[i].id,
        forall|i: int|
            0 <= i < g.n() && i != p.elem ==> #[trigger] put_link(g, p, link).elements[i] == g.elements[i],
{
    reveal(put_link);
    reveal(BV::set);
    reveal(BV::append_link);
    reveal(BV::with_elem);
}

proof fn lemma_ids_kept(g: BV, h: BV, id: u128, k: int)
    requires
        k <= g.n(),
        forall|i: int| 0 <= i < g.n() ==> (#[trigger] h.elements[i]).id == g.elements[i].id,
    ensures
        last_with_id(g, id, k) == last_with_id(h, id, k),
    decreases k,
{
    if k > 0 {
        assert(h.elements[k - 1].id == g.elements[k - 1].id);
        lemma_ids_kept(g, h, id, k - 1);
    }
}

proof fn lemma_last_below(g: BV, id: u128, k: int)
    requires
        k <= g.n(),
        g.n() <= usize::MAX,
    ensures
        last_with_id(g, id, k) is Some ==> last_with_id(g, id, k)->0 < k,
    decreases k,
{
    if k > 0 {
        lemma_last_below(g, id, k - 1);
    }
}

/// The references are on elements of the graph, and the library is part of it.
pub open spec fn in_graph(l: LV, pending: Seq<PendingV>) -> bool {
    &&& l.r.n() <= usize::MAX
    &&& l.r.lib_boundary <= l.r.n()
    &&& forall|i: int| 0 <= i < pending.len() ==> (#[trigger] pending[i]).elem < l.r.n()
}

/// Whether the reference at `i` is a library reference that is replayed.
pub open spec fn replayed_at(l: LV, pending: Seq<PendingV>, i: int) -> bool {
    pending[i].elem < l.r.lib_boundary && replays(l, library_refs(pending, l.r.lib_boundary, i))
}

proof fn lemma_step(l: LV, pending: Seq<PendingV>, p: PendingV, rank: int)
    requires
        in_graph(l, pending),
        p.elem < l.r.n(),
    ensures
        in_graph(link_one(l, p, rank), pending),
        link_one(l, p, rank).r.n() == l.r.n(),
        forall|k: int| replays(l, k) == replays(link_one(l, p, rank), k),
{
    let m = link_one(l, p, rank);
    lemma_link_one(l, p, rank);
    lemma_put_keeps(l.r.g, p, link_for(p, outcome_of(l, p, rank)));
    assert forall|k: int| replays(l, k) == replays(m, k) by {
        if k < l.hints.len() && l.hints[k] is Some {
            if let Some(id) = (l.hints[k]->0).target {
                lemma_ids_kept(l.r.g, m.r.g, id, l.r.lib_boundary as int);
                if let Some(t) = last_with_id(l.r.g, id, l.r.lib_boundary as int) {
                    lemma_last_below(l.r.g, id, l.r.lib_boundary as int);
                    lemma_ids_kept(l.r.g, m.r.g, id, t as int);
                }
            }
        }
    }
}

pub proof fn lemma_rank_bounds(pending: Seq<PendingV>, b: usize, i: int, n: int)
    requires
        0 <= i <= n <= pending.len(),
    ensures
        0 <= library_refs(pending, b, i) <= library_refs(pending, b, n),
        i < n && pending[i].elem < b ==> library_refs(pending, b, i) < library_refs(pending, b, n),
    decreases n,
{
    if i < n {
        lemma_rank_bounds(pending, b, i, n - 1);
    } else if n > 0 {
        lemma_rank_bounds(pending, b, i - 1, n - 1);
    }
}

/// A pass writes the links of its outcomes and nothing else.
proof fn lemma_pass_writes(
    l: LV,
    pending: Seq<PendingV>,
    i: int,
    rank: int,
    specs: bool,
    acc: Seq<Option<u128>>,
)
    requires
        0 <= i <= pending.len(),
        acc.len() == pending.len(),
        in_graph(l, pending),
    ensures
        ({
            let m = link_pass(l, pending, i, rank, specs);
            let outs = pass_outcomes(l, pending, i, rank, specs, acc);
            &&& outs.len() == pending.len()
            &&& forall|j: int|
                0 <= j < pending.len() && (j < i || (pending[j].spec_idx is Some) != specs)
                    ==> #[trigger] outs[j] == acc[j]
            &&& m.r.g == written(l.r.g, pending, outs, i, specs)
            &&& m.r.lib_boundary == l.r.lib_boundary
            &&& m.hints == l.hints
            &&& m.unit_starts == l.unit_starts
            &&& m.r.n() == l.r.n()
            &&& in_graph(m, pending)
            &&& forall|k: int| replays(l, k) == replays(m, k)
        }),
    decreases pending.len() - i,
{
    if i < pending.len() {
        let p = pending[i];
        let next = next_rank(l.r.lib_boundary, p, rank);
        if p.spec_idx is Some == specs {
            lemma_link_one(l, p, rank);
            lemma_step(l, pending, p, rank);
            let m = link_one(l, p, rank);
            let more = acc.update(i, outcome_of(l, p, rank));
            lemma_pass_writes(m, pending, i + 1, next, specs, more);
            let outs = pass_outcomes(l, pending, i, rank, specs, acc);
            assert(outs == pass_outcomes(m, pending, i + 1, next, specs, more));
            assert(outs[i] == more[i]);
        } else {
            lemma_pass_writes(l, pending, i + 1, next, specs, acc);
        }
    }
}

/// A pass gives replayed references their recorded outcome, and records the
/// others.
proof fn lemma_pass_records(
    l: LV,
    pending: Seq<PendingV>,
    i: int,
    specs: bool,
    acc: Seq<Option<u128>>,
)
    requires
        0 <= i <= pending.len(),
        acc.len() == pending.len(),
        in_graph(l, pending),
        l.recorded.len() == library_refs(pending, l.r.lib_boundary, pending.len() as int),
    ensures
        ({
            let b = l.r.lib_boundary;
            let rank = library_refs(pending, b, i);
            let m = link_pass(l, pending, i, rank, specs);
            let outs = pass_outcomes(l, pending, i, rank, specs, acc);
            &&& m.recorded.len() == l.recorded.len()
            &&& forall|j: int|
                i <= j < pending.len() && (#[trigger] pending[j]).elem < b && (pending[j].spec_idx is Some)
                    == specs ==> if replays(l, library_refs(pending, b, j)) {
                    outs[j] == (l.hints[library_refs(pending, b, j)]->0).target
                } else {
                    m.recorded[library_refs(pending, b, j)] == outs[j]
                }
            &&& forall|j: int|
                0 <= j < pending.len() && (#[trigger] pending[j]).elem < b && (j < i || (
                pending[j].spec_idx is Some) != specs) ==> m.recorded[library_refs(pending, b, j)]
                    == l.recorded[library_refs(pending, b, j)]
        }),
    decreases pending.len() - i,
{
    let n = pending.len() as int;
    let b = l.r.lib_boundary;
    if i < n {
        let p = pending[i];
        let rank = library_refs(pending, b, i);
        let next = next_rank(b, p, rank);
        assert(next == library_refs(pending, b, i + 1));
        let outs = pass_outcomes(l, pending, i, rank, specs, acc);
        if p.spec_idx is Some == specs {
            lemma_link_one(l, p, rank);
            lemma_step(l, pending, p, rank);
            lemma_rank_bounds(pending, b, i, n);
            let m = link_one(l, p, rank);
            let more = acc.update(i, outcome_of(l, p, rank));
            lemma_pass_records(m, pending, i + 1, specs, more);
            lemma_pass_writes(m, pending, i + 1, next, specs, more);
            assert(outs == pass_outcomes(m, pending, i + 1, next, specs, more));
            assert(outs[i] == more[i]);
            assert forall|j: int| 0 <= j < n && (#[trigger] pending[j]).elem < b && j != i implies (
            p.elem < b ==> library_refs(pending, b, j) != rank) && 0 <= library_refs(pending, b, j)
                < l.recorded.len() by {
                lemma_rank_bounds(pending, b, j, n);
                if j < i {
                    lemma_rank_bounds(pending, b, j, i);
                } else if p.elem < b {
                    lemma_rank_bounds(pending, b, i, j);
                }
            }
            let end = link_pass(l, pending, i, rank, specs);
            assert(end == link_pass(m, pending, i + 1, next, specs));
            assert forall|j: int|
                0 <= j < n && (#[trigger] pending[j]).elem < b && (j < i || (pending[j].spec_idx is Some)
                    != specs) implies end.recorded[library_refs(pending, b, j)]
                == l.recorded[library_refs(pending, b, j)] by {
                assert(m.recorded[library_refs(pending, b, j)] == l.recorded[library_refs(pending, b, j)]);
            }
            if p.elem < b && !replays(l, rank) {
                assert(m.recorded[rank] == outcome_of(l, p, rank));
                assert(end.recorded[rank] == m.recorded[rank]);
            }
        } else {
            lemma_pass_records(l, pending, i + 1, specs, acc);
        }
    }
}

/// The graph that linking leaves follows from the outcomes: they are written,
/// the specializations first, and nothing else is.
pub proof fn law_linking_writes_the_outcomes(l: LV)
    requires
        in_graph(l, l.r.g.pending),
    ensures
        ({
            let pending = l.r.g.pending;
            let g = written(written(l.r.g, pending, outcomes(l), 0, true), pending, outcomes(l), 0, false);
            linked(l).r.g == (BV { pending: Seq::empty(), ..g })
        }),
        outcomes(l).len() == l.r.g.pending.len(),
        linked(l).unit_starts == l.unit_starts,
        linked(l).r.lib_boundary == l.r.lib_boundary,
{
    let pending = l.r.g.pending;
    let a = started(l);
    let none = Seq::new(pending.len(), |i: int| None::<u128>);
    let first = pass_outcomes(a, pending, 0, 0, true, none);
    let m = link_pass(a, pending, 0, 0, true);
    lemma_pass_writes(a, pending, 0, 0, true, none);
    lemma_pass_writes(m, pending, 0, 0, false, first);
    lemma_written_same(l.r.g, pending, first, outcomes(l), 0, true);
}

/// Only the outcomes of the references that a pass takes count.
proof fn lemma_written_same(
    g: BV,
    pending: Seq<PendingV>,
    a: Seq<Option<u128>>,
    b: Seq<Option<u128>>,
    i: int,
    specs: bool,
)
    requires
        0 <= i <= pending.len(),
        forall|j: int| i <= j < pending.len() && (pending[j].spec_idx is Some) == specs ==> #[trigger] a[j] == b[j],
    ensures
        written(g, pending, a, i, specs) == written(g, pending, b, i, specs),
    decreases pending.len() - i,
{
    if i < pending.len() {
        let p = pending[i];
        let h = if p.spec_idx is Some == specs {
            assert(a[i] == b[i]);
            put_link(g, p, link_for(p, a[i]))
        } else {
            g
        };
        lemma_written_same(h, pending, a, b, i + 1, specs);
    }
}

/// A replayed library reference is given its recorded outcome, and what is
/// recorded of any other is the outcome it is given.
pub proof fn law_records_are_the_outcomes(l: LV, i: int)
    requires
        in_graph(l, l.r.g.pending),
        0 <= i < l.r.g.pending.len(),
        l.r.g.pending[i].elem < l.r.lib_boundary,
    ensures
        ({
            let rank = library_refs(l.r.g.pending, l.r.lib_boundary, i);
            if replays(l, rank) {
                outcomes(l)[i] == (l.hints[rank]->0).target
            } else {
                linked(l).recorded[rank] == outcomes(l)[i]
            }
        }),
        linked(l).recorded.len() == library_refs(
            l.r.g.pending,
            l.r.lib_boundary,
            l.r.g.pending.len() as int,
        ),
{
    let pending = l.r.g.pending;
    let b = l.r.lib_boundary;
    let a = started(l);
    let none = Seq::new(pending.len(), |k: int| None::<u128>);
    let first = pass_outcomes(a, pending, 0, 0, true, none);
    let m = link_pass(a, pending, 0, 0, true);
    lemma_rank_bounds(pending, b, 0, pending.len() as int);
    assert(library_refs(pending, b, 0) == 0);
    lemma_pass_writes(a, pending, 0, 0, true, none);
    lemma_pass_records(a, pending, 0, true, none);
    lemma_pass_writes(m, pending, 0, 0, false, first);
    lemma_pass_records(m, pending, 0, false, first);
    let rank = library_refs(pending, b, i);
    assert(replays(l, rank) == replays(a, rank));
    let second = pass_outcomes(m, pending, 0, 0, false, first);
    assert(pending[i].elem < b);
    if pending[i].spec_idx is Some {
        assert(second[i] == first[i]);
    }
}

/// Linking a linked graph links nothing more.
pub proof fn law_linking_is_done_once(l: LV)
    ensures
        ({
            let a = linked(l);
            let b = linked(a);
            &&& b.r == a.r
            &&& b.unresolved == a.unresolved
            &&& b.ambiguous == a.ambiguous
            &&& b.sites.to_multiset() == a.sites.to_multiset()
        }),
{
    let a = linked(l);
    assert(a.r.g.pending.len() == 0);
    law_sites_come_in_source_order(a.sites);
}

/// Two graphs that agree on the first `k` elements.
pub open spec fn agree_below(a: BV, b: BV, k: usize) -> bool {
    forall|e: int| 0 <= e < k ==> #[trigger] a.elements[e] == b.elements[e]
}

proof fn lemma_put_agree(g: BV, h: BV, p: PendingV, link: LinkV, k: usize)
    requires
        agree_below(g, h, k),
        p.elem < k,
        k <= g.n(),
        k <= h.n(),
    ensures
        agree_below(put_link(g, p, link), put_link(h, p, link), k),
{
    lemma_put_keeps(g, p, link);
    lemma_put_keeps(h, p, link);
    let a = put_link(g, p, link);
    let b = put_link(h, p, link);
    assert forall|e: int| 0 <= e < k implies #[trigger] a.elements[e] == b.elements[e] by {
        assert(g.elements[e] == h.elements[e]);
        if e == p.elem {
            reveal(put_link);
            reveal(BV::set);
            reveal(BV::append_link);
            reveal(BV::with_elem);
        } else {
            assert(a.elements[e] == g.elements[e]);
            assert(b.elements[e] == h.elements[e]);
        }
    }
}

/// References on other elements do not touch the first `k`.
proof fn lemma_written_rest(
    g: BV,
    pending: Seq<PendingV>,
    outs: Seq<Option<u128>>,
    i: int,
    specs: bool,
    k: usize,
)
    requires
        0 <= i <= pending.len(),
        k <= g.n(),
        forall|j: int| i <= j < pending.len() ==> k <= (#[trigger] pending[j]).elem < g.n(),
    ensures
        written(g, pending, outs, i, specs).n() == g.n(),
        agree_below(written(g, pending, outs, i, specs), g, k),
    decreases pending.len() - i,
{
    if i < pending.len() {
        let p = pending[i];
        let link = link_for(p, outs[i]);
        lemma_put_keeps(g, p, link);
        let h = if p.spec_idx is Some == specs {
            put_link(g, p, link)
        } else {
            g
        };
        lemma_written_rest(h, pending, outs, i + 1, specs, k);
        let w = written(g, pending, outs, i, specs);
        assert forall|e: int| 0 <= e < k implies #[trigger] w.elements[e] == g.elements[e] by {
            assert(w.elements[e] == h.elements[e]);
            assert(h.elements[e] == g.elements[e]);
        }
    }
}

/// Whether two graphs hold the same library: its elements are alike, and its
/// `count` references come first among all.
pub open spec fn same_library(a: LV, b: LV, count: int) -> bool {
    let p = a.r.g.pending;
    let q = b.r.g.pending;
    let m = a.r.lib_boundary;
    &&& b.r.lib_boundary == m
    &&& in_graph(a, p)
    &&& in_graph(b, q)
    &&& agree_below(a.r.g, b.r.g, m)
    &&& 0 <= count <= p.len()
    &&& count <= q.len()
    &&& p.take(count) == q.take(count)
    &&& forall|j: int| count <= j < p.len() ==> (#[trigger] p[j]).elem >= m
    &&& forall|j: int| count <= j < q.len() ==> (#[trigger] q[j]).elem >= m
}

proof fn lemma_written_agree(
    g: BV,
    h: BV,
    p: Seq<PendingV>,
    q: Seq<PendingV>,
    a: Seq<Option<u128>>,
    b: Seq<Option<u128>>,
    i: int,
    count: int,
    specs: bool,
    k: usize,
)
    requires
        0 <= i <= count <= p.len(),
        count <= q.len(),
        agree_below(g, h, k),
        k <= g.n(),
        k <= h.n(),
        forall|j: int| 0 <= j < count ==> (#[trigger] p[j]) == q[j],
        forall|j: int| 0 <= j < p.len() ==> (#[trigger] p[j]).elem < g.n(),
        forall|j: int| 0 <= j < q.len() ==> (#[trigger] q[j]).elem < h.n(),
        forall|j: int| count <= j < p.len() ==> (#[trigger] p[j]).elem >= k,
        forall|j: int| count <= j < q.len() ==> (#[trigger] q[j]).elem >= k,
        forall|j: int| 0 <= j < count && p[j].elem < k ==> #[trigger] a[j] == b[j],
    ensures
        agree_below(written(g, p, a, i, specs), written(h, q, b, i, specs), k),
        written(g, p, a, i, specs).n() == g.n(),
        written(h, q, b, i, specs).n() == h.n(),
    decreases count - i,
{
    if i < count {
        let x = p[i];
        assert(x == q[i]);
        lemma_put_keeps(g, x, link_for(x, a[i]));
        lemma_put_keeps(h, x, link_for(x, b[i]));
        if x.spec_idx is Some == specs {
            let g2 = put_link(g, x, link_for(x, a[i]));
            let h2 = put_link(h, x, link_for(x, b[i]));
            if x.elem < k {
                assert(a[i] == b[i]);
                lemma_put_agree(g, h, x, link_for(x, a[i]), k);
            } else {
                assert forall|e: int| 0 <= e < k implies #[trigger] g2.elements[e] == h2.elements[e] by {
                    assert(g2.elements[e] == g.elements[e]);
                    assert(h2.elements[e] == h.elements[e]);
                }
            }
            lemma_written_agree(g2, h2, p, q, a, b, i + 1, count, specs, k);
        } else {
            lemma_written_agree(g, h, p, q, a, b, i + 1, count, specs, k);
        }
    } else {
        lemma_written_rest(g, p, a, i, specs, k);
        lemma_written_rest(h, q, b, i, specs, k);
        let v = written(g, p, a, i, specs);
        let w = written(h, q, b, i, specs);
        assert forall|e: int| 0 <= e < k implies #[trigger] v.elements[e] == w.elements[e] by {
            assert(v.elements[e] == g.elements[e]);
            assert(g.elements[e] == h.elements[e]);
            assert(w.elements[e] == h.elements[e]);
        }
    }
}

proof fn lemma_same_ranks(p: Seq<PendingV>, q: Seq<PendingV>, b: usize, i: int, count: int)
    requires
        0 <= i <= count <= p.len(),
        count <= q.len(),
        forall|j: int| 0 <= j < count ==> (#[trigger] p[j]) == q[j],
    ensures
        library_refs(p, b, i) == library_refs(q, b, i),
    decreases i,
{
    if i > 0 {
        lemma_same_ranks(p, q, b, i - 1, count);
        assert(p[i - 1] == q[i - 1]);
    }
}

/// Replaying what a search recorded gives the library's elements the links
/// that the search gave them, whatever user units stand beside the library in
/// either model: each recorded target being the id of one library element.
pub proof fn law_replay_gives_the_library_its_links(cold: LV, warm: LV, count: int)
    requires
        same_library(warm, cold, count),
        cold.hints.len() == 0,
        warm.hints.len() == linked(cold).recorded.len(),
        forall|k: int|
            0 <= k < warm.hints.len() ==> #[trigger] warm.hints[k] is Some && (
            warm.hints[k]->0).target == linked(cold).recorded[k],
        forall|k: int|
            0 <= k < warm.hints.len() ==> (#[trigger] linked(cold).recorded[k] matches Some(id)
                ==> sole_with_id(warm.r.g, id, warm.r.lib_boundary) is Some),
    ensures
        agree_below(linked(warm).r.g, linked(cold).r.g, cold.r.lib_boundary),
{
    let m = cold.r.lib_boundary;
    let p = warm.r.g.pending;
    let q = cold.r.g.pending;
    let a = outcomes(warm);
    let b = outcomes(cold);
    law_linking_writes_the_outcomes(warm);
    law_linking_writes_the_outcomes(cold);
    assert forall|j: int| 0 <= j < count implies (#[trigger] p[j]) == q[j] by {
        assert(p.take(count)[j] == q.take(count)[j]);
    }
    assert forall|j: int| 0 <= j < count && p[j].elem < m implies #[trigger] a[j] == b[j] by {
        assert(p[j] == q[j]);
        law_records_are_the_outcomes(warm, j);
        law_records_are_the_outcomes(cold, j);
        lemma_same_ranks(p, q, m, j, count);
        let k = library_refs(p, m, j);
        lemma_rank_bounds(q, m, j, q.len() as int);
        assert(warm.hints[k] is Some);
    }
    lemma_written_agree(warm.r.g, cold.r.g, p, q, a, b, 0, count, true, m);
    let g = written(warm.r.g, p, a, 0, true);
    let h = written(cold.r.g, q, b, 0, true);
    lemma_written_agree(g, h, p, q, a, b, 0, count, false, m);
    let v = written(g, p, a, 0, false);
    let w = written(h, q, b, 0, false);
    assert forall|e: int| 0 <= e < m implies #[trigger] linked(warm).r.g.elements[e] == linked(cold).r.g.elements[e] by {
        assert(v.elements[e] == w.elements[e]);
    }
}

/// Whether two graphs being resolved are one, except for which of the misses
/// to replay are told to be ambiguities.
pub open spec fn alike(a: LV, b: LV) -> bool {
    &&& a.r == b.r
    &&& a.unit_starts == b.unit_starts
    &&& a.sites == b.sites
    &&& a.recorded == b.recorded
    &&& a.missed == b.missed
    &&& a.unsure == b.unsure
    &&& a.unresolved.len() + a.ambiguous.len() == b.unresolved.len() + b.ambiguous.len()
    &&& a.hints.len() == b.hints.len()
    &&& forall|k: int|
        0 <= k < a.hints.len() ==> (#[trigger] a.hints[k] is Some <==> b.hints[k] is Some) && (
        a.hints[k] is Some ==> (a.hints[k]->0).target == (b.hints[k]->0).target)
}

proof fn lemma_prefix_alike(a: LV, b: LV, p: PendingV, k: int)
    requires
        alike(a, b),
    ensures
        alike(prefix_sites(a, p, k), prefix_sites(b, p, k)),
    decreases p.qn.segments.len() - k,
{
    if !(k < 1 || k >= p.qn.segments.len()) {
        let (r, hit) = resolution::resolve(
            a.r.g,
            a.r,
            a.r.open_count(),
            p.scope,
            prefix_qn(p.qn, k),
            0,
        );
        let c = LV { r: kept(a.r, r), ..a };
        let d = LV { r: kept(b.r, r), ..b };
        match hit {
            Some(t) => lemma_prefix_alike(
                LV { sites: c.sites.push(prefix_site(c.unit_starts, p, k, t)), ..c },
                LV { sites: d.sites.push(prefix_site(d.unit_starts, p, k, t)), ..d },
                p,
                k + 1,
            ),
            None => lemma_prefix_alike(c, d, p, k + 1),
        }
    }
}

proof fn lemma_sites_alike(a: LV, b: LV, p: PendingV, found: Option<usize>)
    requires
        alike(a, b),
    ensures
        alike(with_sites(a, p, found), with_sites(b, p, found)),
{
    reveal(with_sites);
    match found {
        Some(t) => {
            let (r, root) = chain_root(a.r, p);
            lemma_prefix_alike(
                LV {
                    r: kept(a.r, r),
                    sites: a.sites.push(whole_site(a.unit_starts, p, t, root)),
                    ..a
                },
                LV {
                    r: kept(b.r, r),
                    sites: b.sites.push(whole_site(b.unit_starts, p, t, root)),
                    ..b
                },
                p,
                1,
            );
        },
        None => lemma_prefix_alike(a, b, p, 1),
    }
}

proof fn lemma_searched_alike(a: LV, b: LV, p: PendingV, rank: Option<int>)
    requires
        alike(a, b),
    ensures
        alike(link_searched(a, p, rank), link_searched(b, p, rank)),
{
    reveal(link_searched);
    reveal(link_found);
    reveal(link_missing);
    let (r, found, ambiguous) = denoted(a.r.clear_missed(), p);
    let c = LV { r: kept(a.r, r), ..a };
    let d = LV { r: kept(b.r, r), ..b };
    lemma_sites_alike(c, d, p, found);
}

proof fn lemma_one_alike(a: LV, b: LV, p: PendingV, rank: int)
    requires
        alike(a, b),
        0 <= rank,
    ensures
        alike(link_one(a, p, rank), link_one(b, p, rank)),
{
    reveal(link_one);
    reveal(link_replayed);
    reveal(link_missing);
    lemma_searched_alike(a, b, p, Some(rank));
    lemma_searched_alike(a, b, p, None);
    if rank < a.hints.len() {
        assert(a.hints[rank] is Some <==> b.hints[rank] is Some);
    }
}

proof fn lemma_pass_alike(a: LV, b: LV, pending: Seq<PendingV>, i: int, rank: int, specs: bool)
    requires
        alike(a, b),
        0 <= rank,
    ensures
        alike(link_pass(a, pending, i, rank, specs), link_pass(b, pending, i, rank, specs)),
    decreases pending.len() - i,
{
    if !(i < 0 || i >= pending.len()) {
        let p = pending[i];
        let next = next_rank(a.r.lib_boundary, p, rank);
        if p.spec_idx is Some == specs {
            lemma_one_alike(a, b, p, rank);
            lemma_pass_alike(link_one(a, p, rank), link_one(b, p, rank), pending, i + 1, next, specs);
        } else {
            lemma_pass_alike(a, b, pending, i + 1, next, specs);
        }
    }
}

/// Which of the replayed misses are told to be ambiguities decides only how
/// they are reported: the graph, the sites and what is recorded are the same,
/// and as many references are reported in all.
pub proof fn law_ambiguities_are_only_reported(a: LV, b: LV)
    requires
        alike(a, b),
    ensures
        alike(linked(a), linked(b)),
{
    let pending = a.r.g.pending;
    let c = started(a);
    let d = started(b);
    lemma_pass_alike(c, d, pending, 0, 0, true);
    lemma_pass_alike(
        link_pass(c, pending, 0, 0, true),
        link_pass(d, pending, 0, 0, true),
        pending,
        0,
        0,
        false,
    );
}

} // verus!
