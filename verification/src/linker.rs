//! Resolving the recorded references of a graph, and reporting what they
//! denote.
use crate::ast::{QualifiedName, Span};
use crate::link_search::{fits, same_forest};
use crate::libcache::{text_lists, texts};
use crate::linking::{
    elem_unit, finished, kept, library_refs, link_found, link_missing, link_one, link_pass, link_replayed,
    link_searched, linked, note_outcome, prefix_qn, prefix_site, prefix_sites, set_at,
    site_before, site_slot, sorted_sites, started, unit_of, whole_site, with_sites, Hint, MentionV, SiteV, LV,
};
use crate::props::Link;
use crate::refname::ref_string;
use crate::rstate::Resolver;
use crate::state::{below, Builder, PendingRef, PendingV};
use crate::text::str_eq;
use vstd::prelude::*;

verus! {

/// A reference as written, and the element it is written on.
pub struct Mention {
    pub elem: usize,
    pub qn: QualifiedName,
}

impl Mention {
    pub open spec fn view(&self) -> MentionV {
        MentionV { elem: self.elem, qn: self.qn@ }
    }
}

/// A resolved reference site: where a name stands in the source, what it
/// denotes, and how it was resolved.
#[derive(Clone, Copy, Debug)]
pub struct RefSite {
    /// The unit the reference was written in.
    pub unit: usize,
    /// Span of the whole qualified name.
    pub span: Span,
    /// Span of the segment that names the target.
    pub name_span: Span,
    /// The element the name denotes.
    pub target: usize,
    /// The property the resolution feeds.
    pub kind: &'static str,
    /// The scope the site resolved from.
    pub scope: usize,
    /// The element excluded from resolution at this site.
    pub exclude: Option<usize>,
    /// Whether plain lexical rules were in force.
    pub plain: bool,
    /// The element whose property carries the reference.
    pub owner: usize,
    /// What the first link of the chain denotes.
    pub chain_root: Option<usize>,
}

impl RefSite {
    pub open spec fn view(&self) -> SiteV {
        SiteV {
            unit: self.unit,
            span: self.span,
            name_span: self.name_span,
            target: self.target,
            kind: self.kind@,
            scope: self.scope,
            exclude: self.exclude,
            plain: self.plain,
            owner: self.owner,
            chain_root: self.chain_root,
        }
    }
}

/// A graph with its resolution state and the reports of resolution.
pub struct Linker {
    pub res: Resolver,
    /// First element and index of each unit, in build order.
    pub unit_starts: Vec<(usize, usize)>,
    /// Recorded outcomes of the library references, replayed in order.
    pub hints: Vec<Option<Hint>>,
    pub unresolved: Vec<Mention>,
    pub ambiguous: Vec<Mention>,
    pub sites: Vec<RefSite>,
    /// The outcomes of the library references, in order.
    pub recorded: Vec<Option<u128>>,
    /// Per outcome, the root names that its search missed.
    pub missed: Vec<Vec<String>>,
    /// Per outcome, whether its search was ambiguous.
    pub unsure: Vec<bool>,
}

pub open spec fn mentions(s: Seq<Mention>) -> Seq<MentionV> {
    s.map_values(|m: Mention| m@)
}

pub open spec fn sites_view(s: Seq<RefSite>) -> Seq<SiteV> {
    s.map_values(|m: RefSite| m@)
}

/// Whether every site names an element.
pub open spec fn sites_ok(s: Seq<SiteV>, n: nat) -> bool {
    forall|i: int| 0 <= i < s.len() ==> (#[trigger] s[i]).target < n
}

impl LV {
    /// The resolution state is valid, library elements are elements, and
    /// every site names one.
    pub open spec fn wf(self) -> bool {
        self.r.wf() && self.r.lib_boundary <= self.r.n() && sites_ok(self.sites, self.r.n())
    }
}

/// What resolving one reference keeps.
pub open spec fn onward(a: LV, b: LV) -> bool {
    &&& b.wf()
    &&& b.r.n() == a.r.n()
    &&& b.r.ns() == a.r.ns()
    &&& b.r.lib_boundary == a.r.lib_boundary
    &&& b.r.g.pending == a.r.g.pending
    &&& b.r.g.spec_targets == a.r.g.spec_targets
    &&& b.hints == a.hints
    &&& b.recorded.len() == a.recorded.len()
    &&& b.missed.len() == a.missed.len()
    &&& b.unsure.len() == a.unsure.len()
    &&& b.unit_starts == a.unit_starts
    &&& same_forest(a.r.g, b.r.g)
}

impl Linker {
    #[verifier::opaque]
    pub open spec fn view(&self) -> LV {
        LV {
            r: self.res@,
            unit_starts: self.unit_starts@,
            hints: self.hints@,
            unresolved: mentions(self.unresolved@),
            ambiguous: mentions(self.ambiguous@),
            sites: sites_view(self.sites@),
            recorded: self.recorded@,
            missed: text_lists(self.missed@),
            unsure: self.unsure@,
        }
    }

    /// The unit that built an element.
    pub fn unit_of_elem(&self, elem: usize) -> (r: usize)
        ensures
            r == elem_unit(self@.unit_starts, elem),
    {
        proof {
            reveal(Linker::view);
        }
        let mut k: usize = self.unit_starts.len();
        while k > 0
            invariant
                k <= self.unit_starts@.len(),
                self@.unit_starts == self.unit_starts@,
                elem_unit(self.unit_starts@, elem) == unit_of(self.unit_starts@, elem, k as int),
            decreases k,
        {
            k -= 1;
            let (start, unit) = self.unit_starts[k];
            if start <= elem {
                return unit;
            }
        }
        0
    }

    fn push_site(&mut self, s: RefSite)
        requires
            old(self)@.wf(),
            s@.target < old(self)@.r.n(),
        ensures
            final(self)@ == (LV { sites: old(self)@.sites.push(s@), ..old(self)@ }),
            onward(old(self)@, final(self)@),
    {
        proof {
            reveal(Linker::view);
        }
        self.sites.push(s);
        assert(self@ =~= (LV { sites: old(self)@.sites.push(s@), ..old(self)@ }));
    }

    fn push_unresolved(&mut self, elem: usize, qn: &QualifiedName)
        requires
            old(self)@.wf(),
        ensures
            final(self)@ == (LV {
                unresolved: old(self)@.unresolved.push(MentionV { elem, qn: qn@ }),
                ..old(self)@
            }),
            onward(old(self)@, final(self)@),
    {
        proof {
            reveal(Linker::view);
        }
        self.unresolved.push(Mention { elem, qn: qn.duplicate() });
        assert(self@ =~= (LV {
            unresolved: old(self)@.unresolved.push(MentionV { elem, qn: qn@ }),
            ..old(self)@
        }));
    }

    fn push_ambiguous(&mut self, elem: usize, qn: &QualifiedName)
        requires
            old(self)@.wf(),
        ensures
            final(self)@ == (LV {
                ambiguous: old(self)@.ambiguous.push(MentionV { elem, qn: qn@ }),
                ..old(self)@
            }),
            onward(old(self)@, final(self)@),
    {
        proof {
            reveal(Linker::view);
        }
        self.ambiguous.push(Mention { elem, qn: qn.duplicate() });
        assert(self@ =~= (LV {
            ambiguous: old(self)@.ambiguous.push(MentionV { elem, qn: qn@ }),
            ..old(self)@
        }));
    }

    fn resolve_prefix(&mut self, p: &PendingRef, k: usize) -> (r: Option<usize>)
        requires
            old(self)@.wf(),
            fits(old(self)@.r, p@),
            k <= p@.qn.segments.len(),
        ensures
            ({
                let b = old(self)@.r;
                let (c, hit) = crate::resolution::resolve(
                    b.g,
                    b,
                    b.open_count(),
                    p@.scope,
                    prefix_qn(p@.qn, k as int),
                    0,
                );
                &&& final(self)@ == (LV { r: kept(b, c), ..old(self)@ })
                &&& r == hit
            }),
            onward(old(self)@, final(self)@),
            final(self)@.r.g == old(self)@.r.g,
            below(r, final(self)@.r.n()),
    {
        proof {
            reveal(Linker::view);
        }
        let copy: QualifiedName = p.qn.duplicate();
        let mut segments = copy.segments;
        segments.truncate(k);
        let qn = QualifiedName { is_global: p.qn.is_global, segments, span: p.qn.span };
        assert(qn@.segments =~= prefix_qn(p@.qn, k as int).segments);
        let ghost m = self.res@.open_count();
        let r = self.res.resolve(Ghost(m), p.scope, &qn, 0);
        assert(self@.r =~= kept(old(self)@.r, self@.r));
        r
    }

    fn prefix_sites(&mut self, p: &PendingRef)
        requires
            old(self)@.wf(),
            fits(old(self)@.r, p@),
        ensures
            final(self)@ == prefix_sites(old(self)@, p@, 1),
            onward(old(self)@, final(self)@),
            final(self)@.r.g == old(self)@.r.g,
            final(self)@.recorded == old(self)@.recorded,
    {
        let n: usize = p.qn.segments.len();
        let unit: usize = self.unit_of_elem(p.elem);
        let mut k: usize = 1;
        while k < n
            invariant
                n == p@.qn.segments.len(),
                1 <= k,
                self@.wf(),
                onward(old(self)@, self@),
                self@.r.g == old(self)@.r.g,
                self@.recorded == old(self)@.recorded,
                unit == elem_unit(self@.unit_starts, p.elem),
                fits(self@.r, p@),
                prefix_sites(self@, p@, k as int) == prefix_sites(old(self)@, p@, 1),
            decreases n - k,
        {
            if let Some(t) = self.resolve_prefix(p, k) {
                let s = RefSite {
                    unit,
                    span: p.qn.span,
                    name_span: p.qn.segments[k - 1].span,
                    target: t,
                    kind: "qualifier",
                    scope: p.scope,
                    exclude: None,
                    plain: false,
                    owner: p.elem,
                    chain_root: None,
                };
                assert(s@ == prefix_site(self@.unit_starts, p@, k as int, t));
                self.push_site(s);
            }
            k += 1;
        }
    }

    fn root_of(&mut self, p: &PendingRef) -> (r: Option<usize>)
        requires
            old(self)@.wf(),
            fits(old(self)@.r, p@),
        ensures
            ({
                let (c, root) = crate::linking::chain_root(old(self)@.r, p@);
                &&& final(self)@ == (LV { r: kept(old(self)@.r, c), ..old(self)@ })
                &&& r == root
            }),
            onward(old(self)@, final(self)@),
            final(self)@.r.g == old(self)@.r.g,
    {
        proof {
            reveal(Linker::view);
        }
        let r = self.res.chain_root(p);
        assert(self@.r =~= kept(old(self)@.r, self@.r));
        r
    }

    fn with_sites(&mut self, p: &PendingRef, found: Option<usize>)
        requires
            old(self)@.wf(),
            fits(old(self)@.r, p@),
            below(found, old(self)@.r.n()),
        ensures
            final(self)@ == with_sites(old(self)@, p@, found),
            onward(old(self)@, final(self)@),
            final(self)@.r.g == old(self)@.r.g,
            final(self)@.recorded == old(self)@.recorded,
    {
        proof {
            reveal(with_sites);
        }
        if let Some(t) = found {
            let root = self.root_of(p);
            let n: usize = p.qn.segments.len();
            let name_span: Span = if n == 0 {
                p.qn.span
            } else {
                p.qn.segments[n - 1].span
            };
            let plain: bool = p.chain.is_none() && !p.declared_only && !str_eq(
                p.key,
                "importedNamespace",
            );
            let s = RefSite {
                unit: self.unit_of_elem(p.elem),
                span: p.qn.span,
                name_span,
                target: t,
                kind: p.key,
                scope: p.scope,
                exclude: p.exclude,
                plain,
                owner: p.elem,
                chain_root: root,
            };
            assert(s@ == whole_site(self@.unit_starts, p@, t, root));
            self.push_site(s);
        }
        self.prefix_sites(p);
    }

    fn denoted(&mut self, p: &PendingRef) -> (r: (Option<usize>, bool))
        requires
            old(self)@.wf(),
            fits(old(self)@.r, p@),
        ensures
            ({
                let (c, found, ambiguous) = crate::linking::denoted(old(self)@.r.clear_missed(), p@);
                &&& final(self)@ == (LV { r: kept(old(self)@.r, c), ..old(self)@ })
                &&& r == (found, ambiguous)
            }),
            onward(old(self)@, final(self)@),
            final(self)@.r.g == old(self)@.r.g,
            below(r.0, final(self)@.r.n()),
    {
        proof {
            reveal(Linker::view);
        }
        self.res.clear_missed();
        let r = self.res.denoted(p);
        assert(self@.r =~= kept(old(self)@.r, self@.r));
        r
    }

    fn restore(&mut self, exclude: Option<usize>, declared_only: bool)
        requires
            old(self)@.wf(),
        ensures
            final(self)@ == (LV {
                r: old(self)@.r.set_exclude(exclude).set_declared_only(declared_only),
                ..old(self)@
            }),
            onward(old(self)@, final(self)@),
            final(self)@.r.g == old(self)@.r.g,
    {
        proof {
            reveal(Linker::view);
        }
        self.res.set_exclude(exclude);
        self.res.set_declared_only(declared_only);
    }

    fn outcome(&mut self, p: &PendingRef, found: Option<usize>)
        requires
            old(self)@.wf(),
            fits(old(self)@.r, p@),
            below(found, old(self)@.r.n()),
        ensures
            final(self)@ == (LV { r: note_outcome(old(self)@.r, p@, found), ..old(self)@ }),
            onward(old(self)@, final(self)@),
            final(self)@.r.g == old(self)@.r.g,
    {
        proof {
            reveal(Linker::view);
        }
        self.res.note_outcome(p, found);
    }

    fn set_value(&mut self, p: &PendingRef, link: Link)
        requires
            old(self)@.wf(),
            fits(old(self)@.r, p@),
        ensures
            final(self)@ == (LV { r: old(self)@.r.set_value(p@, link@), ..old(self)@ }),
            onward(old(self)@, final(self)@),
    {
        proof {
            reveal(Linker::view);
        }
        self.res.set_value(p, link);
    }

    fn element_id(&self, t: usize) -> (r: u128)
        requires
            t < self@.r.n(),
        ensures
            r == self@.r.g.elements[t as int].id,
    {
        proof {
            reveal(Linker::view);
            reveal(Resolver::view);
            reveal(Builder::view);
        }
        self.res.graph.elements[t].id
    }

    fn link_found(&mut self, p: &PendingRef, t: usize)
        requires
            old(self)@.wf(),
            fits(old(self)@.r, p@),
            t < old(self)@.r.n(),
        ensures
            final(self)@ == link_found(old(self)@, p@, t),
            onward(old(self)@, final(self)@),
    {
        proof {
            reveal(link_found);
        }
        self.outcome(p, Some(t));
        let id: u128 = self.element_id(t);
        self.set_value(p, Link::Id(id));
    }

    fn link_missing(&mut self, p: &PendingRef, ambiguous: bool)
        requires
            old(self)@.wf(),
            fits(old(self)@.r, p@),
        ensures
            final(self)@ == link_missing(old(self)@, p@, ambiguous),
            onward(old(self)@, final(self)@),
    {
        proof {
            reveal(link_missing);
        }
        if ambiguous {
            self.push_ambiguous(p.elem, &p.qn);
        } else {
            self.push_unresolved(p.elem, &p.qn);
        }
        self.set_value(p, Link::Name(ref_string(&p.qn)));
    }

    fn missed(&self) -> (r: Vec<String>)
        ensures
            texts(r@) == self@.r.misses.now,
    {
        proof {
            reveal(Linker::view);
        }
        self.res.missed()
    }

    fn record(&mut self, rank: Option<usize>, v: Option<u128>, missed: Vec<String>, ambiguous: bool)
        requires
            old(self)@.wf(),
            rank is Some ==> rank->0 < old(self)@.recorded.len(),
            old(self)@.missed.len() == old(self)@.recorded.len(),
            old(self)@.unsure.len() == old(self)@.recorded.len(),
        ensures
            final(self)@ == (LV {
                recorded: set_at(
                    old(self)@.recorded,
                    match rank {
                        Some(k) => Some(k as int),
                        None => None,
                    },
                    v,
                ),
                missed: set_at(
                    old(self)@.missed,
                    match rank {
                        Some(k) => Some(k as int),
                        None => None,
                    },
                    texts(missed@),
                ),
                unsure: set_at(
                    old(self)@.unsure,
                    match rank {
                        Some(k) => Some(k as int),
                        None => None,
                    },
                    ambiguous,
                ),
                ..old(self)@
            }),
            onward(old(self)@, final(self)@),
    {
        proof {
            reveal(Linker::view);
        }
        let ghost mv = texts(missed@);
        if let Some(k) = rank {
            self.recorded.set(k, v);
            self.missed.set(k, missed);
            self.unsure.set(k, ambiguous);
            assert(text_lists(self.missed@) =~= text_lists(old(self).missed@).update(k as int, mv));
        }
    }

    fn read_modes(&self) -> (r: (Option<usize>, bool))
        ensures
            r == (self@.r.exclude, self@.r.declared_only),
    {
        proof {
            reveal(Linker::view);
        }
        (self.res.read_exclude(), self.res.read_declared_only())
    }

    fn serialized(&self, p: &PendingRef, found: Option<usize>) -> (r: Option<usize>)
        requires
            self@.wf(),
            fits(self@.r, p@),
            below(found, self@.r.n()),
        ensures
            r == crate::linking::serialized(self@.r.g, p@, found),
            below(r, self@.r.n()),
    {
        proof {
            reveal(Linker::view);
        }
        self.res.serialized(p, found)
    }

    fn link_searched(&mut self, p: &PendingRef, rank: Option<usize>)
        requires
            old(self)@.wf(),
            fits(old(self)@.r, p@),
            old(self)@.missed.len() == old(self)@.recorded.len(),
            old(self)@.unsure.len() == old(self)@.recorded.len(),
            rank is Some ==> rank->0 < old(self)@.recorded.len(),
        ensures
            final(self)@ == link_searched(
                old(self)@,
                p@,
                match rank {
                    Some(k) => Some(k as int),
                    None => None,
                },
            ),
            onward(old(self)@, final(self)@),
    {
        proof {
            reveal(link_searched);
        }
        let (exclude, declared_only) = self.read_modes();
        let (found, ambiguous) = self.denoted(p);
        let missed: Vec<String> = self.missed();
        if rank.is_none() {
            self.with_sites(p, found);
        }
        let target = self.serialized(p, found);
        self.restore(exclude, declared_only);
        match target {
            Some(t) => {
                let id: u128 = self.element_id(t);
                self.record(rank, Some(id), missed, ambiguous);
                self.link_found(p, t);
            },
            None => {
                self.record(rank, None, missed, ambiguous);
                self.outcome(p, None);
                self.link_missing(p, ambiguous);
            },
        }
    }

    fn library_element(&self, id: u128) -> (r: Option<usize>)
        requires
            self@.wf(),
        ensures
            r == crate::linking::sole_with_id(self@.r.g, id, self@.r.lib_boundary),
            below(r, self@.r.n()),
    {
        proof {
            reveal(Linker::view);
        }
        self.res.library_element(id)
    }

    fn hint(&self, rank: usize) -> (r: Option<Hint>)
        ensures
            r == (if rank < self@.hints.len() {
                self@.hints[rank as int]
            } else {
                None
            }),
    {
        proof {
            reveal(Linker::view);
        }
        if rank < self.hints.len() {
            self.hints[rank]
        } else {
            None
        }
    }

    fn link_replayed(&mut self, p: &PendingRef, rank: usize, hint: Hint)
        requires
            old(self)@.wf(),
            fits(old(self)@.r, p@),
            old(self)@.missed.len() == old(self)@.recorded.len(),
            old(self)@.unsure.len() == old(self)@.recorded.len(),
            rank < old(self)@.hints.len(),
            rank < old(self)@.recorded.len(),
            old(self)@.hints[rank as int] == Some(hint),
        ensures
            final(self)@ == link_replayed(old(self)@, p@, rank as int),
            onward(old(self)@, final(self)@),
    {
        proof {
            reveal(link_replayed);
        }
        match hint.target {
            Some(id) => match self.library_element(id) {
                Some(t) => {
                    self.outcome(p, Some(t));
                    self.set_value(p, Link::Id(id));
                },
                None => self.link_searched(p, Some(rank)),
            },
            None => self.link_missing(p, hint.ambiguous),
        }
    }

    pub fn boundary(&self) -> (r: usize)
        ensures
            r == self@.r.lib_boundary,
    {
        proof {
            reveal(Linker::view);
        }
        self.res.read_lib_boundary()
    }

    fn link_one(&mut self, p: &PendingRef, rank: usize)
        requires
            old(self)@.wf(),
            fits(old(self)@.r, p@),
            old(self)@.missed.len() == old(self)@.recorded.len(),
            old(self)@.unsure.len() == old(self)@.recorded.len(),
            p@.elem < old(self)@.r.lib_boundary ==> rank < old(self)@.recorded.len(),
        ensures
            final(self)@ == link_one(old(self)@, p@, rank as int),
            onward(old(self)@, final(self)@),
    {
        proof {
            reveal(link_one);
        }
        if p.elem < self.boundary() {
            match self.hint(rank) {
                Some(hint) => self.link_replayed(p, rank, hint),
                None => self.link_searched(p, Some(rank)),
            }
        } else {
            self.link_searched(p, None);
        }
    }

    fn pending_len(&self) -> (r: usize)
        ensures
            r == self@.r.g.pending.len(),
    {
        proof {
            reveal(Linker::view);
            reveal(Resolver::view);
            reveal(Builder::view);
        }
        self.res.graph.pending.len()
    }

    fn pending_at(&self, i: usize) -> (r: PendingRef)
        requires
            self@.wf(),
            i < self@.r.g.pending.len(),
        ensures
            r@ == self@.r.g.pending[i as int],
            fits(self@.r, r@),
    {
        proof {
            reveal(Linker::view);
        }
        self.res.pending_at(i)
    }

    fn link_pass(&mut self, specs: bool)
        requires
            old(self)@.wf(),
            old(self)@.missed.len() == old(self)@.recorded.len(),
            old(self)@.unsure.len() == old(self)@.recorded.len(),
            old(self)@.recorded.len() == library_refs(
                old(self)@.r.g.pending,
                old(self)@.r.lib_boundary,
                old(self)@.r.g.pending.len() as int,
            ),
        ensures
            final(self)@ == link_pass(old(self)@, old(self)@.r.g.pending, 0, 0, specs),
            onward(old(self)@, final(self)@),
    {
        let ghost pending = self@.r.g.pending;
        let ghost b = self@.r.lib_boundary;
        let n: usize = self.pending_len();
        let mut i: usize = 0;
        let mut rank: usize = 0;
        while i < n
            invariant
                n == pending.len(),
                i <= n,
                self@.wf(),
                onward(old(self)@, self@),
                pending == old(self)@.r.g.pending,
                b == old(self)@.r.lib_boundary,
                self@.missed.len() == self@.recorded.len(),
                self@.unsure.len() == self@.recorded.len(),
                self@.recorded.len() == library_refs(pending, b, n as int),
                rank == library_refs(pending, b, i as int),
                rank <= i,
                link_pass(self@, pending, i as int, rank as int, specs) == link_pass(
                    old(self)@,
                    pending,
                    0,
                    0,
                    specs,
                ),
            decreases n - i,
        {
            let p: PendingRef = self.pending_at(i);
            proof {
                lemma_rank(pending, b, i + 1, n as int);
            }
            if p.spec_idx.is_some() == specs {
                self.link_one(&p, rank);
            }
            if p.elem < self.boundary() {
                rank += 1;
            }
            i += 1;
        }
    }

    fn start_recording(&mut self)
        requires
            old(self)@.wf(),
        ensures
            final(self)@ == started(old(self)@),
            final(self)@.wf(),
    {
        let ghost a = self@;
        let ghost pending = a.r.g.pending;
        let b: usize = self.boundary();
        let n: usize = self.pending_len();
        let mut out: Vec<Option<u128>> = Vec::new();
        let mut missed: Vec<Vec<String>> = Vec::new();
        let mut unsure: Vec<bool> = Vec::new();
        let mut i: usize = 0;
        while i < n
            invariant
                n == pending.len(),
                i <= n,
                self@.wf(),
                self@ == a,
                pending == a.r.g.pending,
                b == a.r.lib_boundary,
                out@.len() == library_refs(pending, b, i as int),
                missed@.len() == out@.len(),
                unsure@.len() == out@.len(),
                forall|j: int| 0 <= j < unsure@.len() ==> !unsure@[j],
                forall|j: int| 0 <= j < out@.len() ==> out@[j] is None,
                forall|j: int| 0 <= j < missed@.len() ==> (#[trigger] missed@[j])@.len() == 0,
            decreases n - i,
        {
            let p: PendingRef = self.pending_at(i);
            if p.elem < b {
                out.push(None);
                missed.push(Vec::new());
                unsure.push(false);
            }
            i += 1;
        }
        proof {
            reveal(Linker::view);
        }
        self.recorded = out;
        self.missed = missed;
        self.unsure = unsure;
        assert(self@.unsure =~= started(a).unsure);
        assert(self@.recorded =~= started(a).recorded);
        assert forall|j: int| 0 <= j < missed@.len() implies #[trigger] text_lists(missed@)[j] == Seq::<
            Seq<char>,
        >::empty() by {
            assert(missed@[j]@.len() == 0);
            assert(texts(missed@[j]@) =~= Seq::<Seq<char>>::empty());
        }
        assert(self@.missed =~= started(a).missed);
    }

    /// Takes the references from the graph: nothing is left to link or to
    /// replay.
    fn finish(&mut self)
        requires
            old(self)@.wf(),
        ensures
            final(self)@ == finished(old(self)@),
            final(self)@.wf(),
            same_forest(old(self)@.r.g, final(self)@.r.g),
    {
        self.sort_sites();
        let ghost a = self@;
        proof {
            reveal(Linker::view);
        }
        self.res.take_pending();
        self.hints = Vec::new();
        assert(self@.hints =~= Seq::<Option<Hint>>::empty());
        assert(self@ =~= finished(old(self)@));
    }

    /// Resolve every recorded reference: the specializations first, then the
    /// others, each in the order they were written. The references are taken
    /// from the graph.
    pub fn resolve_pending(&mut self)
        requires
            old(self)@.wf(),
        ensures
            final(self)@ == linked(old(self)@),
            final(self)@.wf(),
            final(self)@.r.g.pending.len() == 0,
            final(self)@.r.n() == old(self)@.r.n(),
            final(self)@.r.ns() == old(self)@.r.ns(),
            final(self)@.r.lib_boundary == old(self)@.r.lib_boundary,
            final(self)@.unit_starts == old(self)@.unit_starts,
            same_forest(old(self)@.r.g, final(self)@.r.g),
    {
        self.start_recording();
        proof {
            lemma_rank(self@.r.g.pending, self@.r.lib_boundary, 0, self@.r.g.pending.len() as int);
        }
        self.link_pass(true);
        self.link_pass(false);
        self.finish();
    }

    fn sort_sites(&mut self)
        requires
            old(self)@.wf(),
        ensures
            final(self)@ == (LV {
                sites: sorted_sites(old(self)@.sites, old(self)@.sites.len() as int),
                ..old(self)@
            }),
            final(self)@.wf(),
    {
        proof {
            reveal(Linker::view);
        }
        let ghost all = sites_view(self.sites@);
        let mut out: Vec<RefSite> = Vec::new();
        let n: usize = self.sites.len();
        let mut i: usize = 0;
        assert(sites_view(out@) =~= sorted_sites(all, 0));
        while i < n
            invariant
                n == self.sites@.len(),
                i <= n,
                *self == *old(self),
                all == sites_view(self.sites@),
                sites_view(out@) == sorted_sites(all, i as int),
                all == self@.sites,
                sites_ok(all, self@.r.n()),
                sites_ok(sites_view(out@), self@.r.n()),
            decreases n - i,
        {
            let x: RefSite = self.sites[i];
            let at: usize = slot(&out, &x);
            let ghost before = sites_view(out@);
            out.insert(at, x);
            assert(sites_view(out@) =~= before.insert(at as int, x@));
            assert(all[i as int] == x@);
            assert forall|j: int| 0 <= j < sites_view(out@).len() implies (
            #[trigger] sites_view(out@)[j]).target < self@.r.n() by {
                if j < at {
                    assert(sites_view(out@)[j] == before[j]);
                } else if j > at {
                    assert(sites_view(out@)[j] == before[j - 1]);
                }
            }
            i += 1;
        }
        self.sites = out;
        assert(self@ =~= (LV { sites: sorted_sites(all, all.len() as int), ..old(self)@ }));
    }
}

fn before(a: &RefSite, b: &RefSite) -> (r: bool)
    ensures
        r == site_before(a@, b@),
{
    if a.unit != b.unit {
        a.unit < b.unit
    } else if a.span.start != b.span.start {
        a.span.start < b.span.start
    } else if a.span.end != b.span.end {
        a.span.end < b.span.end
    } else if a.name_span.start != b.name_span.start {
        a.name_span.start < b.name_span.start
    } else {
        a.name_span.end < b.name_span.end
    }
}

fn slot(sorted: &Vec<RefSite>, x: &RefSite) -> (r: usize)
    ensures
        r == site_slot(sites_view(sorted@), x@, sorted@.len() as int),
        r <= sorted@.len(),
{
    let mut k: usize = sorted.len();
    while k > 0
        invariant
            k <= sorted@.len(),
            site_slot(sites_view(sorted@), x@, sorted@.len() as int) == site_slot(
                sites_view(sorted@),
                x@,
                k as int,
            ),
        decreases k,
    {
        if before(x, &sorted[k - 1]) {
            k -= 1;
        } else {
            return k;
        }
    }
    0
}

proof fn lemma_rank(pending: Seq<PendingV>, b: usize, i: int, n: int)
    requires
        0 <= i <= n <= pending.len(),
    ensures
        0 <= library_refs(pending, b, i) <= library_refs(pending, b, n) <= n,
        library_refs(pending, b, i) <= i,
    decreases n,
{
    if n > i {
        lemma_rank(pending, b, i, n - 1);
    } else if i > 0 {
        lemma_rank(pending, b, i - 1, n - 1);
    }
}

} // verus!
