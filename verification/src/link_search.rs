//! Searching what one recorded reference denotes.
use crate::ast::{duplicate_prefix, qns_view, Name, QualifiedName};
use crate::linking::{
    agreed, chain_root, contextual, denoted, import_outcome, is_chained, last_alone, last_with_id, sole_with_id,
    lexical, note_outcome, serialized,
};
use crate::props::{Link, Value};
use crate::refname::{ref_string, ref_text};
use crate::rstate::{LookupResult, Resolver, RV};
use crate::state::{below, Builder, PendingRef, PendingV, BV};
use crate::text::str_eq;
use vstd::prelude::*;

verus! {

/// A reference that fits the graph.
pub open spec fn fits(b: RV, p: PendingV) -> bool {
    p.ok(b.n(), b.ns(), b.g.spec_targets.len())
}

/// What a step of resolution keeps: the graph, and that the state is valid.
pub open spec fn steady(a: RV, b: RV) -> bool {
    &&& b.wf()
    &&& b.g == a.g
    &&& b.lib_boundary == a.lib_boundary
}

fn last_only(qn: &QualifiedName) -> (r: QualifiedName)
    ensures
        r@ == last_alone(qn@),
{
    let n: usize = qn.segments.len();
    let mut segments: Vec<Name> = Vec::new();
    if n > 0 {
        segments.push(qn.segments[n - 1].duplicate());
    }
    let r = QualifiedName { is_global: false, segments, span: qn.span };
    assert(r@.segments =~= last_alone(qn@).segments);
    r
}

fn chained(p: &PendingRef) -> (r: bool)
    ensures
        r == is_chained(p@),
{
    match &p.chain {
        Some(links) => links.len() > 0,
        None => false,
    }
}

impl Resolver {
    fn import_hit(&self, s: usize, qn: &QualifiedName) -> (r: Option<usize>)
        requires
            self@.wf(),
            s < self@.ns(),
        ensures
            r == import_outcome(self@, s, qn@, self@.g.import_count(s) as int),
            below(r, self@.n()),
    {
        let want: String = ref_string(qn);
        let mut k: usize = self.import_count(s);
        while k > 0
            invariant
                self@.wf(),
                s < self@.ns(),
                k <= self@.g.import_count(s),
                want@ == ref_text(qn@),
                import_outcome(self@, s, qn@, self@.g.import_count(s) as int) == import_outcome(
                    self@,
                    s,
                    qn@,
                    k as int,
                ),
            decreases k,
        {
            k -= 1;
            let target: QualifiedName = self.import_target(s, k);
            let have: String = ref_string(&target);
            if str_eq(have.as_str(), want.as_str()) {
                return self.import_elem(s, k);
            }
        }
        None
    }

    fn import_elem(&self, s: usize, k: usize) -> (r: Option<usize>)
        requires
            self@.wf(),
            s < self@.ns(),
        ensures
            r == (if k < self@.import_elems[s as int].len() {
                self@.import_elems[s as int][k as int]
            } else {
                None
            }),
            below(r, self@.n()),
    {
        proof {
            reveal(Resolver::view);
            reveal(RV::wf);
            assert(crate::rstate::elems_ok(self@.import_elems[s as int], self@.n()));
        }
        if k < self.import_elems[s].len() {
            self.import_elems[s][k]
        } else {
            None
        }
    }

    fn contextual(&mut self, p: &PendingRef) -> (r: Option<usize>)
        requires
            old(self)@.wf(),
            fits(old(self)@, p@),
        ensures
            (final(self)@, r) == contextual(old(self)@, p@),
            steady(old(self)@, final(self)@),
            below(r, final(self)@.n()),
    {
        proof {
            reveal(contextual);
        }
        let ghost m = self@.open_count();
        if str_eq(p.key, "importedNamespace") {
            let _list = self.import_scopes(Ghost(m), p.scope);
            self.import_hit(p.scope, &p.qn)
        } else {
            match &p.chain {
                Some(links) => self.resolve_chain(Ghost(m), p.scope, links, &p.qn),
                None => None,
            }
        }
    }

    fn agreed(&mut self, p: &PendingRef, found: Option<usize>) -> (r: Option<usize>)
        requires
            old(self)@.wf(),
            fits(old(self)@, p@),
            below(found, old(self)@.n()),
        ensures
            (final(self)@, r) == agreed(old(self)@, p@, found),
            steady(old(self)@, final(self)@),
            below(r, final(self)@.n()),
    {
        proof {
            reveal(agreed);
        }
        if !chained(p) || p.qn.is_global {
            return found;
        }
        match (found, &p.chain) {
            (Some(t), Some(links)) => {
                self.set_declared_only(false);
                let ghost m = self@.open_count();
                let last: QualifiedName = last_only(&p.qn);
                let again = self.resolve_chain(Ghost(m), p.scope, links, &last);
                match again {
                    Some(x) => {
                        if x == t {
                            Some(t)
                        } else {
                            None
                        }
                    },
                    None => None,
                }
            },
            _ => None,
        }
    }

    fn lexical(&mut self, p: &PendingRef) -> (r: (Option<usize>, bool))
        requires
            old(self)@.wf(),
            fits(old(self)@, p@),
        ensures
            (final(self)@, r.0, r.1) == lexical(old(self)@, p@),
            steady(old(self)@, final(self)@),
            below(r.0, final(self)@.n()),
    {
        proof {
            reveal(lexical);
        }
        self.set_declared_only(p.declared_only);
        let ghost m = self@.open_count();
        let hit = self.resolve_result(Ghost(m), p.scope, &p.qn, 0, false);
        let ambiguous: bool = match hit {
            LookupResult::Ambiguous => true,
            _ => false,
        };
        let found = self.agreed(p, hit.element());
        (found, ambiguous)
    }

    /// What a reference denotes, and whether it was ambiguous.
    pub fn denoted(&mut self, p: &PendingRef) -> (r: (Option<usize>, bool))
        requires
            old(self)@.wf(),
            fits(old(self)@, p@),
        ensures
            (final(self)@, r.0, r.1) == denoted(old(self)@, p@),
            steady(old(self)@, final(self)@),
            below(r.0, final(self)@.n()),
    {
        proof {
            reveal(denoted);
        }
        self.set_exclude(p.exclude);
        self.set_declared_only(false);
        let found = self.contextual(p);
        if found.is_some() || str_eq(p.key, "importedNamespace") {
            (found, false)
        } else {
            self.lexical(p)
        }
    }

    /// The element that the first link of a chain denotes.
    pub fn chain_root(&mut self, p: &PendingRef) -> (r: Option<usize>)
        requires
            old(self)@.wf(),
            fits(old(self)@, p@),
        ensures
            (final(self)@, r) == chain_root(old(self)@, p@),
            steady(old(self)@, final(self)@),
            below(r, final(self)@.n()),
    {
        proof {
            reveal(chain_root);
        }
        match &p.chain {
            Some(links) => {
                if links.len() > 0 {
                    let saved: bool = self.read_declared_only();
                    self.set_declared_only(false);
                    let ghost m = self@.open_count();
                    assert(qns_view(links@)[0] == links@[0]@);
                    let root = self.resolve(Ghost(m), p.scope, &links[0], 0);
                    self.set_declared_only(saved);
                    root
                } else {
                    None
                }
            },
            None => None,
        }
    }

    /// The element a property names for what a reference denotes.
    pub fn serialized(&self, p: &PendingRef, found: Option<usize>) -> (r: Option<usize>)
        requires
            self@.wf(),
            fits(self@, p@),
            below(found, self@.n()),
        ensures
            r == serialized(self@.g, p@, found),
            below(r, self@.n()),
    {
        proof {
            reveal(serialized);
            reveal(Resolver::view);
            reveal(RV::wf);
            if found is Some {
                crate::state::lemma_elem_ok(self@.g, found->0 as int);
            }
        }
        let member = if str_eq(p.key, "importedMembership") {
            match found {
                Some(t) => match self.graph.owning(t) {
                    Some(o) => Some(o),
                    None => Some(t),
                },
                None => None,
            }
        } else {
            found
        };
        if str_eq(self.graph.ty(p.elem), "ConjugatedPortTyping") && str_eq(p.key, "type") {
            match member {
                Some(t) => {
                    proof {
                        crate::state::lemma_elem_ok(self@.g, t as int);
                        reveal(Builder::view);
                    }
                    match self.graph.elements[t].notes.conjugated {
                        Some(c) => Some(c),
                        None => Some(t),
                    }
                },
                None => None,
            }
        } else {
            member
        }
    }

    fn last_before(&self, id: u128, end: usize) -> (r: Option<usize>)
        requires
            end <= self@.n(),
        ensures
            r == last_with_id(self@.g, id, end as int),
            below(r, end as nat),
    {
        proof {
            reveal(Resolver::view);
            reveal(Builder::view);
        }
        let mut k: usize = end;
        while k > 0
            invariant
                k <= end <= self@.n(),
                last_with_id(self@.g, id, end as int) == last_with_id(self@.g, id, k as int),
            decreases k,
        {
            proof {
                reveal(Resolver::view);
                reveal(Builder::view);
            }
            k -= 1;
            if self.graph.elements[k].id == id {
                return Some(k);
            }
        }
        None
    }

    /// The library element with an id, where there is exactly one.
    pub fn library_element(&self, id: u128) -> (r: Option<usize>)
        requires
            self@.wf(),
            self@.lib_boundary <= self@.n(),
        ensures
            r == sole_with_id(self@.g, id, self@.lib_boundary),
            below(r, self@.n()),
    {
        let boundary: usize = self.read_lib_boundary();
        match self.last_before(id, boundary) {
            Some(t) => if self.last_before(id, t).is_none() {
                Some(t)
            } else {
                None
            },
            None => None,
        }
    }

    /// Stores a link under a reference's key.
    pub fn set_value(&mut self, p: &PendingRef, link: Link)
        requires
            old(self)@.wf(),
            fits(old(self)@, p@),
        ensures
            final(self)@ == old(self)@.set_value(p@, link@),
            final(self)@.wf(),
            final(self)@.n() == old(self)@.n(),
            final(self)@.ns() == old(self)@.ns(),
            final(self)@.g.pending == old(self)@.g.pending,
            final(self)@.g.spec_targets == old(self)@.g.spec_targets,
            final(self)@.lib_boundary == old(self)@.lib_boundary,
            same_forest(old(self)@.g, final(self)@.g),
    {
        proof {
            reveal(Resolver::view);
            reveal(RV::wf);
            reveal(RV::set_value);
            reveal(BV::append_link);
            reveal(BV::set);
        }
        match p.index {
            Some(_) => self.graph.append_link(p.elem, p.key, link),
            None => self.graph.set(p.elem, p.key, Value::Ref(link)),
        }
        assert(self@ =~= old(self)@.set_value(p@, link@));
        assert forall|t: int| 0 <= t < self@.ns() implies self@.imports_ok(
            t,
            #[trigger] self@.imports[t],
        ) by {
            assert(old(self)@.imports_ok(t, old(self)@.imports[t]));
        }
    }

    pub fn note_outcome(&mut self, p: &PendingRef, found: Option<usize>)
        requires
            old(self)@.wf(),
            fits(old(self)@, p@),
            below(found, old(self)@.n()),
        ensures
            final(self)@ == note_outcome(old(self)@, p@, found),
            steady(old(self)@, final(self)@),
    {
        proof {
            reveal(note_outcome);
        }
        if let Some(i) = p.spec_idx {
            self.set_resolved(i, found);
        }
    }

    /// The reference at position `i`.
    pub fn pending_at(&self, i: usize) -> (r: PendingRef)
        requires
            self@.wf(),
            i < self@.g.pending.len(),
        ensures
            r@ == self@.g.pending[i as int],
            fits(self@, r@),
    {
        proof {
            reveal(Resolver::view);
            reveal(Builder::view);
            reveal(RV::wf);
            reveal(BV::wf);
        }
        let p: &PendingRef = &self.graph.pending[i];
        PendingRef {
            elem: p.elem,
            key: p.key,
            index: p.index,
            scope: p.scope,
            qn: p.qn.duplicate(),
            exclude: p.exclude,
            declared_only: p.declared_only,
            chain: match &p.chain {
                Some(links) => Some(duplicate_prefix(links, links.len())),
                None => None,
            },
            spec_idx: p.spec_idx,
        }
    }
}

/// Two graphs with the same elements and ownership; properties may differ.
pub open spec fn same_forest(a: BV, b: BV) -> bool {
    &&& a.n() == b.n()
    &&& forall|i: int|
        0 <= i < a.n() ==> {
            &&& (#[trigger] b.elements[i]).ty == a.elements[i].ty
            &&& b.elements[i].id == a.elements[i].id
            &&& b.elements[i].owned == a.elements[i].owned
            &&& b.elements[i].children == a.elements[i].children
            &&& b.elements[i].owning == a.elements[i].owning
            &&& b.elements[i].carrier == a.elements[i].carrier
        }
}

impl Builder {
    fn take_pending(&mut self)
        requires
            old(self)@.wf(),
        ensures
            final(self)@ == (BV { pending: Seq::empty(), ..old(self)@ }),
            final(self)@.wf(),
    {
        proof {
            reveal(Builder::view);
            reveal(BV::wf);
        }
        self.pending = Vec::new();
        assert(self@.pending =~= Seq::empty());
        proof {
            crate::state::lemma_records(old(self)@, self@);
        }
    }
}

impl Resolver {
    /// Takes the recorded references from the graph.
    pub fn take_pending(&mut self)
        requires
            old(self)@.wf(),
        ensures
            final(self)@ == (RV {
                g: BV { pending: Seq::empty(), ..old(self)@.g },
                ..old(self)@
            }),
            final(self)@.wf(),
    {
        proof {
            reveal(Resolver::view);
            reveal(RV::wf);
        }
        self.graph.take_pending();
        assert forall|t: int| 0 <= t < self@.ns() implies self@.imports_ok(
            t,
            #[trigger] self@.imports[t],
        ) by {
            assert(old(self)@.imports_ok(t, old(self)@.imports[t]));
        }
    }
}

} // verus!
