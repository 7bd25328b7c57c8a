//! Reading a linked model: names in scope, declaration sites, references,
//! values and calculations.
use crate::ast::{Expr, Name, QnV, QualifiedName, Span};
use crate::constraints::first_body;
use crate::graph_get::{flag_prop, opt_text};
use crate::linker::{mentions, sites_view, Linker, Mention, RefSite};
use crate::linking::{elem_unit, MentionV, SiteV, LV};
use crate::naming_ids::text_prop;
use crate::queries::bare_name;
use crate::refname::{ref_string, ref_text};
use crate::resolution;
use crate::rstate::{LookupResult, Resolver, RV};
use crate::state::{below, Builder, BV};
use crate::text::str_eq;
use std::rc::Rc;
use vstd::prelude::*;

verus! {

/// Resolution with an element shielded from capture.
#[verifier::opaque]
pub open spec fn resolved_excluding(
    b: RV,
    scope: usize,
    qn: QnV,
    exclude: Option<usize>,
) -> (RV, Option<usize>) {
    let saved = b.exclude;
    let b = b.set_exclude(exclude);
    let (b, hit) = resolution::resolve(b.g, b, b.open_count(), scope, qn, 0);
    (b.set_exclude(saved), hit)
}

/// Whether a simple name is bound in a scope, be it ambiguously; which
/// imports count as used does not change.
#[verifier::opaque]
pub open spec fn bound_in(b: RV, scope: usize, name: Seq<char>) -> (RV, bool) {
    let (c, hit) = resolution::resolve_result(
        b.g,
        b,
        b.open_count(),
        scope,
        bare_name(seq![name]),
        0,
        false,
    );
    (RV { used: b.used, ..c }, hit != LookupResult::Missing)
}

/// A reference that did not resolve.
pub struct UnresolvedReference {
    pub owner: usize,
    pub spelling: String,
    pub unit: usize,
    pub span: Span,
}

pub struct UnresolvedV {
    pub owner: usize,
    pub spelling: Seq<char>,
    pub unit: usize,
    pub span: Span,
}

impl UnresolvedReference {
    pub open spec fn view(&self) -> UnresolvedV {
        UnresolvedV {
            owner: self.owner,
            spelling: self.spelling@,
            unit: self.unit,
            span: self.span,
        }
    }
}

pub open spec fn unresolved_views(s: Seq<UnresolvedReference>) -> Seq<UnresolvedV> {
    s.map_values(|x: UnresolvedReference| x@)
}

pub open spec fn unresolved_of(l: LV) -> Seq<UnresolvedV> {
    l.unresolved.map_values(
        |m: MentionV| UnresolvedV {
            owner: m.elem,
            spelling: ref_text(m.qn),
            unit: elem_unit(l.unit_starts, m.elem),
            span: m.qn.span,
        },
    )
}

/// The sites from `k` on that name an element.
pub open spec fn sites_to(sites: Seq<SiteV>, e: usize, k: int) -> Seq<SiteV>
    decreases sites.len() - k,
    when 0 <= k
{
    if k >= sites.len() {
        Seq::empty()
    } else if sites[k].target == e {
        seq![sites[k]] + sites_to(sites, e, k + 1)
    } else {
        sites_to(sites, e, k + 1)
    }
}

/// Where the specializations of an element from `k` on are written; of one
/// kind only, where a kind is given.
pub open spec fn spec_spans(g: BV, e: usize, kind: Option<Seq<char>>, k: int) -> Seq<Span>
    decreases g.spec_targets.len() - k,
    when 0 <= k
{
    if k >= g.spec_targets.len() {
        Seq::empty()
    } else {
        let t = g.spec_targets[k];
        if t.elem == e && (kind is None || kind == Some(t.kind)) {
            seq![t.qn.span] + spec_spans(g, e, kind, k + 1)
        } else {
            spec_spans(g, e, kind, k + 1)
        }
    }
}

/// The elements of a metaclass from `i` on.
pub open spec fn of_metaclass(g: BV, ty: Seq<char>, i: int) -> Seq<usize>
    decreases g.n() - i,
    when 0 <= i
{
    if i >= g.n() {
        Seq::empty()
    } else if g.elements[i].ty == ty {
        seq![i as usize] + of_metaclass(g, ty, i + 1)
    } else {
        of_metaclass(g, ty, i + 1)
    }
}

/// The expression a calculation comes to: its result, or else the value of
/// its return parameter.
#[verifier::opaque]
pub open spec fn calculation(g: BV, e: usize) -> Option<(usize, Rc<Expr>)> {
    match first_body(g, e, 0) {
        Some(k) => Some((g.result_exprs[k].1, g.result_exprs[k].2)),
        None => match g.elements[e as int].notes.return_param {
            Some(p) => g.elements[p as int].notes.value,
            None => None,
        },
    }
}

/// The keywords an element's flags are written with, in order.
#[verifier::opaque]
pub open spec fn keywords(g: BV, e: usize) -> Seq<Seq<char>> {
    let p = g.elements[e as int].props;
    (if flag_prop(p, "isVariation"@) == Some(true) {
        seq!["variation"@]
    } else if flag_prop(p, "isAbstract"@) == Some(true) {
        seq!["abstract"@]
    } else {
        Seq::<Seq<char>>::empty()
    }) + word_if(p, "isIndividual"@, "individual"@) + word_if(p, "isConstant"@, "constant"@) + word_if(
        p,
        "isDerived"@,
        "derived"@,
    ) + word_if(p, "isEnd"@, "end"@)
}

pub open spec fn word_if(
    p: Map<Seq<char>, crate::props::ValueV>,
    key: Seq<char>,
    word: Seq<char>,
) -> Seq<Seq<char>> {
    if flag_prop(p, key) == Some(true) {
        seq![word]
    } else {
        Seq::empty()
    }
}

impl Resolver {
    /// Resolution with an element shielded from capture.
    pub fn resolve_in_excluding(
        &mut self,
        scope: usize,
        qn: &QualifiedName,
        exclude: Option<usize>,
    ) -> (r: Option<usize>)
        requires
            old(self)@.wf(),
            scope < old(self)@.ns(),
        ensures
            (final(self)@, r) == resolved_excluding(old(self)@, scope, qn@, exclude),
            final(self)@.wf(),
            final(self)@.g == old(self)@.g,
            final(self)@.lib_boundary == old(self)@.lib_boundary,
            below(r, final(self)@.n()),
    {
        proof {
            reveal(resolved_excluding);
        }
        let saved: Option<usize> = self.read_exclude();
        self.set_exclude(exclude);
        let ghost m = self@.open_count();
        let hit = self.resolve(Ghost(m), scope, qn, 0);
        self.set_exclude(saved);
        hit
    }

    /// Whether a simple name is already visible from a scope.
    pub fn name_is_bound_in(&mut self, scope: usize, name: &str) -> (r: bool)
        requires
            old(self)@.wf(),
            scope < old(self)@.ns(),
        ensures
            (final(self)@, r) == bound_in(old(self)@, scope, name@),
            final(self)@.wf(),
            final(self)@.g == old(self)@.g,
            final(self)@.used == old(self)@.used,
            final(self)@.lib_boundary == old(self)@.lib_boundary,
    {
        proof {
            reveal(bound_in);
        }
        let used: Vec<bool> = self.used_flags();
        let mut segments: Vec<Name> = Vec::new();
        segments.push(Name { value: name.to_owned(), span: Span { start: 0, end: 0 } });
        let qn = QualifiedName { is_global: false, segments, span: Span { start: 0, end: 0 } };
        assert(qn@.segments =~= bare_name(seq![name@]).segments);
        let ghost m = self@.open_count();
        let hit = self.resolve_result(Ghost(m), scope, &qn, 0, false);
        self.restore_used(used);
        match hit {
            LookupResult::Missing => false,
            _ => true,
        }
    }

    fn used_flags(&self) -> (r: Vec<bool>)
        requires
            self@.wf(),
        ensures
            r@ == self@.used,
            r@.len() == self@.n(),
    {
        proof {
            reveal(Resolver::view);
            reveal(RV::wf);
        }
        let mut out: Vec<bool> = Vec::new();
        let n: usize = self.used.len();
        let mut i: usize = 0;
        while i < n
            invariant
                n == self.used@.len(),
                i <= n,
                out@ == self.used@.take(i as int),
            decreases n - i,
        {
            out.push(self.used[i]);
            assert(out@ =~= self.used@.take(i + 1));
            i += 1;
        }
        assert(out@ =~= self.used@);
        out
    }

    fn restore_used(&mut self, used: Vec<bool>)
        requires
            old(self)@.wf(),
            used@.len() == old(self)@.n(),
        ensures
            final(self)@ == (RV { used: used@, ..old(self)@ }),
            final(self)@.wf(),
    {
        proof {
            reveal(Resolver::view);
            reveal(RV::wf);
        }
        self.used = used;
        assert forall|t: int| 0 <= t < self@.ns() implies self@.imports_ok(
            t,
            #[trigger] self@.imports[t],
        ) by {
            assert(old(self)@.imports_ok(t, old(self)@.imports[t]));
        }
    }
}

fn push_word(g: &Builder, e: usize, key: &str, word: &'static str, out: &mut Vec<&'static str>)
    requires
        e < g@.n(),
    ensures
        words(final(out)@) == words(old(out)@) + word_if(g@.elements[e as int].props, key@, word@),
{
    if let Some(true) = g.flag_of(e, key) {
        out.push(word);
    }
    assert(words(out@) =~= words(old(out)@) + word_if(g@.elements[e as int].props, key@, word@));
}

pub open spec fn words(s: Seq<&'static str>) -> Seq<Seq<char>> {
    s.map_values(|w: &'static str| w@)
}

impl Builder {
    /// The keywords an element's flags are written with, in order.
    pub fn prefix_keywords(&self, e: usize) -> (r: Vec<&'static str>)
        requires
            e < self@.n(),
        ensures
            words(r@) == keywords(self@, e),
    {
        proof {
            reveal(keywords);
        }
        let mut out: Vec<&'static str> = Vec::new();
        let ghost none = words(out@);
        assert(none =~= Seq::<Seq<char>>::empty());
        let variation: bool = match self.flag_of(e, "isVariation") {
            Some(b) => b,
            None => false,
        };
        if variation {
            out.push("variation");
            assert(words(out@) =~= seq!["variation"@]);
        } else {
            push_word(self, e, "isAbstract", "abstract", &mut out);
            assert(words(out@) =~= word_if(
                self@.elements[e as int].props,
                "isAbstract"@,
                "abstract"@,
            ));
        }
        push_word(self, e, "isIndividual", "individual", &mut out);
        push_word(self, e, "isConstant", "constant", &mut out);
        push_word(self, e, "isDerived", "derived", &mut out);
        push_word(self, e, "isEnd", "end", &mut out);
        out
    }

    /// The elements of a metaclass.
    pub fn elements_of_metaclass(&self, ty: &str) -> (r: Vec<usize>)
        ensures
            r@ == of_metaclass(self@, ty@, 0),
    {
        let mut out: Vec<usize> = Vec::new();
        let n: usize = self.element_count();
        let mut i: usize = 0;
        let ghost whole = of_metaclass(self@, ty@, 0);
        assert(out@ + whole =~= whole);
        while i < n
            invariant
                n == self@.n(),
                i <= n,
                out@ + of_metaclass(self@, ty@, i as int) == whole,
            decreases n - i,
        {
            if self.has_type(i, ty) {
                let ghost before = out@;
                out.push(i);
                assert(before + (seq![i] + of_metaclass(self@, ty@, i + 1)) =~= out@ + of_metaclass(
                    self@,
                    ty@,
                    i + 1,
                ));
            }
            i += 1;
        }
        assert(out@ + Seq::<usize>::empty() =~= out@);
        out
    }

    /// The visibility spelled on the membership that owns an element.
    pub fn spelled_member_visibility(&self, e: usize) -> (r: Option<String>)
        requires
            self@.wf(),
            e < self@.n(),
        ensures
            opt_text(r) == (match self@.elements[e as int].owning {
                Some(rel) => text_prop(self@.elements[rel as int], "visibility"@),
                None => None,
            }),
    {
        match self.owning_of(e) {
            Some(rel) => self.text_of(rel, "visibility"),
            None => None,
        }
    }

    /// The value an element is bound to, with the scope it is written in.
    pub fn value_expr(&self, e: usize) -> (r: Option<(usize, Rc<Expr>)>)
        requires
            e < self@.n(),
        ensures
            r == self@.elements[e as int].notes.value,
    {
        proof {
            reveal(Builder::view);
        }
        match &self.elements[e].notes.value {
            Some((s, x)) => Some((*s, x.clone())),
            None => None,
        }
    }

    /// The return parameter of a calculation.
    pub fn calc_return_param(&self, e: usize) -> (r: Option<usize>)
        requires
            self@.wf(),
            e < self@.n(),
        ensures
            r == self@.elements[e as int].notes.return_param,
            below(r, self@.n()),
    {
        proof {
            reveal(Builder::view);
            crate::state::lemma_elem_ok(self@, e as int);
        }
        self.elements[e].notes.return_param
    }

    /// The expression a calculation comes to, with its scope.
    pub fn calc_body(&self, e: usize) -> (r: Option<(usize, Rc<Expr>)>)
        requires
            self@.wf(),
            e < self@.n(),
        ensures
            r == calculation(self@, e),
    {
        proof {
            reveal(calculation);
            reveal(Builder::view);
        }
        let n: usize = self.result_exprs.len();
        let mut k: usize = 0;
        while k < n
            invariant
                n == self@.result_exprs.len(),
                n == self.result_exprs@.len(),
                self.result_exprs@ == self@.result_exprs,
                k <= n,
                first_body(self@, e, 0) == first_body(self@, e, k as int),
                calculation(self@, e) == (match first_body(self@, e, 0) {
                    Some(k) => Some((self@.result_exprs[k].1, self@.result_exprs[k].2)),
                    None => match self@.elements[e as int].notes.return_param {
                        Some(p) => self@.elements[p as int].notes.value,
                        None => None,
                    },
                }),
            decreases n - k,
        {
            if self.result_exprs[k].0 == e {
                return Some((self.result_exprs[k].1, self.result_exprs[k].2.clone()));
            }
            k += 1;
        }
        match self.calc_return_param(e) {
            Some(p) => self.value_expr(p),
            None => None,
        }
    }

    /// Where an element's specializations are written.
    fn spans_of(&self, e: usize, kind: Option<&str>) -> (r: Vec<Span>)
        ensures
            r@ == spec_spans(
                self@,
                e,
                match kind {
                    Some(k) => Some(k@),
                    None => None,
                },
                0,
            ),
    {
        proof {
            reveal(Builder::view);
        }
        let ghost kv = match kind {
            Some(k) => Some(k@),
            None => None,
        };
        let mut out: Vec<Span> = Vec::new();
        let n: usize = self.spec_targets.len();
        let mut k: usize = 0;
        let ghost whole = spec_spans(self@, e, kv, 0);
        assert(out@ + whole =~= whole);
        while k < n
            invariant
                n == self.spec_targets@.len(),
                self@.spec_targets == crate::state::spec_targets_view(self.spec_targets@),
                kv == (match kind {
                    Some(k) => Some(k@),
                    None => None,
                }),
                k <= n,
                out@ + spec_spans(self@, e, kv, k as int) == whole,
            decreases n - k,
        {
            let t = &self.spec_targets[k];
            assert(self@.spec_targets[k as int] == t@);
            let wanted: bool = match kind {
                Some(w) => str_eq(w, t.kind),
                None => true,
            };
            if t.elem == e && wanted {
                let ghost before = out@;
                let s: Span = t.qn.span;
                out.push(s);
                assert(before + (seq![s] + spec_spans(self@, e, kv, k + 1)) =~= out@ + spec_spans(
                    self@,
                    e,
                    kv,
                    k + 1,
                ));
            }
            k += 1;
        }
        assert(out@ + Seq::<Span>::empty() =~= out@);
        out
    }
}

/// Spans with the unit they stand in.
pub open spec fn in_unit(unit: usize, spans: Seq<Span>) -> Seq<(usize, Span)> {
    spans.map_values(|s: Span| (unit, s))
}

impl Linker {
    fn unit_spans(&self, e: usize, kind: Option<&str>) -> (r: Vec<(usize, Span)>)
        ensures
            r@ == in_unit(
                elem_unit(self@.unit_starts, e),
                spec_spans(
                    self@.r.g,
                    e,
                    match kind {
                        Some(k) => Some(k@),
                        None => None,
                    },
                    0,
                ),
            ),
    {
        let unit: usize = self.unit_of_elem(e);
        proof {
            reveal(Linker::view);
            reveal(Resolver::view);
        }
        let spans: Vec<Span> = self.res.graph.spans_of(e, kind);
        let ghost want = in_unit(unit, spans@);
        let mut out: Vec<(usize, Span)> = Vec::new();
        let n: usize = spans.len();
        let mut k: usize = 0;
        while k < n
            invariant
                n == spans@.len(),
                want == in_unit(unit, spans@),
                k <= n,
                out@ == want.take(k as int),
            decreases n - k,
        {
            out.push((unit, spans[k]));
            assert(want.take(k + 1) =~= want.take(k as int).push(want[k as int]));
            k += 1;
        }
        assert(want.take(n as int) =~= want);
        out
    }

    /// Where the typings of an element are written: the unit and the span of
    /// each name.
    pub fn typing_spans(&self, e: usize) -> (r: Vec<(usize, Span)>)
        ensures
            r@ == in_unit(
                elem_unit(self@.unit_starts, e),
                spec_spans(self@.r.g, e, Some("FeatureTyping"@), 0),
            ),
    {
        self.unit_spans(e, Some("FeatureTyping"))
    }

    /// Where the specializations of an element are written: the unit and the
    /// span of each name.
    pub fn specialization_spans(&self, e: usize) -> (r: Vec<(usize, Span)>)
        ensures
            r@ == in_unit(
                elem_unit(self@.unit_starts, e),
                spec_spans(self@.r.g, e, None, 0),
            ),
    {
        self.unit_spans(e, None)
    }

    /// The reference sites that name an element.
    pub fn references_to(&self, e: usize) -> (r: Vec<RefSite>)
        ensures
            sites_view(r@) == sites_to(self@.sites, e, 0),
    {
        proof {
            reveal(Linker::view);
        }
        let mut out: Vec<RefSite> = Vec::new();
        let n: usize = self.sites.len();
        let mut k: usize = 0;
        let ghost all = sites_view(self.sites@);
        let ghost whole = sites_to(all, e, 0);
        assert(sites_view(out@) + whole =~= whole);
        while k < n
            invariant
                n == self.sites@.len(),
                all == sites_view(self.sites@),
                k <= n,
                sites_view(out@) + sites_to(all, e, k as int) == whole,
            decreases n - k,
        {
            let s: RefSite = self.sites[k];
            assert(all[k as int] == s@);
            if s.target == e {
                let ghost before = sites_view(out@);
                out.push(s);
                assert(sites_view(out@) =~= before.push(s@));
                assert(before + (seq![s@] + sites_to(all, e, k + 1)) =~= sites_view(out@) + sites_to(
                    all,
                    e,
                    k + 1,
                ));
            }
            k += 1;
        }
        assert(sites_view(out@) + Seq::<SiteV>::empty() =~= sites_view(out@));
        out
    }

    /// How many references did not resolve.
    pub fn unresolved_count(&self) -> (r: usize)
        ensures
            r == self@.unresolved.len(),
    {
        proof {
            reveal(Linker::view);
        }
        self.unresolved.len()
    }

    /// The references that did not resolve, with their spellings.
    pub fn unresolved_references(&self) -> (r: Vec<UnresolvedReference>)
        ensures
            unresolved_views(r@) == unresolved_of(self@),
    {
        proof {
            reveal(Linker::view);
        }
        let mut out: Vec<UnresolvedReference> = Vec::new();
        let n: usize = self.unresolved.len();
        let mut k: usize = 0;
        let ghost want = unresolved_of(self@);
        while k < n
            invariant
                n == self.unresolved@.len(),
                self@.unresolved == mentions(self.unresolved@),
                want == unresolved_of(self@),
                k <= n,
                unresolved_views(out@) == want.take(k as int),
            decreases n - k,
        {
            let m: &Mention = &self.unresolved[k];
            assert(self@.unresolved[k as int] == m@);
            let x = UnresolvedReference {
                owner: m.elem,
                spelling: ref_string(&m.qn),
                unit: self.unit_of_elem(m.elem),
                span: m.qn.span,
            };
            let ghost before = unresolved_views(out@);
            let ghost xv = x@;
            out.push(x);
            assert(unresolved_views(out@) =~= before.push(xv));
            assert(want[k as int] == xv);
            assert(want.take(k + 1) =~= before.push(want[k as int]));
            k += 1;
        }
        assert(want.take(n as int) =~= want);
        out
    }

    /// Where an element's name is declared: the unit and the span.
    pub fn declaration_site(&self, e: usize) -> (r: Option<(usize, Span)>)
        requires
            e < self@.r.n(),
        ensures
            r == (match self@.r.g.elements[e as int].notes.decl_span {
                Some(s) => Some((elem_unit(self@.unit_starts, e), s)),
                None => None,
            }),
    {
        let unit: usize = self.unit_of_elem(e);
        proof {
            reveal(Linker::view);
            reveal(Resolver::view);
            reveal(Builder::view);
        }
        match self.res.graph.elements[e].notes.decl_span {
            Some(s) => Some((unit, s)),
            None => None,
        }
    }

    /// The source extent of the member that an element was written as.
    pub fn member_extent(&self, e: usize) -> (r: Option<(usize, Span)>)
        requires
            e < self@.r.n(),
        ensures
            r == (match self@.r.g.elements[e as int].notes.member_span {
                Some(s) => Some((elem_unit(self@.unit_starts, e), s)),
                None => None,
            }),
    {
        let unit: usize = self.unit_of_elem(e);
        proof {
            reveal(Linker::view);
            reveal(Resolver::view);
            reveal(Builder::view);
        }
        match self.res.graph.elements[e].notes.member_span {
            Some(s) => Some((unit, s)),
            None => None,
        }
    }
}

/// Probing a name leaves the imports' usage as it was, so an edit that is
/// refused cannot make an unused import look used.
pub proof fn law_probing_marks_no_import(b: RV, scope: usize, name: Seq<char>)
    ensures
        bound_in(b, scope, name).0.used == b.used,
{
    reveal(bound_in);
}

} // verus!
