//! Satisfaction claims, expanded to the constraints they imply.
use crate::ast::{no_span, QualifiedName, QnV, Span, TargetRef, TargetV};
use crate::constraints::{
    body_of, constraint_at, constraints_view, in_source_order, inherited_body, sort_constraints,
    ConstraintInfo, ConstraintV,
};
use crate::graph_get::{link_prop, opt_text};
use crate::linker::Linker;
use crate::linking::{last_with_id, LV};
use crate::naming_ids::{declared_name, is_membership};
use crate::props::{Link, LinkV};
use crate::refname::{escaped, push_escaped, push_text};
use crate::resolution;
use crate::rstate::{
    false_count, lemma_false_count_bound, lemma_false_count_update, lemma_false_positive, Resolver,
    RV,
};
use crate::state::{all_below, below, Builder, BV};
use vstd::prelude::*;

verus! {

/// Collecting: the model, the constraints and nodes already seen in a scope,
/// and the constraints found.
#[verifier::ext_equal]
pub struct SatV {
    pub l: LV,
    pub seen: Seq<(usize, usize)>,
    pub out: Seq<ConstraintV>,
}

/// What follows from the stack over explicit specializations, library
/// elements left out.
pub open spec fn closure_from(
    b: RV,
    stack: Seq<usize>,
    seen: Seq<bool>,
    out: Seq<usize>,
    fuel: nat,
) -> (RV, Seq<usize>)
    decreases fuel, stack.len(),
{
    if stack.len() == 0 {
        (b, out)
    } else {
        let t = stack.last();
        let rest = stack.drop_last();
        if t >= seen.len() || seen[t as int] || t < b.lib_boundary {
            closure_from(b, rest, seen, out, fuel)
        } else if fuel == 0 {
            (b, out)
        } else {
            let (c, list) = resolution::supers(b.g, b, b.open_count(), t);
            closure_from(c, rest + list, seen.update(t as int, true), out.push(t), (fuel - 1) as nat)
        }
    }
}

/// An element and the user's elements that it specializes.
#[verifier::opaque]
pub open spec fn explicit_closure(b: RV, start: usize) -> (RV, Seq<usize>) {
    closure_from(b, seq![start], Seq::new(b.n(), |i: int| false), Seq::empty(), b.n())
}

/// Whether an element is owned through a membership of `t`.
pub open spec fn is_member_of(g: BV, i: int, t: usize) -> bool {
    match g.elements[i].owning {
        Some(r) => g.elements[r as int].carrier == Some(t) && is_membership(
            g.elements[r as int].ty,
        ),
        None => false,
    }
}

/// The elements from `i` on that are owned through a membership of `t`.
pub open spec fn members_from(g: BV, t: usize, i: int) -> Seq<usize>
    decreases g.n() - i,
    when 0 <= i
{
    if i >= g.n() {
        Seq::empty()
    } else if is_member_of(g, i, t) {
        seq![i as usize] + members_from(g, t, i + 1)
    } else {
        members_from(g, t, i + 1)
    }
}

/// The elements from `i` on that are owned through a membership of `t` of
/// one metaclass.
pub open spec fn members_under(g: BV, t: usize, ty: Seq<char>, i: int) -> Seq<usize>
    decreases g.n() - i,
    when 0 <= i
{
    if i >= g.n() {
        Seq::empty()
    } else if match g.elements[i].owning {
        Some(r) => g.elements[r as int].carrier == Some(t) && g.elements[r as int].ty == ty,
        None => false,
    } {
        seq![i as usize] + members_under(g, t, ty, i + 1)
    } else {
        members_under(g, t, ty, i + 1)
    }
}

/// The first relationship of a metaclass that an element owns, from `k` on.
pub open spec fn first_owned_of(g: BV, e: usize, ty: Seq<char>, k: int) -> Option<usize>
    decreases g.elements[e as int].owned.len() - k,
    when 0 <= k
{
    if k >= g.elements[e as int].owned.len() {
        None
    } else if g.elements[g.elements[e as int].owned[k] as int].ty == ty {
        Some(g.elements[e as int].owned[k])
    } else {
        first_owned_of(g, e, ty, k + 1)
    }
}

/// What an element's first reference subsetting refers to.
#[verifier::opaque]
pub open spec fn referenced(g: BV, e: usize) -> Option<usize> {
    match first_owned_of(g, e, "ReferenceSubsetting"@, 0) {
        Some(r) => match link_prop(g.elements[r as int].props, "referencedFeature"@) {
            Some(LinkV::Id(id)) => last_with_id(g, id, g.n() as int),
            _ => None,
        },
        None => None,
    }
}

/// The body that decides a constraint: its own, or the nearest it takes over.
#[verifier::opaque]
pub open spec fn deciding_body(b: RV, m: usize) -> (RV, Option<(usize, int)>) {
    match body_of(b.g, m, false) {
        Some(k) => (b, Some((m, k))),
        None => inherited_body(b, m, false),
    }
}

pub open spec fn scope_or(g: BV, e: usize, scope: usize) -> usize {
    match g.elements[e as int].notes.scope {
        Some(s) => s,
        None => scope,
    }
}

pub open spec fn is_constraint_member(ty: Seq<char>) -> bool {
    ty == "ConstraintUsage"@ || ty == "AssertConstraintUsage"@
}

pub open spec fn is_requirement_member(ty: Seq<char>) -> bool {
    ty == "RequirementUsage"@ || ty == "SatisfyRequirementUsage"@
}

/// The constraints that a requirement implies, evaluated in a scope; at most
/// `fuel` requirements deep.
pub open spec fn collect(s: SatV, node: usize, scope: usize, fuel: nat) -> SatV
    decreases fuel, 2int, 0int, 0int,
{
    if fuel == 0 || s.seen.contains((node, scope)) {
        s
    } else {
        let (b, types) = explicit_closure(s.l.r, node);
        let s = SatV { l: LV { r: b, ..s.l }, seen: s.seen.push((node, scope)), out: s.out };
        collect_types(s, node, scope, types, 0, fuel)
    }
}

pub open spec fn collect_types(
    s: SatV,
    node: usize,
    scope: usize,
    types: Seq<usize>,
    k: int,
    fuel: nat,
) -> SatV
    decreases fuel, 1int, types.len() - k, 0int,
    when 0 <= k && fuel > 0
{
    if k >= types.len() {
        s
    } else {
        let s = collect_members(s, node, scope, types[k], members_from(s.l.r.g, types[k], 0), 0, fuel);
        collect_types(s, node, scope, types, k + 1, fuel)
    }
}

pub open spec fn collect_members(
    s: SatV,
    node: usize,
    scope: usize,
    t: usize,
    members: Seq<usize>,
    j: int,
    fuel: nat,
) -> SatV
    decreases fuel, 0int, members.len() - j, 1int,
    when 0 <= j && fuel > 0
{
    if j >= members.len() {
        s
    } else {
        let m = members[j];
        let ty = s.l.r.g.elements[m as int].ty;
        let s = if is_constraint_member(ty) {
            collect_constraint(
                s,
                m,
                if t == node {
                    scope_or(s.l.r.g, m, scope)
                } else {
                    scope
                },
                (fuel - 1) as nat,
            )
        } else if is_requirement_member(ty) {
            collect_requirement(s, m, scope_or(s.l.r.g, m, scope), (fuel - 1) as nat)
        } else {
            s
        };
        collect_members(s, node, scope, t, members, j + 1, fuel)
    }
}

/// A constraint member: decided by its body, or standing for a requirement
/// that it references.
pub open spec fn collect_constraint(s: SatV, m: usize, scope: usize, fuel: nat) -> SatV
    decreases fuel, 3int, 0int, 0int,
{
    if s.seen.contains((m, scope)) {
        s
    } else {
        let (b, hit) = deciding_body(s.l.r, m);
        let s = SatV { l: LV { r: b, ..s.l }, seen: s.seen.push((m, scope)), out: s.out };
        match hit {
            Some((def, k)) => if def < s.l.r.lib_boundary {
                s
            } else {
                SatV { out: s.out.push(constraint_at(s.l, m, k, def, true, scope)), ..s }
            },
            None => match referenced(s.l.r.g, m) {
                Some(t) => collect(s, t, scope, fuel),
                None => s,
            },
        }
    }
}

/// A nested requirement, and one it references.
pub open spec fn collect_requirement(s: SatV, m: usize, scope: usize, fuel: nat) -> SatV
    decreases fuel, 3int, 0int, 0int,
{
    let s = collect(s, m, scope, fuel);
    match referenced(s.l.r.g, m) {
        Some(t) => collect(s, t, scope, fuel),
        None => s,
    }
}

/// A satisfaction claim with what it implies.
pub struct SatisfactionInfo {
    /// The claim.
    pub satisfy: usize,
    /// The qualified name of the satisfied requirement.
    pub context: Option<String>,
    pub constraints: Vec<ConstraintInfo>,
    /// The requirement's subjects, which stand for `bound`.
    pub subjects: Vec<usize>,
    /// What the claim says satisfies the requirement.
    pub bound: usize,
}

pub struct SatisfactionV {
    pub satisfy: usize,
    pub context: Option<Seq<char>>,
    pub constraints: Seq<ConstraintV>,
    pub subjects: Seq<usize>,
    pub bound: usize,
}

impl SatisfactionInfo {
    pub open spec fn view(&self) -> SatisfactionV {
        SatisfactionV {
            satisfy: self.satisfy,
            context: opt_text(self.context),
            constraints: constraints_view(self.constraints@),
            subjects: self.subjects@,
            bound: self.bound,
        }
    }
}

pub open spec fn satisfactions_view(s: Seq<SatisfactionInfo>) -> Seq<SatisfactionV> {
    s.map_values(|x: SatisfactionInfo| x@)
}

/// The declared names from the root down to an element, escaped and joined;
/// none where one is missing.
pub open spec fn declared_path(g: BV, e: usize) -> Option<Seq<char>>
    decreases e,
{
    match g.elements[e as int].owning {
        None => Some(Seq::empty()),
        Some(rel) => match (declared_name(g.elements[e as int]), g.elements[rel as int].carrier) {
            (Some(name), Some(o)) => if o < e {
                match declared_path(g, o) {
                    Some(p) => Some(
                        if p.len() == 0 {
                            escaped(name)
                        } else {
                            p + "::"@ + escaped(name)
                        },
                    ),
                    None => None,
                }
            } else {
                None
            },
            _ => None,
        },
    }
}

/// The qualified name of an element by its declared names; a root has none.
#[verifier::opaque]
pub open spec fn declared_qualified_name(g: BV, e: usize) -> Option<Seq<char>> {
    if g.elements[e as int].owning is None {
        None
    } else {
        declared_path(g, e)
    }
}

pub open spec fn no_segments() -> QnV {
    QnV { is_global: false, segments: Seq::empty(), span: no_span() }
}

/// What a claim names as satisfying.
#[verifier::opaque]
pub open spec fn claimed(b: RV, scope: usize, by: TargetV) -> (RV, Option<usize>) {
    match by {
        TargetV::Name(qn) => resolution::resolve(b.g, b, b.open_count(), scope, qn, 0),
        TargetV::Chain(links) => if links.len() == 0 {
            (b, None)
        } else {
            resolution::resolve_chain(b.g, b, b.open_count(), scope, links, no_segments())
        },
    }
}

/// The subjects of the types from `k` on.
pub open spec fn subjects_from(g: BV, types: Seq<usize>, k: int) -> Seq<usize>
    decreases types.len() - k,
    when 0 <= k
{
    if k >= types.len() {
        Seq::empty()
    } else {
        members_under(g, types[k], "SubjectMembership"@, 0) + subjects_from(g, types, k + 1)
    }
}

/// A claim on a requirement, with what satisfies it.
#[verifier::opaque]
pub open spec fn expanded(
    l: LV,
    sat: usize,
    scope: usize,
    req: usize,
    bound: usize,
) -> (LV, SatisfactionV) {
    let (b, types) = explicit_closure(l.r, req);
    let l = LV { r: b, ..l };
    let s = collect(
        SatV { l, seen: Seq::empty(), out: Seq::empty() },
        req,
        scope_or(l.r.g, req, scope),
        9,
    );
    (s.l, SatisfactionV {
        satisfy: sat,
        context: declared_qualified_name(l.r.g, req),
        constraints: in_source_order(s.out, s.out.len() as int),
        subjects: subjects_from(l.r.g, types, 0),
        bound,
    })
}

/// The claims from `k` on that name a requirement and what satisfies it.
pub open spec fn claims_from(l: LV, g: BV, k: int) -> (LV, Seq<SatisfactionV>)
    decreases g.satisfy_by.len() - k,
    when 0 <= k
{
    if k >= g.satisfy_by.len() {
        (l, Seq::empty())
    } else {
        let c = g.satisfy_by[k];
        if c.elem < l.r.lib_boundary {
            claims_from(l, g, k + 1)
        } else {
            match referenced(g, c.elem) {
                Some(req) => {
                    let (b, hit) = claimed(l.r, c.scope, c.by);
                    let l = LV { r: b, ..l };
                    match hit {
                        Some(bound) => {
                            let (l, x) = expanded(l, c.elem, c.scope, req, bound);
                            let (l, rest) = claims_from(l, g, k + 1);
                            (l, seq![x] + rest)
                        },
                        None => claims_from(l, g, k + 1),
                    }
                },
                None => claims_from(l, g, k + 1),
            }
        }
    }
}

impl Builder {
    /// The elements owned through a membership of `t`, in creation order.
    pub fn members_of(&self, t: usize) -> (r: Vec<usize>)
        requires
            self@.wf(),
        ensures
            r@ == members_from(self@, t, 0),
            all_below(r@, self@.n()),
    {
        let mut out: Vec<usize> = Vec::new();
        let n: usize = self.element_count();
        let mut i: usize = 0;
        let ghost whole = members_from(self@, t, 0);
        assert(out@ + whole =~= whole);
        while i < n
            invariant
                self@.wf(),
                n == self@.n(),
                i <= n,
                all_below(out@, self@.n()),
                out@ + members_from(self@, t, i as int) == whole,
            decreases n - i,
        {
            let ghost before = out@;
            if let Some(r) = self.owning_of(i) {
                if let Some(c) = self.carrier_of(r) {
                    if c == t && self.membership(r) {
                        out.push(i);
                        assert(before + (seq![i] + members_from(self@, t, i + 1)) =~= out@ + members_from(
                            self@,
                            t,
                            i + 1,
                        ));
                    }
                }
            }
            i += 1;
        }
        assert(out@ + Seq::<usize>::empty() =~= out@);
        out
    }

    /// The elements owned through a membership of `t` of one metaclass.
    pub fn members_under(&self, t: usize, ty: &str) -> (r: Vec<usize>)
        requires
            self@.wf(),
        ensures
            r@ == members_under(self@, t, ty@, 0),
            all_below(r@, self@.n()),
    {
        let mut out: Vec<usize> = Vec::new();
        let n: usize = self.element_count();
        let mut i: usize = 0;
        let ghost whole = members_under(self@, t, ty@, 0);
        assert(out@ + whole =~= whole);
        while i < n
            invariant
                self@.wf(),
                n == self@.n(),
                i <= n,
                all_below(out@, self@.n()),
                out@ + members_under(self@, t, ty@, i as int) == whole,
            decreases n - i,
        {
            let ghost before = out@;
            if let Some(r) = self.owning_of(i) {
                if let Some(c) = self.carrier_of(r) {
                    if c == t && self.has_type(r, ty) {
                        out.push(i);
                        assert(before + (seq![i] + members_under(self@, t, ty@, i + 1)) =~= out@
                            + members_under(self@, t, ty@, i + 1));
                    }
                }
            }
            i += 1;
        }
        assert(out@ + Seq::<usize>::empty() =~= out@);
        out
    }

    fn first_owned_of(&self, e: usize, ty: &str) -> (r: Option<usize>)
        requires
            self@.wf(),
            e < self@.n(),
        ensures
            r == first_owned_of(self@, e, ty@, 0),
            below(r, self@.n()),
    {
        let n: usize = self.owned_len(e);
        let mut k: usize = 0;
        while k < n
            invariant
                self@.wf(),
                e < self@.n(),
                n == self@.elements[e as int].owned.len(),
                k <= n,
                first_owned_of(self@, e, ty@, 0) == first_owned_of(self@, e, ty@, k as int),
            decreases n - k,
        {
            let r: usize = self.owned_at(e, k);
            if self.has_type(r, ty) {
                return Some(r);
            }
            k += 1;
        }
        None
    }

    /// The last element with an id.
    pub fn element_with_id(&self, id: u128) -> (r: Option<usize>)
        ensures
            r == last_with_id(self@, id, self@.n() as int),
            below(r, self@.n()),
    {
        let n: usize = self.element_count();
        let mut k: usize = n;
        while k > 0
            invariant
                n == self@.n(),
                k <= n,
                last_with_id(self@, id, n as int) == last_with_id(self@, id, k as int),
            decreases k,
        {
            k -= 1;
            if self.id_of(k) == id {
                return Some(k);
            }
        }
        None
    }

    /// What an element's first reference subsetting refers to.
    pub fn referenced(&self, e: usize) -> (r: Option<usize>)
        requires
            self@.wf(),
            e < self@.n(),
        ensures
            r == referenced(self@, e),
            below(r, self@.n()),
    {
        proof {
            reveal(referenced);
        }
        match self.first_owned_of(e, "ReferenceSubsetting") {
            Some(r) => match self.link_of(r, "referencedFeature") {
                Some(Link::Id(id)) => self.element_with_id(id),
                _ => None,
            },
            None => None,
        }
    }

    fn declared_path(&self, e: usize) -> (r: Option<String>)
        requires
            self@.wf(),
            e < self@.n(),
        ensures
            opt_text(r) == declared_path(self@, e),
        decreases e,
    {
        match self.owning_of(e) {
            None => {
                let s: String = String::new();
                assert(s@ =~= Seq::<char>::empty());
                Some(s)
            },
            Some(rel) => match (self.effective_name(e), self.carrier_of(rel)) {
                (Some(name), Some(o)) => match self.declared_path(o) {
                    Some(p) => {
                        let mut s: String = p;
                        let ghost before = s@;
                        if s.as_str().is_empty() {
                            push_escaped(&mut s, name.as_str());
                            assert(s@ =~= escaped(name@));
                        } else {
                            push_text(&mut s, "::");
                            push_escaped(&mut s, name.as_str());
                            assert(s@ =~= before + "::"@ + escaped(name@));
                        }
                        Some(s)
                    },
                    None => None,
                },
                _ => None,
            },
        }
    }

    /// The qualified name of an element by its declared names.
    pub fn element_qualified_name(&self, e: usize) -> (r: Option<String>)
        requires
            self@.wf(),
            e < self@.n(),
        ensures
            opt_text(r) == declared_qualified_name(self@, e),
    {
        proof {
            reveal(declared_qualified_name);
        }
        if self.owning_of(e).is_none() {
            return None;
        }
        self.declared_path(e)
    }
}

impl Resolver {
    /// An element and the user's elements that it specializes.
    pub fn explicit_closure(&mut self, start: usize) -> (r: Vec<usize>)
        requires
            old(self)@.wf(),
            start < old(self)@.n(),
        ensures
            (final(self)@, r@) == explicit_closure(old(self)@, start),
            final(self)@.wf(),
            final(self)@.g == old(self)@.g,
            final(self)@.lib_boundary == old(self)@.lib_boundary,
            all_below(r@, final(self)@.n()),
    {
        proof {
            reveal(explicit_closure);
        }
        let n: usize = self.elem_count();
        let boundary: usize = self.read_lib_boundary();
        let mut seen: Vec<bool> = Vec::new();
        while seen.len() < n
            invariant
                seen@.len() <= n,
                forall|i: int| 0 <= i < seen@.len() ==> !seen@[i],
            decreases n - seen@.len(),
        {
            seen.push(false);
        }
        assert(seen@ =~= Seq::new(n as nat, |i: int| false));
        let mut stack: Vec<usize> = Vec::new();
        stack.push(start);
        assert(stack@ =~= seq![start]);
        let mut out: Vec<usize> = Vec::new();
        assert(out@ =~= Seq::<usize>::empty());
        let ghost mut fuel: nat = n as nat;
        proof {
            lemma_false_count_bound(seen@);
        }
        let ghost whole = explicit_closure(old(self)@, start);
        while stack.len() > 0
            invariant
                self@.wf(),
                self@.g == old(self)@.g,
                self@.lib_boundary == old(self)@.lib_boundary,
                boundary == self@.lib_boundary,
                n == self@.n(),
                all_below(stack@, self@.n()),
                all_below(out@, self@.n()),
                seen@.len() == n,
                false_count(seen@) <= fuel,
                whole == closure_from(self@, stack@, seen@, out@, fuel),
            decreases fuel, stack@.len(),
        {
            let ghost st = stack@;
            if let Some(t) = stack.pop() {
                assert(stack@ =~= st.drop_last());
                assert(t == st.last());
                if !seen[t] && t >= boundary {
                    proof {
                        lemma_false_positive(seen@, t as int);
                        lemma_false_count_update(seen@, t as int, true);
                        fuel = (fuel - 1) as nat;
                    }
                    let ghost m = self@.open_count();
                    let mut list: Vec<usize> = self.supers(Ghost(m), t);
                    let ghost lv = list@;
                    let ghost rest = stack@;
                    stack.append(&mut list);
                    assert(stack@ =~= rest + lv);
                    seen.set(t, true);
                    out.push(t);
                }
            }
        }
        out
    }

    fn deciding_body(&mut self, m: usize) -> (r: Option<(usize, usize)>)
        requires
            old(self)@.wf(),
            m < old(self)@.n(),
        ensures
            ({
                let (b, hit) = deciding_body(old(self)@, m);
                &&& final(self)@ == b
                &&& hit == (match r {
                    Some((t, k)) => Some((t, k as int)),
                    None => None,
                })
            }),
            final(self)@.wf(),
            final(self)@.g == old(self)@.g,
            final(self)@.lib_boundary == old(self)@.lib_boundary,
            match r {
                Some((t, k)) => t < final(self)@.n() && k < final(self)@.g.result_exprs.len(),
                None => true,
            },
    {
        proof {
            reveal(deciding_body);
        }
        match self.body_of(m, false) {
            Some(k) => Some((m, k)),
            None => self.inherited_body(m, false),
        }
    }

    fn claimed(&mut self, scope: usize, by: &TargetRef) -> (r: Option<usize>)
        requires
            old(self)@.wf(),
            scope < old(self)@.ns(),
        ensures
            (final(self)@, r) == claimed(old(self)@, scope, by@),
            final(self)@.wf(),
            final(self)@.g == old(self)@.g,
            final(self)@.lib_boundary == old(self)@.lib_boundary,
            below(r, final(self)@.n()),
    {
        proof {
            reveal(claimed);
        }
        let ghost m = self@.open_count();
        match by {
            TargetRef::Name(qn) => self.resolve(Ghost(m), scope, qn, 0),
            TargetRef::Chain(links) => {
                if links.len() == 0 {
                    return None;
                }
                let none = QualifiedName {
                    is_global: false,
                    segments: Vec::new(),
                    span: Span { start: 0, end: 0 },
                };
                assert(none@.segments =~= no_segments().segments);
                self.resolve_chain(Ghost(m), scope, links, &none)
            },
        }
    }
}

fn has_pair(s: &Vec<(usize, usize)>, a: usize, b: usize) -> (r: bool)
    ensures
        r == s@.contains((a, b)),
{
    let n: usize = s.len();
    let mut k: usize = 0;
    while k < n
        invariant
            n == s@.len(),
            k <= n,
            forall|j: int| 0 <= j < k ==> s@[j] != (a, b),
        decreases n - k,
    {
        let (x, y) = s[k];
        if x == a && y == b {
            assert(s@[k as int] == (a, b));
            return true;
        }
        k += 1;
    }
    false
}

/// Collecting, as it goes on.
struct Collected {
    seen: Vec<(usize, usize)>,
    out: Vec<ConstraintInfo>,
}

spec fn sat_view(l: LV, c: Collected) -> SatV {
    SatV { l, seen: c.seen@, out: constraints_view(c.out@) }
}

/// What collecting keeps of the model.
spec fn kept(a: LV, b: LV) -> bool {
    &&& b.wf()
    &&& b.r.g == a.r.g
    &&& b.r.lib_boundary == a.r.lib_boundary
}

fn is_constraint_type(ty: &str) -> (r: bool)
    ensures
        r == is_constraint_member(ty@),
{
    crate::text::str_eq(ty, "ConstraintUsage") || crate::text::str_eq(ty, "AssertConstraintUsage")
}

fn is_requirement_type(ty: &str) -> (r: bool)
    ensures
        r == is_requirement_member(ty@),
{
    crate::text::str_eq(ty, "RequirementUsage") || crate::text::str_eq(ty, "SatisfyRequirementUsage")
}

impl Linker {
    fn closure_of(&mut self, node: usize) -> (r: Vec<usize>)
        requires
            old(self)@.wf(),
            node < old(self)@.r.n(),
        ensures
            ({
                let (b, types) = explicit_closure(old(self)@.r, node);
                final(self)@ == (LV { r: b, ..old(self)@ }) && r@ == types
            }),
            kept(old(self)@, final(self)@),
            all_below(r@, final(self)@.r.n()),
    {
        proof {
            reveal(Linker::view);
        }
        self.res.explicit_closure(node)
    }

    fn members(&self, t: usize) -> (r: Vec<usize>)
        requires
            self@.wf(),
        ensures
            r@ == members_from(self@.r.g, t, 0),
            all_below(r@, self@.r.n()),
    {
        proof {
            reveal(Linker::view);
            reveal(Resolver::view);
            reveal(RV::wf);
        }
        self.res.graph.members_of(t)
    }

    fn reference_of(&self, m: usize) -> (r: Option<usize>)
        requires
            self@.wf(),
            m < self@.r.n(),
        ensures
            r == referenced(self@.r.g, m),
            below(r, self@.r.n()),
    {
        proof {
            reveal(Linker::view);
            reveal(Resolver::view);
            reveal(RV::wf);
        }
        self.res.graph.referenced(m)
    }

    fn scope_or(&self, e: usize, scope: usize) -> (r: usize)
        requires
            self@.wf(),
            e < self@.r.n(),
        ensures
            r == scope_or(self@.r.g, e, scope),
    {
        match self.scope_of(e) {
            Some(s) => s,
            None => scope,
        }
    }

    fn body_deciding(&mut self, m: usize) -> (r: Option<(usize, usize)>)
        requires
            old(self)@.wf(),
            m < old(self)@.r.n(),
        ensures
            ({
                let (b, hit) = deciding_body(old(self)@.r, m);
                &&& final(self)@ == (LV { r: b, ..old(self)@ })
                &&& hit == (match r {
                    Some((t, k)) => Some((t, k as int)),
                    None => None,
                })
            }),
            kept(old(self)@, final(self)@),
            match r {
                Some((t, k)) => t < final(self)@.r.n() && k < final(self)@.r.g.result_exprs.len(),
                None => true,
            },
    {
        proof {
            reveal(Linker::view);
        }
        self.res.deciding_body(m)
    }

    fn collect(&mut self, c: &mut Collected, node: usize, scope: usize, fuel: u8)
        requires
            old(self)@.wf(),
            node < old(self)@.r.n(),
        ensures
            sat_view(final(self)@, *final(c)) == collect(
                sat_view(old(self)@, *old(c)),
                node,
                scope,
                fuel as nat,
            ),
            kept(old(self)@, final(self)@),
        decreases fuel, 2int,
    {
        if fuel == 0 || has_pair(&c.seen, node, scope) {
            return;
        }
        let types: Vec<usize> = self.closure_of(node);
        c.seen.push((node, scope));
        let ghost start = sat_view(self@, *c);
        let n: usize = types.len();
        let mut k: usize = 0;
        while k < n
            invariant
                self@.wf(),
                kept(old(self)@, self@),
                fuel > 0,
                n == types@.len(),
                k <= n,
                all_below(types@, self@.r.n()),
                collect_types(sat_view(self@, *c), node, scope, types@, k as int, fuel as nat)
                    == collect_types(start, node, scope, types@, 0, fuel as nat),
            decreases n - k,
        {
            let members: Vec<usize> = self.members(types[k]);
            self.collect_members(c, node, scope, types[k], &members, fuel);
            k += 1;
        }
    }

    fn collect_members(
        &mut self,
        c: &mut Collected,
        node: usize,
        scope: usize,
        t: usize,
        members: &Vec<usize>,
        fuel: u8,
    )
        requires
            old(self)@.wf(),
            all_below(members@, old(self)@.r.n()),
            fuel > 0,
        ensures
            sat_view(final(self)@, *final(c)) == collect_members(
                sat_view(old(self)@, *old(c)),
                node,
                scope,
                t,
                members@,
                0,
                fuel as nat,
            ),
            kept(old(self)@, final(self)@),
        decreases fuel, 1int,
    {
        let n: usize = members.len();
        let mut j: usize = 0;
        while j < n
            invariant
                self@.wf(),
                kept(old(self)@, self@),
                fuel > 0,
                n == members@.len(),
                j <= n,
                all_below(members@, self@.r.n()),
                collect_members(
                    sat_view(self@, *c),
                    node,
                    scope,
                    t,
                    members@,
                    j as int,
                    fuel as nat,
                ) == collect_members(
                    sat_view(old(self)@, *old(c)),
                    node,
                    scope,
                    t,
                    members@,
                    0,
                    fuel as nat,
                ),
            decreases n - j,
        {
            let m: usize = members[j];
            let ty: &'static str = self.type_of(m);
            if is_constraint_type(ty) {
                let here: usize = if t == node {
                    self.scope_or(m, scope)
                } else {
                    scope
                };
                self.collect_constraint(c, m, here, fuel - 1);
            } else if is_requirement_type(ty) {
                let here: usize = self.scope_or(m, scope);
                self.collect_requirement(c, m, here, fuel - 1);
            }
            j += 1;
        }
    }

    fn collect_constraint(&mut self, c: &mut Collected, m: usize, scope: usize, fuel: u8)
        requires
            old(self)@.wf(),
            m < old(self)@.r.n(),
        ensures
            sat_view(final(self)@, *final(c)) == collect_constraint(
                sat_view(old(self)@, *old(c)),
                m,
                scope,
                fuel as nat,
            ),
            kept(old(self)@, final(self)@),
        decreases fuel, 3int,
    {
        if has_pair(&c.seen, m, scope) {
            return;
        }
        let hit = self.body_deciding(m);
        c.seen.push((m, scope));
        match hit {
            Some((def, k)) => {
                if def >= self.boundary() {
                    let x: ConstraintInfo = self.constraint_at(m, k, def, true, scope);
                    let ghost before = constraints_view(c.out@);
                    let ghost xv = x@;
                    c.out.push(x);
                    assert(constraints_view(c.out@) =~= before.push(xv));
                }
            },
            None => {
                if let Some(t) = self.reference_of(m) {
                    self.collect(c, t, scope, fuel);
                }
            },
        }
    }

    fn collect_requirement(&mut self, c: &mut Collected, m: usize, scope: usize, fuel: u8)
        requires
            old(self)@.wf(),
            m < old(self)@.r.n(),
        ensures
            sat_view(final(self)@, *final(c)) == collect_requirement(
                sat_view(old(self)@, *old(c)),
                m,
                scope,
                fuel as nat,
            ),
            kept(old(self)@, final(self)@),
        decreases fuel, 3int,
    {
        self.collect(c, m, scope, fuel);
        if let Some(t) = self.reference_of(m) {
            self.collect(c, t, scope, fuel);
        }
    }

    fn subjects_of(&self, types: &Vec<usize>) -> (r: Vec<usize>)
        requires
            self@.wf(),
        ensures
            r@ == subjects_from(self@.r.g, types@, 0),
    {
        proof {
            reveal(Linker::view);
            reveal(Resolver::view);
            reveal(RV::wf);
        }
        let g: &Builder = &self.res.graph;
        let mut out: Vec<usize> = Vec::new();
        let n: usize = types.len();
        let mut k: usize = 0;
        let ghost whole = subjects_from(g@, types@, 0);
        assert(out@ + whole =~= whole);
        while k < n
            invariant
                g@.wf(),
                n == types@.len(),
                k <= n,
                out@ + subjects_from(g@, types@, k as int) == whole,
            decreases n - k,
        {
            let mut more: Vec<usize> = g.members_under(types[k], "SubjectMembership");
            let ghost before = out@;
            let ghost mv = more@;
            out.append(&mut more);
            assert(out@ =~= before + mv);
            assert(before + (mv + subjects_from(g@, types@, k + 1)) =~= out@ + subjects_from(
                g@,
                types@,
                k + 1,
            ));
            k += 1;
        }
        assert(out@ + Seq::<usize>::empty() =~= out@);
        out
    }

    fn context_of(&self, e: usize) -> (r: Option<String>)
        requires
            self@.wf(),
            e < self@.r.n(),
        ensures
            opt_text(r) == declared_qualified_name(self@.r.g, e),
    {
        proof {
            reveal(Linker::view);
            reveal(Resolver::view);
            reveal(RV::wf);
        }
        self.res.graph.element_qualified_name(e)
    }

    fn expanded(
        &mut self,
        sat: usize,
        scope: usize,
        req: usize,
        bound: usize,
    ) -> (r: SatisfactionInfo)
        requires
            old(self)@.wf(),
            req < old(self)@.r.n(),
        ensures
            (final(self)@, r@) == expanded(old(self)@, sat, scope, req, bound),
            kept(old(self)@, final(self)@),
    {
        proof {
            reveal(expanded);
        }
        let types: Vec<usize> = self.closure_of(req);
        let subjects: Vec<usize> = self.subjects_of(&types);
        let context: Option<String> = self.context_of(req);
        let here: usize = self.scope_or(req, scope);
        let mut c = Collected { seen: Vec::new(), out: Vec::new() };
        assert(sat_view(self@, c) =~= (SatV { l: self@, seen: Seq::empty(), out: Seq::empty() }));
        self.collect(&mut c, req, here, 9);
        assert(constraints_view(c.out@).len() == c.out@.len());
        let constraints: Vec<ConstraintInfo> = sort_constraints(c.out);
        SatisfactionInfo { satisfy: sat, context, constraints, subjects, bound }
    }

    fn claim_count(&self) -> (r: usize)
        ensures
            r == self@.r.g.satisfy_by.len(),
    {
        proof {
            reveal(Linker::view);
            reveal(Resolver::view);
            reveal(Builder::view);
        }
        self.res.graph.satisfy_by.len()
    }

    fn claim_at(&self, k: usize) -> (r: (usize, usize, TargetRef))
        requires
            self@.wf(),
            k < self@.r.g.satisfy_by.len(),
        ensures
            r.0 == self@.r.g.satisfy_by[k as int].elem,
            r.1 == self@.r.g.satisfy_by[k as int].scope,
            r.2@ == self@.r.g.satisfy_by[k as int].by,
            r.0 < self@.r.n(),
            r.1 < self@.r.ns(),
    {
        proof {
            reveal(Linker::view);
            reveal(Resolver::view);
            reveal(Builder::view);
            reveal(RV::wf);
            reveal(BV::wf);
            assert(self@.r.g.satisfy_by[k as int].elem < self@.r.n());
        }
        let c = &self.res.graph.satisfy_by[k];
        (c.elem, c.scope, c.by.duplicate())
    }

    fn claimed(&mut self, scope: usize, by: &TargetRef) -> (r: Option<usize>)
        requires
            old(self)@.wf(),
            scope < old(self)@.r.ns(),
        ensures
            ({
                let (b, hit) = claimed(old(self)@.r, scope, by@);
                final(self)@ == (LV { r: b, ..old(self)@ }) && r == hit
            }),
            kept(old(self)@, final(self)@),
    {
        proof {
            reveal(Linker::view);
        }
        self.res.claimed(scope, by)
    }

    /// The satisfaction claims of the user's units: for each that names a
    /// requirement and what satisfies it, every constraint reachable through
    /// the requirement's composition.
    pub fn satisfactions(&mut self) -> (r: Vec<SatisfactionInfo>)
        requires
            old(self)@.wf(),
        ensures
            (final(self)@, satisfactions_view(r@)) == claims_from(old(self)@, old(self)@.r.g, 0),
            final(self)@.wf(),
            final(self)@.r.g == old(self)@.r.g,
    {
        let ghost g = self@.r.g;
        let mut out: Vec<SatisfactionInfo> = Vec::new();
        let n: usize = self.claim_count();
        let boundary: usize = self.boundary();
        let mut k: usize = 0;
        let ghost whole = claims_from(self@, g, 0);
        assert(satisfactions_view(out@) + whole.1 =~= whole.1);
        while k < n
            invariant
                self@.wf(),
                self@.r.g == g,
                boundary == self@.r.lib_boundary,
                n == g.satisfy_by.len(),
                k <= n,
                ({
                    let rest = claims_from(self@, g, k as int);
                    whole == (rest.0, satisfactions_view(out@) + rest.1)
                }),
            decreases n - k,
        {
            let (sat, scope, by) = self.claim_at(k);
            if sat >= boundary {
                if let Some(req) = self.reference_of(sat) {
                    if let Some(bound) = self.claimed(scope, &by) {
                        let ghost before = satisfactions_view(out@);
                        let x: SatisfactionInfo = self.expanded(sat, scope, req, bound);
                        let ghost xv = x@;
                        let ghost rest = claims_from(self@, g, k + 1);
                        out.push(x);
                        assert(satisfactions_view(out@) =~= before.push(xv));
                        assert(before + (seq![xv] + rest.1) =~= satisfactions_view(out@) + rest.1);
                    }
                }
            }
            k += 1;
        }
        assert(satisfactions_view(out@) + Seq::<SatisfactionV>::empty() =~= satisfactions_view(out@));
        out
    }
}

} // verus!
