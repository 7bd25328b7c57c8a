//! The constraints of a model: those with a body of their own, and asserted
//! ones that take the nearest body they specialize.
use crate::ast::{Expr, Span};
use crate::derive_walks::{marked, unseen};
use crate::graph_get::{flag_prop, opt_text};
use crate::linker::Linker;
use crate::linking::{elem_unit, LV};
use crate::naming_ids::text_prop;
use crate::resolution;
use crate::rstate::{Resolver, RV};
use crate::state::{all_below, below, Builder, BV};
use crate::text::str_eq;
use std::rc::Rc;
use vstd::prelude::*;

verus! {

/// A constraint with the expression that decides it.
pub struct ConstraintInfo {
    /// The constraint, requirement or invariant.
    pub element: usize,
    /// The unit the expression is written in.
    pub unit: usize,
    /// Where the expression stands.
    pub span: Span,
    pub name: Option<String>,
    pub element_type: &'static str,
    /// Whether it is asserted to hold.
    pub asserted: bool,
    /// Whether the expression is expected to be false.
    pub negated: bool,
    /// The scope its references resolve from.
    pub scope: usize,
    pub expr: Rc<Expr>,
}

pub struct ConstraintV {
    pub element: usize,
    pub unit: usize,
    pub span: Span,
    pub name: Option<Seq<char>>,
    pub element_type: Seq<char>,
    pub asserted: bool,
    pub negated: bool,
    pub scope: usize,
    pub expr: Rc<Expr>,
}

impl ConstraintInfo {
    pub open spec fn view(&self) -> ConstraintV {
        ConstraintV {
            element: self.element,
            unit: self.unit,
            span: self.span,
            name: opt_text(self.name),
            element_type: self.element_type@,
            asserted: self.asserted,
            negated: self.negated,
            scope: self.scope,
            expr: self.expr,
        }
    }
}

pub open spec fn constraints_view(s: Seq<ConstraintInfo>) -> Seq<ConstraintV> {
    s.map_values(|c: ConstraintInfo| c@)
}

pub open spec fn asserts(ty: Seq<char>) -> bool {
    ty == "AssertConstraintUsage"@ || ty == "SatisfyRequirementUsage"@ || ty == "Invariant"@
}

pub open spec fn constrains(ty: Seq<char>) -> bool {
    ||| asserts(ty)
    ||| ty == "ConstraintUsage"@
    ||| ty == "ConstraintDefinition"@
    ||| ty == "RequirementUsage"@
    ||| ty == "RequirementDefinition"@
}

/// The last of the first `k` result expressions of an element.
pub open spec fn last_body(g: BV, t: usize, k: int) -> Option<int>
    decreases k,
{
    if k <= 0 {
        None
    } else if g.result_exprs[k - 1].0 == t {
        Some(k - 1)
    } else {
        last_body(g, t, k - 1)
    }
}

/// The first result expression of an element from `k` on.
pub open spec fn first_body(g: BV, t: usize, k: int) -> Option<int>
    decreases g.result_exprs.len() - k,
    when 0 <= k
{
    if k >= g.result_exprs.len() {
        None
    } else if g.result_exprs[k].0 == t {
        Some(k)
    } else {
        first_body(g, t, k + 1)
    }
}

/// The result expression that stands for an element.
pub open spec fn body_of(g: BV, t: usize, last: bool) -> Option<int> {
    if last {
        last_body(g, t, g.result_exprs.len() as int)
    } else {
        first_body(g, t, 0)
    }
}

/// The nearest body over what the queue specializes, nearest first, looking
/// at no more than `fuel` elements: the element that has it.
pub open spec fn nearest_from(
    b: RV,
    queue: Seq<usize>,
    seen: Seq<bool>,
    last: bool,
    fuel: nat,
) -> (RV, Option<(usize, int)>)
    decreases fuel,
{
    if queue.len() == 0 || fuel == 0 {
        (b, None)
    } else {
        let t = queue[0];
        match body_of(b.g, t, last) {
            Some(k) => (b, Some((t, k))),
            None => {
                let (c, list) = resolution::supers(b.g, b, b.open_count(), t);
                nearest_from(
                    c,
                    queue.drop_first() + unseen(list, seen, 0),
                    marked(list, seen, 0),
                    last,
                    (fuel - 1) as nat,
                )
            },
        }
    }
}

/// The nearest body that an element takes over from what it specializes.
#[verifier::opaque]
pub open spec fn inherited_body(b: RV, a: usize, last: bool) -> (RV, Option<(usize, int)>) {
    let (c, list) = resolution::supers(b.g, b, b.open_count(), a);
    nearest_from(c, list, marked(list, Seq::new(c.n(), |i: int| false), 0), last, 256)
}

/// A constraint with the body at `k`; `unit_of` is the element whose unit it
/// is reported for.
pub open spec fn constraint_at(
    l: LV,
    e: usize,
    body: int,
    unit_of: usize,
    asserted: bool,
    scope: usize,
) -> ConstraintV {
    let x = l.r.g.elements[e as int];
    let expr = l.r.g.result_exprs[body].2;
    ConstraintV {
        element: e,
        unit: elem_unit(l.unit_starts, unit_of),
        span: expr.span,
        name: text_prop(x, "declaredName"@),
        element_type: x.ty,
        asserted,
        negated: flag_prop(x.props, "isNegated"@) == Some(true),
        scope,
        expr,
    }
}

/// The constraints with a body of their own, from the `k`th expression on.
pub open spec fn own_constraints(l: LV, k: int) -> Seq<ConstraintV>
    decreases l.r.g.result_exprs.len() - k,
    when 0 <= k
{
    if k >= l.r.g.result_exprs.len() {
        Seq::empty()
    } else {
        let (owner, scope, _) = l.r.g.result_exprs[k];
        let ty = l.r.g.elements[owner as int].ty;
        if constrains(ty) {
            seq![constraint_at(l, owner, k, owner, asserts(ty), scope)] + own_constraints(l, k + 1)
        } else {
            own_constraints(l, k + 1)
        }
    }
}

/// Whether an element asserts a constraint that it has no body for, and has
/// a scope to evaluate one in.
pub open spec fn takes_body(g: BV, e: usize) -> bool {
    &&& asserts(g.elements[e as int].ty)
    &&& last_body(g, e, g.result_exprs.len() as int) is None
    &&& g.elements[e as int].notes.scope is Some
}

/// The asserted constraints from element `e` on that take over a body.
pub open spec fn taken_constraints(l: LV, e: int, n: nat) -> (LV, Seq<ConstraintV>)
    decreases n - e,
{
    if e < 0 || e >= n {
        (l, Seq::empty())
    } else if takes_body(l.r.g, e as usize) {
        let (c, hit) = inherited_body(l.r, e as usize, true);
        let m = LV { r: c, ..l };
        let (m2, rest) = taken_constraints(m, e + 1, n);
        (m2, match hit {
            Some((t, k)) => seq![
                constraint_at(
                    l,
                    e as usize,
                    k,
                    t,
                    true,
                    l.r.g.elements[e].notes.scope->0,
                ),
            ] + rest,
            None => rest,
        })
    } else {
        taken_constraints(l, e + 1, n)
    }
}

/// The order of constraints: by unit, then by where they stand.
pub open spec fn stands_before(a: ConstraintV, b: ConstraintV) -> bool {
    a.unit < b.unit || (a.unit == b.unit && a.span.start < b.span.start)
}

pub open spec fn constraint_slot(s: Seq<ConstraintV>, x: ConstraintV, k: int) -> int
    decreases k,
{
    if k <= 0 {
        0
    } else if stands_before(x, s[k - 1]) {
        constraint_slot(s, x, k - 1)
    } else {
        k
    }
}

/// The first `k` constraints in order; equals keep theirs.
pub open spec fn in_source_order(s: Seq<ConstraintV>, k: int) -> Seq<ConstraintV>
    decreases k,
{
    if k <= 0 {
        Seq::empty()
    } else {
        let t = in_source_order(s, k - 1);
        t.insert(constraint_slot(t, s[k - 1], t.len() as int), s[k - 1])
    }
}

/// All constraints of a model, unit by unit in source order.
pub open spec fn all_constraints(l: LV) -> (LV, Seq<ConstraintV>) {
    let own = own_constraints(l, 0);
    let (m, taken) = taken_constraints(l, l.r.lib_boundary as int, l.r.n());
    let all = own + taken;
    (m, in_source_order(all, all.len() as int))
}

fn is_asserted(ty: &str) -> (r: bool)
    ensures
        r == asserts(ty@),
{
    str_eq(ty, "AssertConstraintUsage") || str_eq(ty, "SatisfyRequirementUsage") || str_eq(
        ty,
        "Invariant",
    )
}

fn is_constraint(ty: &str) -> (r: bool)
    ensures
        r == constrains(ty@),
{
    is_asserted(ty) || str_eq(ty, "ConstraintUsage") || str_eq(ty, "ConstraintDefinition")
        || str_eq(ty, "RequirementUsage") || str_eq(ty, "RequirementDefinition")
}

fn push_unseen(frontier: &mut Vec<usize>, s: &Vec<usize>, seen: &mut Vec<bool>)
    requires
        all_below(s@, old(seen)@.len()),
        all_below(old(frontier)@, old(seen)@.len()),
    ensures
        final(frontier)@ == old(frontier)@ + unseen(s@, old(seen)@, 0),
        final(seen)@ == marked(s@, old(seen)@, 0),
        final(seen)@.len() == old(seen)@.len(),
        all_below(final(frontier)@, old(seen)@.len()),
{
    let n: usize = s.len();
    let mut k: usize = 0;
    while k < n
        invariant
            n == s@.len(),
            k <= n,
            all_below(s@, old(seen)@.len()),
            seen@.len() == old(seen)@.len(),
            all_below(frontier@, old(seen)@.len()),
            frontier@ + unseen(s@, seen@, k as int) == old(frontier)@ + unseen(s@, old(seen)@, 0),
            marked(s@, seen@, k as int) == marked(s@, old(seen)@, 0),
        decreases n - k,
    {
        let x: usize = s[k];
        if !seen[x] {
            let ghost before = frontier@;
            let ghost m = seen@.update(x as int, true);
            frontier.push(x);
            seen.set(x, true);
            assert(before + (seq![x] + unseen(s@, m, k + 1)) =~= frontier@ + unseen(s@, m, k + 1));
        }
        k += 1;
    }
    assert(frontier@ + Seq::<usize>::empty() =~= frontier@);
}

impl Resolver {
    fn body_count(&self) -> (r: usize)
        ensures
            r == self@.g.result_exprs.len(),
    {
        proof {
            reveal(Resolver::view);
            reveal(Builder::view);
        }
        self.graph.result_exprs.len()
    }

    fn body_owner(&self, k: usize) -> (r: usize)
        requires
            self@.wf(),
            k < self@.g.result_exprs.len(),
        ensures
            r == self@.g.result_exprs[k as int].0,
            r < self@.n(),
    {
        proof {
            reveal(Resolver::view);
            reveal(Builder::view);
            reveal(RV::wf);
            reveal(BV::wf);
        }
        self.graph.result_exprs[k].0
    }

    fn body_scope_at(&self, k: usize) -> (r: usize)
        requires
            self@.wf(),
            k < self@.g.result_exprs.len(),
        ensures
            r == self@.g.result_exprs[k as int].1,
            r < self@.ns(),
    {
        proof {
            reveal(Resolver::view);
            reveal(Builder::view);
            reveal(RV::wf);
            reveal(BV::wf);
        }
        self.graph.result_exprs[k].1
    }

    fn body_expr(&self, k: usize) -> (r: Rc<Expr>)
        requires
            k < self@.g.result_exprs.len(),
        ensures
            r == self@.g.result_exprs[k as int].2,
    {
        proof {
            reveal(Resolver::view);
            reveal(Builder::view);
        }
        self.graph.result_exprs[k].2.clone()
    }

    /// The result expression that stands for an element.
    pub fn body_of(&self, t: usize, last: bool) -> (r: Option<usize>)
        requires
            self@.wf(),
        ensures
            body_of(self@.g, t, last) == (match r {
                Some(k) => Some(k as int),
                None => None,
            }),
            r is Some ==> r->0 < self@.g.result_exprs.len(),
    {
        let n: usize = self.body_count();
        if last {
            let mut k: usize = n;
            while k > 0
                invariant
                    self@.wf(),
                    n == self@.g.result_exprs.len(),
                    k <= n,
                    last,
                    last_body(self@.g, t, n as int) == last_body(self@.g, t, k as int),
                decreases k,
            {
                k -= 1;
                if self.body_owner(k) == t {
                    return Some(k);
                }
            }
            None
        } else {
            let mut k: usize = 0;
            while k < n
                invariant
                    self@.wf(),
                    n == self@.g.result_exprs.len(),
                    k <= n,
                    !last,
                    first_body(self@.g, t, 0) == first_body(self@.g, t, k as int),
                decreases n - k,
            {
                if self.body_owner(k) == t {
                    return Some(k);
                }
                k += 1;
            }
            None
        }
    }

    /// The nearest body that an element takes over from what it specializes,
    /// with the element that has it.
    pub fn inherited_body(&mut self, a: usize, last: bool) -> (r: Option<(usize, usize)>)
        requires
            old(self)@.wf(),
            a < old(self)@.n(),
        ensures
            ({
                let (b, hit) = inherited_body(old(self)@, a, last);
                &&& final(self)@ == b
                &&& hit == (match r {
                    Some((t, k)) => Some((t, k as int)),
                    None => None,
                })
            }),
            final(self)@.wf(),
            final(self)@.g == old(self)@.g,
            final(self)@.lib_boundary == old(self)@.lib_boundary,
            match r {
                Some((t, k)) => t < final(self)@.n() && k < final(self)@.g.result_exprs.len(),
                None => true,
            },
    {
        proof {
            reveal(inherited_body);
        }
        let ghost m = self@.open_count();
        let mut queue: Vec<usize> = self.supers(Ghost(m), a);
        let n: usize = self.elem_count();
        let mut seen: Vec<bool> = Vec::new();
        while seen.len() < n
            invariant
                seen@.len() <= n,
                forall|i: int| 0 <= i < seen@.len() ==> !seen@[i],
            decreases n - seen@.len(),
        {
            seen.push(false);
        }
        assert(seen@ =~= Seq::new(n as nat, |i: int| false));
        let mut none: Vec<usize> = Vec::new();
        push_unseen(&mut none, &queue, &mut seen);
        let mut fuel: usize = 256;
        let ghost whole = inherited_body(old(self)@, a, last);
        while queue.len() > 0 && fuel > 0
            invariant
                self@.wf(),
                self@.g == old(self)@.g,
                self@.lib_boundary == old(self)@.lib_boundary,
                n == self@.n(),
                seen@.len() == n,
                all_below(queue@, self@.n()),
                fuel <= 256,
                whole == inherited_body(old(self)@, a, last),
                whole == nearest_from(self@, queue@, seen@, last, fuel as nat),
            decreases fuel,
        {
            let ghost q = queue@;
            let t: usize = queue.remove(0);
            assert(queue@ =~= q.drop_first());
            assert(t == q[0]);
            if let Some(k) = self.body_of(t, last) {
                return Some((t, k));
            }
            let ghost m = self@.open_count();
            let list: Vec<usize> = self.supers(Ghost(m), t);
            push_unseen(&mut queue, &list, &mut seen);
            fuel -= 1;
        }
        None
    }

    pub fn elem_count(&self) -> (r: usize)
        ensures
            r == self@.n(),
    {
        proof {
            reveal(Resolver::view);
        }
        self.graph.element_count()
    }
}

fn before(a: &ConstraintInfo, b: &ConstraintInfo) -> (r: bool)
    ensures
        r == stands_before(a@, b@),
{
    a.unit < b.unit || (a.unit == b.unit && a.span.start < b.span.start)
}

fn slot(s: &Vec<ConstraintInfo>, x: &ConstraintInfo) -> (r: usize)
    ensures
        r == constraint_slot(constraints_view(s@), x@, s@.len() as int),
        r <= s@.len(),
{
    let mut k: usize = s.len();
    while k > 0
        invariant
            k <= s@.len(),
            constraint_slot(constraints_view(s@), x@, s@.len() as int) == constraint_slot(
                constraints_view(s@),
                x@,
                k as int,
            ),
        decreases k,
    {
        if before(x, &s[k - 1]) {
            k -= 1;
        } else {
            return k;
        }
    }
    0
}

/// Puts constraints in source order, unit by unit.
pub fn sort_constraints(s: Vec<ConstraintInfo>) -> (r: Vec<ConstraintInfo>)
    ensures
        constraints_view(r@) == in_source_order(constraints_view(s@), s@.len() as int),
{
    let ghost all = constraints_view(s@);
    let mut rest: Vec<ConstraintInfo> = s;
    let n: usize = rest.len();
    let mut out: Vec<ConstraintInfo> = Vec::new();
    let mut i: usize = 0;
    assert(constraints_view(out@) =~= in_source_order(all, 0));
    assert(all.skip(0) =~= all);
    while i < n
        invariant
            n == all.len(),
            i <= n,
            constraints_view(rest@) == all.skip(i as int),
            constraints_view(out@) == in_source_order(all, i as int),
        decreases n - i,
    {
        let ghost r0 = constraints_view(rest@);
        assert(r0.len() == n - i);
        let x: ConstraintInfo = rest.remove(0);
        assert(constraints_view(rest@) =~= r0.drop_first());
        assert(r0.drop_first() =~= all.skip(i + 1));
        assert(x@ == r0[0] && r0[0] == all[i as int]);
        let at: usize = slot(&out, &x);
        let ghost before = constraints_view(out@);
        let ghost xv = x@;
        out.insert(at, x);
        assert(constraints_view(out@) =~= before.insert(at as int, xv));
        i += 1;
    }
    out
}

impl Linker {
    /// A constraint with the body at `k`.
    pub fn constraint_at(
        &self,
        e: usize,
        k: usize,
        unit_of: usize,
        asserted: bool,
        scope: usize,
    ) -> (r: ConstraintInfo)
        requires
            self@.wf(),
            e < self@.r.n(),
            k < self@.r.g.result_exprs.len(),
        ensures
            r@ == constraint_at(self@, e, k as int, unit_of, asserted, scope),
    {
        let unit: usize = self.unit_of_elem(unit_of);
        proof {
            reveal(Linker::view);
            reveal(Resolver::view);
        }
        let expr: Rc<Expr> = self.res.body_expr(k);
        let g: &Builder = &self.res.graph;
        let negated: bool = match g.flag_of(e, "isNegated") {
            Some(b) => b,
            None => false,
        };
        ConstraintInfo {
            element: e,
            unit,
            span: expr.span,
            name: g.text_of(e, "declaredName"),
            element_type: g.ty_of(e),
            asserted,
            negated,
            scope,
            expr,
        }
    }

    fn own_constraints(&self) -> (r: Vec<ConstraintInfo>)
        requires
            self@.wf(),
        ensures
            constraints_view(r@) == own_constraints(self@, 0),
    {
        proof {
            reveal(Linker::view);
        }
        let mut out: Vec<ConstraintInfo> = Vec::new();
        let n: usize = self.res.body_count();
        let mut k: usize = 0;
        let ghost whole = own_constraints(self@, 0);
        assert(constraints_view(out@) + whole =~= whole);
        while k < n
            invariant
                self@.wf(),
                self@.r == self.res@,
                n == self@.r.g.result_exprs.len(),
                k <= n,
                constraints_view(out@) + own_constraints(self@, k as int) == whole,
            decreases n - k,
        {
            let owner: usize = self.res.body_owner(k);
            let ty: &'static str = self.type_of(owner);
            let ghost before = constraints_view(out@);
            let ghost rest = own_constraints(self@, k + 1);
            if is_constraint(ty) {
                let scope: usize = self.res.body_scope_at(k);
                let c: ConstraintInfo = self.constraint_at(owner, k, owner, is_asserted(ty), scope);
                let ghost cv = c@;
                out.push(c);
                assert(constraints_view(out@) =~= before.push(cv));
                assert(before + (seq![cv] + rest) =~= constraints_view(out@) + rest);
            }
            k += 1;
        }
        assert(constraints_view(out@) + Seq::<ConstraintV>::empty() =~= constraints_view(out@));
        out
    }

    /// The metaclass of an element.
    pub fn type_of(&self, e: usize) -> (r: &'static str)
        requires
            e < self@.r.n(),
        ensures
            r@ == self@.r.g.elements[e as int].ty,
    {
        proof {
            reveal(Linker::view);
            reveal(Resolver::view);
        }
        self.res.graph.ty_of(e)
    }

    /// The scope of an element's body.
    pub fn scope_of(&self, e: usize) -> (r: Option<usize>)
        requires
            self@.wf(),
            e < self@.r.n(),
        ensures
            r == self@.r.g.elements[e as int].notes.scope,
            below(r, self@.r.ns()),
    {
        proof {
            reveal(Linker::view);
        }
        self.res.body_scope(e)
    }

    fn takes_body(&self, e: usize) -> (r: Option<usize>)
        requires
            self@.wf(),
            e < self@.r.n(),
        ensures
            r is Some <==> takes_body(self@.r.g, e),
            r is Some ==> r == self@.r.g.elements[e as int].notes.scope,
    {
        if !is_asserted(self.type_of(e)) {
            return None;
        }
        proof {
            reveal(Linker::view);
        }
        if self.res.body_of(e, true).is_some() {
            return None;
        }
        self.scope_of(e)
    }

    /// The nearest body that an element takes over.
    pub fn inherited_body(&mut self, a: usize, last: bool) -> (r: Option<(usize, usize)>)
        requires
            old(self)@.wf(),
            a < old(self)@.r.n(),
        ensures
            ({
                let (b, hit) = inherited_body(old(self)@.r, a, last);
                &&& final(self)@ == (LV { r: b, ..old(self)@ })
                &&& hit == (match r {
                    Some((t, k)) => Some((t, k as int)),
                    None => None,
                })
            }),
            final(self)@.wf(),
            final(self)@.r.g == old(self)@.r.g,
            final(self)@.r.lib_boundary == old(self)@.r.lib_boundary,
            match r {
                Some((t, k)) => t < final(self)@.r.n() && k < final(self)@.r.g.result_exprs.len(),
                None => true,
            },
    {
        proof {
            reveal(Linker::view);
        }
        self.res.inherited_body(a, last)
    }

    fn taken_constraints(&mut self) -> (r: Vec<ConstraintInfo>)
        requires
            old(self)@.wf(),
        ensures
            (final(self)@, constraints_view(r@)) == taken_constraints(
                old(self)@,
                old(self)@.r.lib_boundary as int,
                old(self)@.r.n(),
            ),
            final(self)@.wf(),
            final(self)@.r.g == old(self)@.r.g,
    {
        let mut out: Vec<ConstraintInfo> = Vec::new();
        let n: usize = self.element_total();
        let first: usize = self.boundary();
        let mut e: usize = first;
        let ghost whole = taken_constraints(self@, first as int, n as nat);
        assert(constraints_view(out@) + whole.1 =~= whole.1);
        while e < n
            invariant
                self@.wf(),
                self@.r.g == old(self)@.r.g,
                n == self@.r.n(),
                ({
                    let rest = taken_constraints(self@, e as int, n as nat);
                    whole == (rest.0, constraints_view(out@) + rest.1)
                }),
            decreases n - e,
        {
            let ghost before = constraints_view(out@);
            if let Some(scope) = self.takes_body(e) {
                let ghost now = self@;
                let hit = self.inherited_body(e, true);
                let ghost rest = taken_constraints(self@, e + 1, n as nat);
                if let Some((t, k)) = hit {
                    let c: ConstraintInfo = self.constraint_at(e, k, t, true, scope);
                    let ghost cv = c@;
                    out.push(c);
                    assert(constraints_view(out@) =~= before.push(cv));
                    assert(before + (seq![cv] + rest.1) =~= constraints_view(out@) + rest.1);
                }
            }
            e += 1;
        }
        assert(constraints_view(out@) + Seq::<ConstraintV>::empty() =~= constraints_view(out@));
        out
    }

    /// Every constraint with a body, its own or, where it is asserted, the
    /// nearest one it specializes, in source order unit by unit.
    pub fn constraints(&mut self) -> (r: Vec<ConstraintInfo>)
        requires
            old(self)@.wf(),
        ensures
            (final(self)@, constraints_view(r@)) == all_constraints(old(self)@),
            final(self)@.wf(),
            final(self)@.r.g == old(self)@.r.g,
    {
        let mut all: Vec<ConstraintInfo> = self.own_constraints();
        let mut taken: Vec<ConstraintInfo> = self.taken_constraints();
        let ghost a = constraints_view(all@);
        let ghost t = constraints_view(taken@);
        all.append(&mut taken);
        assert(constraints_view(all@) =~= a + t);
        assert(constraints_view(all@).len() == all@.len());
        sort_constraints(all)
    }
}

/// Constraints are reported unit by unit in source order.
pub open spec fn ordered(s: Seq<ConstraintV>) -> bool {
    forall|i: int, j: int|
        0 <= i < j < s.len() ==> !stands_before(#[trigger] s[j], #[trigger] s[i])
}

proof fn lemma_slot(s: Seq<ConstraintV>, x: ConstraintV, k: int)
    requires
        0 <= k <= s.len(),
    ensures
        0 <= constraint_slot(s, x, k) <= k,
        forall|i: int| constraint_slot(s, x, k) <= i < k ==> stands_before(x, #[trigger] s[i]),
        constraint_slot(s, x, k) > 0 ==> !stands_before(x, s[constraint_slot(s, x, k) - 1]),
    decreases k,
{
    if k > 0 && stands_before(x, s[k - 1]) {
        lemma_slot(s, x, k - 1);
    }
}

/// Sorting constraints puts them in source order, unit by unit, and loses
/// none.
pub proof fn law_constraints_come_in_source_order(s: Seq<ConstraintV>, k: int)
    requires
        0 <= k <= s.len(),
    ensures
        ordered(in_source_order(s, k)),
        in_source_order(s, k).len() == k,
        in_source_order(s, k).to_multiset() == s.take(k).to_multiset(),
    decreases k,
{
    broadcast use vstd::seq_lib::group_to_multiset_ensures;


    if k > 0 {
        law_constraints_come_in_source_order(s, k - 1);
        let t = in_source_order(s, k - 1);
        let x = s[k - 1];
        let at = constraint_slot(t, x, t.len() as int);
        lemma_slot(t, x, t.len() as int);
        let u = t.insert(at, x);
        assert(s.take(k) =~= s.take(k - 1).push(x));
        assert(u.to_multiset() =~= t.to_multiset().insert(x));
        assert forall|i: int, j: int| 0 <= i < j < u.len() implies !stands_before(
            #[trigger] u[j],
            #[trigger] u[i],
        ) by {
            let a = if i < at { t[i] } else if i == at { x } else { t[i - 1] };
            let b = if j < at { t[j] } else if j == at { x } else { t[j - 1] };
            assert(u[i] == a && u[j] == b);
            if j == at && i < at - 1 {
                assert(!stands_before(t[at - 1], t[i]));
            }
        }
    }
}

} // verus!
