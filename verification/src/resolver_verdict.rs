//! Verdicts of filter expressions.

use crate::ast::Expr;
use crate::resolution;
use crate::rpure::{expr_size, not_verdict, decides, combine, filter_form, FilterForm};
use crate::rstate::{Resolver, Tri};
use vstd::prelude::*;

verus! {

impl Resolver {
    /// The verdict of a filter expression: literals, `not`, `and`, `or`, `@M`
    /// and `(as M).attr` are decided, everything else is not.
    pub fn expr_verdict(
        &mut self,
        Ghost(m): Ghost<nat>,
        expr: &Expr,
        scope: usize,
        elem: usize,
        depth: usize,
    ) -> (r: Tri)
        requires
            old(self)@.wf(),
            old(self)@.open_count() <= m,
            scope < old(self)@.ns(),
            elem < old(self)@.n(),
            depth <= 24,
        ensures
            (final(self)@, r) == resolution::expr_verdict(
                old(self)@.g,
                old(self)@,
                m,
                *expr,
                scope,
                elem,
                depth,
            ),
            final(self)@.wf(),
            final(self)@.g == old(self)@.g,
            final(self)@.lib_boundary == old(self)@.lib_boundary,
            final(self)@.open_count() <= old(self)@.open_count(),
        decreases m, 100nat, 60int, 2 * expr_size(*expr), 1int,
    {
        proof {
            reveal(resolution::expr_verdict_step);
            assert(
                resolution::expr_verdict(old(self)@.g, old(self)@, m, *expr, scope, elem, depth) == resolution::expr_verdict_step(
                    old(self)@.g,
                    old(self)@,
                    m,
                    *expr,
                    scope,
                    elem,
                    depth,
                )
            );
        }
        match filter_form(expr) {
            FilterForm::Decided(v) => {
                v
            },
            FilterForm::Not(x) => {
                let v = self.expr_verdict(Ghost(m), x, scope, elem, depth);
                not_verdict(v)
            },
            FilterForm::Connect(conj, x, y) => {
                self.connect_verdict(Ghost(m), conj, x, y, scope, elem, depth)
            },
            FilterForm::Annotation(qn) => {
                self.metadata_test(Ghost(m), scope, qn, elem, depth)
            },
            FilterForm::Attribute(t) => {
                self.attr_verdict(Ghost(m), scope, &t.meta, t.attr.as_str(), elem, depth)
            },
        }
    }

    /// The verdict of a connective: the second operand is asked only where the
    /// first does not decide.
    pub fn connect_verdict(
        &mut self,
        Ghost(m): Ghost<nat>,
        conj: bool,
        x: &Expr,
        y: &Expr,
        scope: usize,
        elem: usize,
        depth: usize,
    ) -> (r: Tri)
        requires
            old(self)@.wf(),
            old(self)@.open_count() <= m,
            scope < old(self)@.ns(),
            elem < old(self)@.n(),
            depth <= 24,
        ensures
            (final(self)@, r) == resolution::connect_verdict(
                old(self)@.g,
                old(self)@,
                m,
                conj,
                *x,
                *y,
                scope,
                elem,
                depth,
            ),
            final(self)@.wf(),
            final(self)@.g == old(self)@.g,
            final(self)@.lib_boundary == old(self)@.lib_boundary,
            final(self)@.open_count() <= old(self)@.open_count(),
        decreases m, 100nat, 60int, 2 * (expr_size(*x) + expr_size(*y)) + 1, 1int,
    {
        proof {
            reveal(resolution::connect_verdict_step);
            assert(
                resolution::connect_verdict(old(self)@.g, old(self)@, m, conj, *x, *y, scope, elem, depth) == resolution::connect_verdict_step(
                    old(self)@.g,
                    old(self)@,
                    m,
                    conj,
                    *x,
                    *y,
                    scope,
                    elem,
                    depth,
                )
            );
        }
        let l = self.expr_verdict(Ghost(m), x, scope, elem, depth);
        if decides(conj, l) {
            l
        } else {
            let r2 = self.expr_verdict(Ghost(m), y, scope, elem, depth);
            combine(conj, l, r2)
        }
    }
}

} // verus!
