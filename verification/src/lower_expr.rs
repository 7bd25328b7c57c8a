//! Lowering of expressions.

use crate::ast::{
    Name, QualifiedName, TargetRef, ClassificationOp, Literal, Arg, ArrowArgs, Expr, ExprKind,
    Multiplicity, qns_view,
};
use crate::props::Value;
use crate::lower_util::{lemma_sizes, callee_chain, meta_target, single_link, context_of};
use crate::shape;
use crate::state::{opt_chain, Builder, PendingRef};
use crate::syntax::{chain_spine, literal_int};
use crate::tables::{binary_op, unary_op, classification_op, direction, visibility};
use crate::text::numbered_seg;
use std::rc::Rc;
use vstd::prelude::*;

verus! {

impl Builder {
    /// A literal expression with its value; infinity carries none.
    pub fn build_literal(&mut self, lit: &Literal, rel: usize, seg: &str) -> (r: usize)
        requires
            old(self)@.wf(),
            rel < old(self)@.n(),
        ensures
            (final(self)@, r) == shape::build_literal(old(self)@, *lit, rel, seg@),
            final(self)@.wf(),
            final(self)@.n() >= old(self)@.n(),
            final(self)@.ns() >= old(self)@.ns(),
            r < final(self)@.n(),
    {
        proof {
            reveal(shape::build_literal);
        }
        match lit {
            Literal::Bool(v) => {
                let e: usize = self.new_owned_element("LiteralBoolean", rel, seg);
                self.set_bool(e, "value", *v);
                e
            },
            Literal::Text(s) => {
                let e: usize = self.new_owned_element("LiteralString", rel, seg);
                self.set_str(e, "value", s.as_str());
                e
            },
            Literal::Integer(n) => {
                let e: usize = self.new_owned_element("LiteralInteger", rel, seg);
                match literal_int(n.as_str()) {
                    Some(v) => {
                        self.set(e, "value", Value::Int(v));
                    },
                    None => {
                        self.set_str(e, "value", n.as_str());
                    },
                }
                e
            },
            Literal::Real(r) => {
                let e: usize = self.new_owned_element("LiteralRational", rel, seg);
                self.set(e, "value", Value::Real(r.clone()));
                e
            },
            Literal::Infinity => {
                self.new_owned_element("LiteralInfinity", rel, seg)
            },
        }
    }

    /// An OperatorExpression with its operator.
    pub fn operator_expr(&mut self, rel: usize, seg: &str, operator: &str) -> (r: usize)
        requires
            old(self)@.wf(),
            rel < old(self)@.n(),
        ensures
            (final(self)@, r) == shape::operator_expr(old(self)@, rel, seg@, operator@),
            final(self)@.wf(),
            final(self)@.n() >= old(self)@.n(),
            final(self)@.ns() >= old(self)@.ns(),
            r < final(self)@.n(),
    {
        proof {
            reveal(shape::operator_expr);
        }
        let e: usize = self.new_owned_element("OperatorExpression", rel, seg);
        self.set_str(e, "operator", operator);
        e
    }

    /// An operator expression of a metaclass of its own.
    pub fn fixed_operator_expr(
        &mut self,
        ty: &'static str,
        rel: usize,
        seg: &str,
        operator: &str,
    ) -> (r: usize)
        requires
            old(self)@.wf(),
            rel < old(self)@.n(),
        ensures
            (final(self)@, r) == shape::fixed_operator_expr(old(self)@, ty@, rel, seg@, operator@),
            final(self)@.wf(),
            final(self)@.n() >= old(self)@.n(),
            final(self)@.ns() >= old(self)@.ns(),
            r < final(self)@.n(),
    {
        proof {
            reveal(shape::fixed_operator_expr);
        }
        let e: usize = self.new_owned_element(ty, rel, seg);
        self.set_str(e, "operator", operator);
        e
    }

    /// A FeatureReferenceExpression of a name.
    pub fn reference_expr(
        &mut self,
        qn: &QualifiedName,
        rel: usize,
        scope: usize,
        seg: &str,
    ) -> (r: usize)
        requires
            old(self)@.wf(),
            rel < old(self)@.n(),
            scope < old(self)@.ns(),
        ensures
            (final(self)@, r) == shape::reference_expr(old(self)@, qn@, rel, scope, seg@),
            final(self)@.wf(),
            final(self)@.n() >= old(self)@.n(),
            final(self)@.ns() >= old(self)@.ns(),
            r < final(self)@.n(),
    {
        proof {
            reveal(shape::reference_expr);
        }
        let e: usize = self.new_owned_element("FeatureReferenceExpression", rel, seg);
        let m: usize = self.new_explicit("Membership", e, "ref");
        self.ref_name(m, "memberElement", None, scope, qn, None);
        e
    }

    /// A MetadataAccessExpression of a name.
    pub fn metadata_access(
        &mut self,
        qn: &QualifiedName,
        rel: usize,
        scope: usize,
        seg: &str,
    ) -> (r: usize)
        requires
            old(self)@.wf(),
            rel < old(self)@.n(),
            scope < old(self)@.ns(),
        ensures
            (final(self)@, r) == shape::metadata_access(old(self)@, qn@, rel, scope, seg@),
            final(self)@.wf(),
            final(self)@.n() >= old(self)@.n(),
            final(self)@.ns() >= old(self)@.ns(),
            r < final(self)@.n(),
    {
        proof {
            reveal(shape::metadata_access);
        }
        let e: usize = self.new_owned_element("MetadataAccessExpression", rel, seg);
        let m: usize = self.new_explicit("Membership", e, "element");
        self.ref_name(m, "memberElement", None, scope, qn, None);
        e
    }

    /// The parameter an expression is classified by: a Feature typed by the
    /// target.
    pub fn type_parameter(
        &mut self,
        e: usize,
        m_ty: &'static str,
        dir: &str,
        ty: &TargetRef,
        scope: usize,
    )
        requires
            old(self)@.wf(),
            e < old(self)@.n(),
            scope < old(self)@.ns(),
        ensures
            final(self)@ == shape::type_parameter(old(self)@, e, m_ty@, dir@, *ty, scope),
            final(self)@.wf(),
            final(self)@.n() >= old(self)@.n(),
            final(self)@.ns() >= old(self)@.ns(),
    {
        proof {
            reveal(shape::type_parameter);
        }
        let m: usize = self.new_explicit(m_ty, e, "type");
        let f: usize = self.new_owned_element("Feature", m, "typeref");
        self.set_str(f, "direction", dir);
        let ft: usize = self.new_explicit("FeatureTyping", f, "typing");
        self.set_ref(ft, "type", scope, ty);
        self.set_link(ft, "typedFeature", f);
    }

    /// The value slot of an operand: an unnamed private `in` parameter.
    pub fn operand_slot(&mut self, e: usize) -> (r: usize)
        requires
            old(self)@.wf(),
            e < old(self)@.n(),
        ensures
            (final(self)@, r) == shape::operand_slot(old(self)@, e),
            final(self)@.wf(),
            final(self)@.n() >= old(self)@.n(),
            final(self)@.ns() >= old(self)@.ns(),
            r < final(self)@.n(),
    {
        proof {
            reveal(shape::operand_slot);
        }
        let m: usize = self.new_explicit("ParameterMembership", e, "operand0");
        self.set_str(m, "visibility", "private");
        let f: usize = self.new_owned_element("Feature", m, "param");
        self.set_str(f, "direction", "in");
        let fv: usize = self.new_explicit("FeatureValue", f, "value");
        fv
    }

    /// The implicit subject of a classification: a reference to an owned empty
    /// feature.
    pub fn self_reference(&mut self, e: usize)
        requires
            old(self)@.wf(),
            e < old(self)@.n(),
        ensures
            final(self)@ == shape::self_reference(old(self)@, e),
            final(self)@.wf(),
            final(self)@.n() >= old(self)@.n(),
            final(self)@.ns() >= old(self)@.ns(),
    {
        proof {
            reveal(shape::self_reference);
        }
        let fv: usize = self.operand_slot(e);
        let fre: usize = self.new_owned_element("FeatureReferenceExpression", fv, "expr");
        let sm: usize = self.new_explicit("ReturnParameterMembership", fre, "self");
        self.new_owned_element("Feature", sm, "selfref");
    }

    /// An operand or argument: an unnamed `in` parameter whose FeatureValue owns
    /// the expression.
    pub fn param_wrapped_expr(
        &mut self,
        membership: usize,
        expr: &Expr,
        scope: usize,
        private: bool,
    )
        requires
            old(self)@.wf(),
            membership < old(self)@.n(),
            scope < old(self)@.ns(),
        ensures
            final(self)@ == shape::param_wrapped_expr(old(self)@, membership, *expr, scope, private),
            final(self)@.wf(),
            final(self)@.n() >= old(self)@.n(),
            final(self)@.ns() >= old(self)@.ns(),
        decreases expr, 10int,
    {
        proof {
            reveal(shape::param_wrapped_expr_step);
            assert(
                shape::param_wrapped_expr(old(self)@, membership, *expr, scope, private) == shape::param_wrapped_expr_step(
                    old(self)@,
                    membership,
                    *expr,
                    scope,
                    private,
                )
            );
        }
        if private {
            self.set_str(membership, "visibility", "private");
        }
        let f: usize = self.new_owned_element("Feature", membership, "param");
        self.set_str(f, "direction", "in");
        let fv: usize = self.new_explicit("FeatureValue", f, "value");
        self.build_expr(expr, fv, scope, "expr");
    }

    /// The `i`-th operand of an operator expression.
    pub fn operand_at(&mut self, parent: usize, operand: &Expr, scope: usize, i: usize)
        requires
            old(self)@.wf(),
            parent < old(self)@.n(),
            scope < old(self)@.ns(),
        ensures
            final(self)@ == shape::operand_at(old(self)@, parent, *operand, scope, i),
            final(self)@.wf(),
            final(self)@.n() >= old(self)@.n(),
            final(self)@.ns() >= old(self)@.ns(),
        decreases operand, 11int,
    {
        proof {
            reveal(shape::operand_at_step);
            assert(
                shape::operand_at(old(self)@, parent, *operand, scope, i) == shape::operand_at_step(
                    old(self)@,
                    parent,
                    *operand,
                    scope,
                    i,
                )
            );
        }
        let seg = numbered_seg("operand", i);
        let m: usize = self.new_explicit("ParameterMembership", parent, seg.as_str());
        self.param_wrapped_expr(m, operand, scope, true);
    }

    /// The `i`-th positional argument of an invocation.
    pub fn arg_expr(&mut self, parent: usize, expr: &Expr, scope: usize, i: usize)
        requires
            old(self)@.wf(),
            parent < old(self)@.n(),
            scope < old(self)@.ns(),
        ensures
            final(self)@ == shape::arg_expr(old(self)@, parent, *expr, scope, i),
            final(self)@.wf(),
            final(self)@.n() >= old(self)@.n(),
            final(self)@.ns() >= old(self)@.ns(),
        decreases expr, 11int,
    {
        proof {
            reveal(shape::arg_expr_step);
            assert(
                shape::arg_expr(old(self)@, parent, *expr, scope, i) == shape::arg_expr_step(
                    old(self)@,
                    parent,
                    *expr,
                    scope,
                    i,
                )
            );
        }
        let seg = numbered_seg("arg", i);
        let m: usize = self.new_explicit("ParameterMembership", parent, seg.as_str());
        self.param_wrapped_expr(m, expr, scope, false);
    }

    /// The `i`-th argument of an invocation: a named one redefines the callee's
    /// parameter, looked up in the callee.
    pub fn argument(&mut self, parent: usize, arg: &Arg, scope: usize, i: usize, callee: &TargetRef)
        requires
            old(self)@.wf(),
            parent < old(self)@.n(),
            scope < old(self)@.ns(),
        ensures
            final(self)@ == shape::argument(old(self)@, parent, *arg, scope, i, *callee),
            final(self)@.wf(),
            final(self)@.n() >= old(self)@.n(),
            final(self)@.ns() >= old(self)@.ns(),
            final(self)@.n() > old(self)@.n(),
        decreases arg, 1int,
    {
        proof {
            reveal(shape::argument_step);
            assert(
                shape::argument(old(self)@, parent, *arg, scope, i, *callee) == shape::argument_step(
                    old(self)@,
                    parent,
                    *arg,
                    scope,
                    i,
                    *callee,
                )
            );
        }
        let seg = numbered_seg("arg", i);
        let m: usize = self.new_explicit("ParameterMembership", parent, seg.as_str());
        if let Some(name) = &arg.name {
            let f: usize = self.new_owned_element("Feature", m, "param");
            self.set_str(f, "direction", "in");
            let rd: usize = self.new_explicit("Redefinition", f, "redef");
            self.set_link(rd, "redefiningFeature", f);
            self.push_pending(
                PendingRef {
                    elem: rd,
                    key: "redefinedFeature",
                    index: None,
                    scope: scope,
                    qn: name.duplicate(),
                    exclude: None,
                    declared_only: false,
                    chain: callee_chain(callee),
                    spec_idx: None,
                }
            );
            let fv: usize = self.new_explicit("FeatureValue", f, "value");
            self.build_expr(&arg.value, fv, scope, "expr");
        } else {
            self.param_wrapped_expr(m, &arg.value, scope, false);
        }
    }

    /// The arguments of an invocation, numbered from `base`.
    pub fn arguments(
        &mut self,
        args: &Vec<Arg>,
        e: usize,
        scope: usize,
        ty: &TargetRef,
        base: usize,
    )
        requires
            old(self)@.wf(),
            e < old(self)@.n(),
            scope < old(self)@.ns(),
            base <= old(self)@.n(),
        ensures
            final(self)@ == shape::arguments(old(self)@, *args, e, scope, *ty, base),
            final(self)@.wf(),
            final(self)@.n() >= old(self)@.n(),
            final(self)@.ns() >= old(self)@.ns(),
            base + args@.len() <= final(self)@.n(),
        decreases args, args@.len() + 1,
    {
        let mut i: usize = 0;
        while i < args.len()
            invariant
                i <= args@.len(),
                self@.wf(),
                self@.n() >= old(self)@.n(),
                self@.ns() >= old(self)@.ns(),
                base + i <= self@.n(),
                e < old(self)@.n(),
                scope < old(self)@.ns(),
                base <= old(self)@.n(),
                shape::arguments_from(self@, *args, e, scope, *ty, base, i as int) == shape::arguments(
                    old(self)@,
                    *args,
                    e,
                    scope,
                    *ty,
                    base,
                ),
            decreases args@.len() - i,
        {
            let x = &args[i];
            proof {
                lemma_sizes(self@);
            }
            let num: usize = base + i;
            self.argument(e, x, scope, num, ty);
            i += 1;
        }
    }

    /// The operands of a sequence.
    pub fn operands(&mut self, items: &Vec<Rc<Expr>>, e: usize, scope: usize)
        requires
            old(self)@.wf(),
            e < old(self)@.n(),
            scope < old(self)@.ns(),
        ensures
            final(self)@ == shape::operands(old(self)@, *items, e, scope),
            final(self)@.wf(),
            final(self)@.n() >= old(self)@.n(),
            final(self)@.ns() >= old(self)@.ns(),
        decreases items, items@.len() + 1,
    {
        let mut i: usize = 0;
        while i < items.len()
            invariant
                i <= items@.len(),
                self@.wf(),
                self@.n() >= old(self)@.n(),
                self@.ns() >= old(self)@.ns(),
                e < old(self)@.n(),
                scope < old(self)@.ns(),
                shape::operands_from(
                    self@,
                    *items,
                    e,
                    scope,
                    i as int,
                ) == shape::operands(old(self)@, *items, e, scope),
            decreases items@.len() - i,
        {
            let x = &items[i];
            self.operand_at(e, x, scope, i);
            i += 1;
        }
    }

    /// An invocation of `ty`: a membership naming it, under the given segment.
    pub fn open_invocation(
        &mut self,
        class: &'static str,
        rel: usize,
        seg: &str,
        role: &str,
        ty: &TargetRef,
        scope: usize,
    ) -> (r: usize)
        requires
            old(self)@.wf(),
            rel < old(self)@.n(),
            scope < old(self)@.ns(),
        ensures
            (final(self)@, r) == shape::open_invocation(old(self)@, class@, rel, seg@, role@, *ty, scope),
            final(self)@.wf(),
            final(self)@.n() >= old(self)@.n(),
            final(self)@.ns() >= old(self)@.ns(),
            r < final(self)@.n(),
    {
        proof {
            reveal(shape::open_invocation);
        }
        let e: usize = self.new_owned_element(class, rel, seg);
        let m: usize = self.new_explicit("Membership", e, role);
        self.set_ref(m, "memberElement", scope, ty);
        e
    }

    /// What is classified: a metadata reference, an expression, or the implicit
    /// subject.
    pub fn classified_operand(
        &mut self,
        op: ClassificationOp,
        operand: &Option<Rc<Expr>>,
        e: usize,
        scope: usize,
    )
        requires
            old(self)@.wf(),
            e < old(self)@.n(),
            scope < old(self)@.ns(),
        ensures
            final(self)@ == shape::classified_operand(old(self)@, op, *operand, e, scope),
            final(self)@.wf(),
            final(self)@.n() >= old(self)@.n(),
            final(self)@.ns() >= old(self)@.ns(),
        decreases operand, 2int,
    {
        proof {
            reveal(shape::classified_operand_step);
            assert(
                shape::classified_operand(old(self)@, op, *operand, e, scope) == shape::classified_operand_step(
                    old(self)@,
                    op,
                    *operand,
                    e,
                    scope,
                )
            );
        }
        if let Some(x) = operand {
            match meta_target(op, x) {
                Some(qn) => {
                    let fv: usize = self.operand_slot(e);
                    self.metadata_access(qn, fv, scope, "expr");
                },
                None => {
                    self.operand_at(e, x, scope, 0);
                },
            }
        } else {
            self.self_reference(e);
        }
    }

    /// A classification expression: its operand, then the type it tests.
    pub fn classification(
        &mut self,
        op: ClassificationOp,
        operand: &Option<Rc<Expr>>,
        ty: &TargetRef,
        rel: usize,
        scope: usize,
        seg: &str,
    ) -> (r: usize)
        requires
            old(self)@.wf(),
            rel < old(self)@.n(),
            scope < old(self)@.ns(),
        ensures
            (final(self)@, r) == shape::classification(old(self)@, op, *operand, *ty, rel, scope, seg@),
            final(self)@.wf(),
            final(self)@.n() >= old(self)@.n(),
            final(self)@.ns() >= old(self)@.ns(),
            r < final(self)@.n(),
        decreases operand, 3int,
    {
        proof {
            reveal(shape::classification_step);
            assert(
                shape::classification(old(self)@, op, *operand, *ty, rel, scope, seg@) == shape::classification_step(
                    old(self)@,
                    op,
                    *operand,
                    *ty,
                    rel,
                    scope,
                    seg@,
                )
            );
        }
        let e: usize = self.operator_expr(rel, seg, classification_op(op));
        self.classified_operand(op, operand, e, scope);
        if op == ClassificationOp::As || op == ClassificationOp::Meta {
            self.type_parameter(e, "ReturnParameterMembership", "out", ty, scope);
        } else {
            self.type_parameter(e, "ParameterMembership", "in", ty, scope);
        }
        e
    }

    /// The arguments of an arrow invocation: the target first.
    pub fn arrow_args(&mut self, e: usize, args: &ArrowArgs, ty: &TargetRef, scope: usize)
        requires
            old(self)@.wf(),
            e < old(self)@.n(),
            scope < old(self)@.ns(),
        ensures
            final(self)@ == shape::arrow_args(old(self)@, e, *args, *ty, scope),
            final(self)@.wf(),
            final(self)@.n() >= old(self)@.n(),
            final(self)@.ns() >= old(self)@.ns(),
        decreases args, 3int,
    {
        proof {
            reveal(shape::arrow_args_step);
            assert(
                shape::arrow_args(old(self)@, e, *args, *ty, scope) == shape::arrow_args_step(
                    old(self)@,
                    e,
                    *args,
                    *ty,
                    scope,
                )
            );
        }
        match args {
            ArrowArgs::Body(body) => {
                self.arg_expr(e, body, scope, 1);
            },
            ArrowArgs::FunctionRef(f) => {
                let fm: usize = self.new_explicit("FeatureMembership", e, "fnref");
                self.ref_name(fm, "memberElement", None, scope, f, None);
            },
            ArrowArgs::List(list) => {
                self.arguments(list, e, scope, ty, 1);
            },
        }
    }

    /// A step into a member written as a feature chain.
    pub fn chain_step_by_chain(
        &mut self,
        target: &Expr,
        member: &TargetRef,
        rel: usize,
        scope: usize,
        seg: &str,
    ) -> (r: usize)
        requires
            old(self)@.wf(),
            rel < old(self)@.n(),
            scope < old(self)@.ns(),
        ensures
            (final(self)@, r) == shape::chain_step_by_chain(old(self)@, *target, *member, rel, scope, seg@),
            final(self)@.wf(),
            final(self)@.n() >= old(self)@.n(),
            final(self)@.ns() >= old(self)@.ns(),
            r < final(self)@.n(),
        decreases target, 14int,
    {
        proof {
            reveal(shape::chain_step_by_chain_step);
            assert(
                shape::chain_step_by_chain(old(self)@, *target, *member, rel, scope, seg@) == shape::chain_step_by_chain_step(
                    old(self)@,
                    *target,
                    *member,
                    rel,
                    scope,
                    seg@,
                )
            );
        }
        let e: usize = self.fixed_operator_expr("FeatureChainExpression", rel, seg, ".");
        self.operand_at(e, target, scope, 0);
        let m: usize = self.new_explicit("Membership", e, "member");
        self.set_ref(m, "memberElement", scope, member);
        e
    }

    /// The element tree of an expression, owned through `rel`.
    pub fn build_expr(&mut self, expr: &Expr, rel: usize, scope: usize, seg: &str) -> (r: usize)
        requires
            old(self)@.wf(),
            rel < old(self)@.n(),
            scope < old(self)@.ns(),
        ensures
            (final(self)@, r) == shape::build_expr(old(self)@, *expr, rel, scope, seg@),
            final(self)@.wf(),
            final(self)@.n() >= old(self)@.n(),
            final(self)@.ns() >= old(self)@.ns(),
            r < final(self)@.n(),
        decreases expr, 9int,
    {
        proof {
            reveal(shape::build_expr_step);
            assert(
                shape::build_expr(old(self)@, *expr, rel, scope, seg@) == shape::build_expr_step(
                    old(self)@,
                    *expr,
                    rel,
                    scope,
                    seg@,
                )
            );
        }
        match &expr.kind {
            ExprKind::Literal(lit) => {
                self.build_literal(lit, rel, seg)
            },
            ExprKind::Null => {
                self.new_owned_element("NullExpression", rel, seg)
            },
            ExprKind::Ref(qn) => {
                self.reference_expr(qn, rel, scope, seg)
            },
            ExprKind::Conditional { cond, then_branch, else_branch } => {
                let e: usize = self.operator_expr(rel, seg, "if");
                self.operand_at(e, cond, scope, 0);
                self.operand_at(e, then_branch, scope, 1);
                self.operand_at(e, else_branch, scope, 2);
                e
            },
            ExprKind::Binary { op, lhs, rhs } => {
                let e: usize = self.operator_expr(rel, seg, binary_op(*op));
                self.operand_at(e, lhs, scope, 0);
                self.operand_at(e, rhs, scope, 1);
                e
            },
            ExprKind::Unary { op, operand } => {
                let e: usize = self.operator_expr(rel, seg, unary_op(*op));
                self.operand_at(e, operand, scope, 0);
                e
            },
            ExprKind::Classification { op, operand, ty } => {
                self.classification(*op, operand, ty, rel, scope, seg)
            },
            ExprKind::Extent { ty } => {
                let e: usize = self.operator_expr(rel, seg, "all");
                self.type_parameter(e, "ReturnParameterMembership", "out", ty, scope);
                e
            },
            ExprKind::ChainStep { target, member } => {
                match member {
                    TargetRef::Name(qn) => {
                        self.chain_step(target, single_link(qn), rel, scope, seg)
                    },
                    TargetRef::Chain(links) => {
                        self.chain_step_by_chain(target, member, rel, scope, seg)
                    },
                }
            },
            ExprKind::Index { target, index } => {
                let e: usize = self.fixed_operator_expr("IndexExpression", rel, seg, "#");
                self.operand_at(e, target, scope, 0);
                self.operand_at(e, index, scope, 1);
                e
            },
            ExprKind::Bracket { target, arg } => {
                let e: usize = self.operator_expr(rel, seg, "[");
                self.operand_at(e, target, scope, 0);
                self.operand_at(e, arg, scope, 1);
                e
            },
            ExprKind::Arrow { target, ty, args } => {
                let e: usize = self.open_invocation("InvocationExpression", rel, seg, "fn", ty, scope);
                self.arg_expr(e, target, scope, 0);
                self.arrow_args(e, args, ty, scope);
                e
            },
            ExprKind::Collect { target, body } => {
                let e: usize = self.fixed_operator_expr("CollectExpression", rel, seg, "collect");
                self.operand_at(e, target, scope, 0);
                self.operand_at(e, body, scope, 1);
                e
            },
            ExprKind::Select { target, body } => {
                let e: usize = self.fixed_operator_expr("SelectExpression", rel, seg, "select");
                self.operand_at(e, target, scope, 0);
                self.operand_at(e, body, scope, 1);
                e
            },
            ExprKind::Invocation { ty, args } => {
                let e: usize = self.open_invocation("InvocationExpression", rel, seg, "fn", ty, scope);
                self.arguments(args, e, scope, ty, 0);
                e
            },
            ExprKind::Constructor { ty, args } => {
                let e: usize = self.open_invocation("ConstructorExpression", rel, seg, "type", ty, scope);
                self.arguments(args, e, scope, ty, 0);
                e
            },
            ExprKind::Body { members } => {
                let e: usize = self.new_owned_element("Expression", rel, seg);
                let body: usize = self.push_scope(Some(scope));
                self.build_members(members, e, body);
                e
            },
            ExprKind::BodyTerminator => {
                self.new_owned_element("Expression", rel, seg)
            },
            ExprKind::Sequence(items) => {
                let e: usize = self.operator_expr(rel, seg, ",");
                self.operands(items, e, scope);
                e
            },
            ExprKind::MetadataAccess { target } => {
                self.metadata_access(target, rel, scope, seg)
            },
        }
    }

    /// The lower bound of a multiplicity range, where it is written.
    pub fn emit_lower_bound(&mut self, mr: usize, lower: &Option<Rc<Expr>>, scope: usize)
        requires
            old(self)@.wf(),
            mr < old(self)@.n(),
            scope < old(self)@.ns(),
        ensures
            final(self)@ == shape::emit_lower_bound(old(self)@, mr, *lower, scope),
            final(self)@.wf(),
            final(self)@.n() >= old(self)@.n(),
            final(self)@.ns() >= old(self)@.ns(),
        decreases lower, 1int,
    {
        proof {
            reveal(shape::emit_lower_bound_step);
            assert(
                shape::emit_lower_bound(old(self)@, mr, *lower, scope) == shape::emit_lower_bound_step(old(self)@, mr, *lower, scope)
            );
        }
        if let Some(x) = lower {
            let low: usize = self.new_explicit("OwningMembership", mr, "lower");
            self.build_expr(x, low, scope, "bound");
        }
    }

    /// The bounds of a multiplicity range, owned by `mr`.
    pub fn emit_bounds(&mut self, mr: usize, mult: &Multiplicity, scope: usize)
        requires
            old(self)@.wf(),
            mr < old(self)@.n(),
            scope < old(self)@.ns(),
        ensures
            final(self)@ == shape::emit_bounds(old(self)@, mr, *mult, scope),
            final(self)@.wf(),
            final(self)@.n() >= old(self)@.n(),
            final(self)@.ns() >= old(self)@.ns(),
        decreases mult, 1int,
    {
        proof {
            reveal(shape::emit_bounds_step);
            assert(
                shape::emit_bounds(old(self)@, mr, *mult, scope) == shape::emit_bounds_step(old(self)@, mr, *mult, scope)
            );
        }
        self.emit_lower_bound(mr, &mult.lower, scope);
        let m: usize = self.new_explicit("OwningMembership", mr, "upper");
        self.build_expr(&mult.upper, m, scope, "bound");
    }

    /// A multiplicity clause: an owned MultiplicityRange with its bounds.
    pub fn emit_multiplicity(&mut self, owner: usize, mult: &Multiplicity, scope: usize)
        requires
            old(self)@.wf(),
            owner < old(self)@.n(),
            scope < old(self)@.ns(),
        ensures
            final(self)@ == shape::emit_multiplicity(old(self)@, owner, *mult, scope),
            final(self)@.wf(),
            final(self)@.n() >= old(self)@.n(),
            final(self)@.ns() >= old(self)@.ns(),
        decreases mult, 2int,
    {
        proof {
            reveal(shape::emit_multiplicity_step);
            assert(
                shape::emit_multiplicity(old(self)@, owner, *mult, scope) == shape::emit_multiplicity_step(
                    old(self)@,
                    owner,
                    *mult,
                    scope,
                )
            );
        }
        self.push_multiplicity(owner, scope, &mult.lower, &mult.upper);
        let om: usize = self.new_public("OwningMembership", owner, "multiplicity");
        let mr: usize = self.new_owned_element("MultiplicityRange", om, "range");
        self.emit_bounds(mr, mult, scope);
    }

    /// An optional multiplicity clause.
    pub fn emit_opt_multiplicity(&mut self, owner: usize, mult: &Option<Multiplicity>, scope: usize)
        requires
            old(self)@.wf(),
            owner < old(self)@.n(),
            scope < old(self)@.ns(),
        ensures
            final(self)@ == shape::emit_opt_multiplicity(old(self)@, owner, *mult, scope),
            final(self)@.wf(),
            final(self)@.n() >= old(self)@.n(),
            final(self)@.ns() >= old(self)@.ns(),
        decreases mult, 1int,
    {
        proof {
            reveal(shape::emit_opt_multiplicity_step);
            assert(
                shape::emit_opt_multiplicity(old(self)@, owner, *mult, scope) == shape::emit_opt_multiplicity_step(
                    old(self)@,
                    owner,
                    *mult,
                    scope,
                )
            );
        }
        if let Some(m) = mult {
            self.emit_multiplicity(owner, m, scope);
        }
    }

    /// A feature chain expression over `base`.
    pub fn chain_members(
        &mut self,
        base: &Expr,
        links: &Vec<QualifiedName>,
        rel: usize,
        scope: usize,
        seg: &str,
    ) -> (r: usize)
        requires
            old(self)@.wf(),
            rel < old(self)@.n(),
            scope < old(self)@.ns(),
            links@.len() > 0,
        ensures
            (final(self)@, r) == shape::chain_members(old(self)@, *base, qns_view(links@), rel, scope, seg@),
            r < final(self)@.n(),
            final(self)@.wf(),
            final(self)@.n() >= old(self)@.n(),
            final(self)@.ns() >= old(self)@.ns(),
        decreases base, 12int,
    {
        proof {
            reveal(shape::member_links_from);
        }
        proof {
            reveal(shape::chain_members_step);
            assert(
                shape::chain_members(old(self)@, *base, qns_view(links@), rel, scope, seg@) == shape::chain_members_step(
                    old(self)@,
                    *base,
                    qns_view(links@),
                    rel,
                    scope,
                    seg@,
                )
            );
        }
        let e: usize = self.fixed_operator_expr("FeatureChainExpression", rel, seg, ".");
        self.operand_at(e, base, scope, 0);
        let spine = chain_spine(base);
        if links.len() > 1 {
            let m: usize = self.new_explicit("OwningMembership", e, "member");
            let feature: usize = self.new_owned_element("Feature", m, "memberElement.chain");
            let ghost start = self@;
            let mut k: usize = 0;
            while k < links.len()
                invariant
                    k <= links@.len(),
                    self@.wf(),
                    feature < self@.n(),
                    scope < self@.ns(),
                    self@.n() >= start.n(),
                    self@.ns() >= start.ns(),
                    shape::member_links_from(
                        self@,
                        qns_view(links@),
                        opt_chain(spine),
                        feature,
                        scope,
                        k as int,
                    )
                        == shape::member_links_from(start, qns_view(links@), opt_chain(spine), feature, scope, 0),
                decreases links@.len() - k,
            {
                proof {
                    reveal(shape::member_links_from);
                }
                let seg = numbered_seg("chaining", k);
                let fc: usize = self.new_explicit("FeatureChaining", feature, seg.as_str());
                let chain = context_of(&spine, links, k);
                assert(qns_view(links@)[k as int] == links@[k as int]@);
                self.push_link(fc, "chainingFeature", scope, &links[k], chain);
                k += 1;
            }
            self.set_link(m, "memberElement", feature);
        } else {
            let m: usize = self.new_explicit("Membership", e, "member");
            assert(qns_view(links@)[0] == links@[0]@);
            self.push_link(m, "memberElement", scope, &links[0], spine);
        }
        e
    }

    /// A chain of member steps by name, over the innermost expression.
    pub fn chain_step(
        &mut self,
        base: &Expr,
        links: Vec<QualifiedName>,
        rel: usize,
        scope: usize,
        seg: &str,
    ) -> (r: usize)
        requires
            old(self)@.wf(),
            rel < old(self)@.n(),
            scope < old(self)@.ns(),
            links@.len() > 0,
        ensures
            (final(self)@, r) == shape::chain_step(old(self)@, *base, qns_view(links@), rel, scope, seg@),
            r < final(self)@.n(),
            final(self)@.wf(),
            final(self)@.n() >= old(self)@.n(),
            final(self)@.ns() >= old(self)@.ns(),
        decreases base, 13int,
    {
        proof {
            reveal(shape::chain_step_step);
            assert(
                shape::chain_step(old(self)@, *base, qns_view(links@), rel, scope, seg@) == shape::chain_step_step(
                    old(self)@,
                    *base,
                    qns_view(links@),
                    rel,
                    scope,
                    seg@,
                )
            );
        }
        match &base.kind {
            ExprKind::ChainStep { target, member } => match member {
                TargetRef::Name(qn) => {
                    let ghost before = qns_view(links@);
                    let mut longer = single_link(qn);
                    let mut rest = links;
                    longer.append(&mut rest);
                    assert(qns_view(longer@) =~= seq![qn@] + before);
                    self.chain_step(target, longer, rel, scope, seg)
                },
                TargetRef::Chain(_) => self.chain_members(base, &links, rel, scope, seg),
            },
            _ => self.chain_members(base, &links, rel, scope, seg),
        }
    }
}

} // verus!
