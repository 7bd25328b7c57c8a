//! What the lowering of an expression looks like in the graph, and what it
//! leaves alone there.
use crate::ast::{
    Arg, ArrowArgs, ClassificationOp, Expr, ExprKind, Literal, Multiplicity, Name, QnV, QualifiedName,
    TargetRef,
};
use crate::props::ValueV;
use crate::state::{BV, ElemV, PendingV};
use crate::syntax::{chain_spine_spec, literal_int_spec};
use crate::tables::{binary_op_text, unary_op_text, classification_op_text};
use crate::text::{joined, numbered};
use crate::shape::{
    arg_expr, arg_expr_step, argument, argument_step, arguments, arguments_from, arrow_args,
    arrow_args_step, build_expr, build_expr_step, build_literal, build_members, callee_chain_spec,
    chain_links_from, chain_members, chain_members_step, chain_step, chain_step_by_chain,
    chain_step_by_chain_step, chain_step_step, classification, classification_step,
    classified_operand, classified_operand_step, emit_bounds, emit_bounds_step, emit_lower_bound,
    emit_lower_bound_step, fixed_operator_expr, link_context, link_pending, member_links_from,
    meta_target_spec, metadata_access, new_explicit, open_invocation, operand_at, operand_at_step,
    operand_slot, operands, operands_from, operator_expr, param_wrapped_expr,
    param_wrapped_expr_step, preceding_spec, reference_expr, self_reference, set_chain, set_ref,
    set_ref_excluding, single_link_spec, type_parameter,
};
use std::rc::Rc;
use vstd::prelude::*;

verus! {

/// The value that a shared one is.
spec fn rc<T>(x: Rc<T>) -> T {
    *x
}

/// Whether no part of an expression is a body with members of its own.
pub open spec fn bodiless(expr: Expr) -> bool
    decreases expr, 1int,
{
    match expr.kind {
        ExprKind::Body { .. } => false,
        ExprKind::Conditional { cond, then_branch, else_branch } => bodiless(*cond) && bodiless(
            *then_branch,
        ) && bodiless(*else_branch),
        ExprKind::Binary { lhs, rhs, .. } => bodiless(*lhs) && bodiless(*rhs),
        ExprKind::Unary { operand, .. } => bodiless(*operand),
        ExprKind::Classification { operand, .. } => match operand {
            Some(x) => bodiless(*x),
            None => true,
        },
        ExprKind::ChainStep { target, .. } => bodiless(*target),
        ExprKind::Index { target, index } => bodiless(*target) && bodiless(*index),
        ExprKind::Bracket { target, arg } => bodiless(*target) && bodiless(*arg),
        ExprKind::Arrow { target, args, .. } => bodiless(*target) && bodiless_arrow(args),
        ExprKind::Collect { target, body } => bodiless(*target) && bodiless(*body),
        ExprKind::Select { target, body } => bodiless(*target) && bodiless(*body),
        ExprKind::Invocation { args, .. } => bodiless_args(args, 0),
        ExprKind::Constructor { args, .. } => bodiless_args(args, 0),
        ExprKind::Sequence(items) => bodiless_items(items, 0),
        _ => true,
    }
}

pub open spec fn bodiless_arrow(args: ArrowArgs) -> bool
    decreases args, 1int,
{
    match args {
        ArrowArgs::Body(body) => bodiless(*body),
        ArrowArgs::FunctionRef(_) => true,
        ArrowArgs::List(list) => bodiless_args(list, 0),
    }
}

pub open spec fn bodiless_args(args: Vec<Arg>, k: int) -> bool
    decreases args, args@.len() - k,
{
    if 0 <= k < args@.len() {
        bodiless(*args@[k].value) && bodiless_args(args, k + 1)
    } else {
        true
    }
}

pub open spec fn bodiless_items(items: Vec<Rc<Expr>>, k: int) -> bool
    decreases items, items@.len() - k,
{
    if 0 <= k < items@.len() {
        bodiless(*items@[k]) && bodiless_items(items, k + 1)
    } else {
        true
    }
}

/// Whether of the elements of a graph only one was changed.
pub open spec fn kept(a: BV, b: BV, x: usize) -> bool {
    &&& b.n() >= a.n()
    &&& b.n() <= usize::MAX ==> {
        &&& forall|i: int|
            0 <= i < a.n() && i != x ==> #[trigger] b.elements[i] == a.elements[i]
        &&& x < a.n() ==> {
            &&& b.elements[x as int].ty == a.elements[x as int].ty
            &&& b.elements[x as int].owning == a.elements[x as int].owning
            &&& b.elements[x as int].carrier == a.elements[x as int].carrier
        }
    }
}

/// Whether an element was not there before.
spec fn fresh(a: BV, b: BV, e: usize) -> bool {
    &&& e < b.n()
    &&& b.n() <= usize::MAX ==> a.n() <= e
}

/// Whether one element more is owned through a relationship, the first of those
/// that were added.
pub open spec fn placed(a: BV, b: BV, rel: usize, e: usize) -> bool {
    &&& kept(a, b, rel)
    &&& e < b.n()
    &&& b.n() <= usize::MAX ==> {
        &&& e == a.n()
        &&& b.elements[rel as int] == (ElemV {
            children: a.elements[rel as int].children.push(e),
            ..a.elements[rel as int]
        })
        &&& b.elements[e as int].owning == Some(rel)
    }
}

/// Whether an element owns one relationship more, which alone was added.
spec fn hung(a: BV, b: BV, owner: usize, r: usize) -> bool {
    &&& kept(a, b, owner)
    &&& b.n() == a.n() + 1
    &&& r < b.n()
    &&& b.n() <= usize::MAX ==> {
        &&& r == a.n()
        &&& b.elements[owner as int] == (ElemV {
            owned: a.elements[owner as int].owned.push(r),
            ..a.elements[owner as int]
        })
        &&& b.elements[r as int].carrier == Some(owner)
        &&& b.elements[r as int].owned.len() == 0
        &&& b.elements[r as int].children.len() == 0
    }
}

#[verifier::spinoff_prover]
proof fn keep_chain_links_from(
    b: BV,
    links: Vec<QualifiedName>,
    m: int,
    feature: usize,
    scope: usize,
    exclude: Option<usize>,
    k: int,
)
    requires
        feature < b.n(),
    ensures
        kept(b, chain_links_from(b, links, m, feature, scope, exclude, k), feature),
    decreases m - k,
{
    reveal(chain_links_from);
    reveal(BV::set);
    reveal(BV::set_bool);
    reveal(BV::new_relationship);
    reveal(BV::push_pending);
    let _out = {
        if 0 <= k < m {
            let (b, fc) = b.new_relationship("FeatureChaining"@, feature, numbered("chaining"@, k as usize));
            let b = b.set_bool(fc, "isImplied"@, false);
            let b = b.push_pending(
                PendingV {
                    elem: fc,
                    key: "chainingFeature"@,
                    index: None,
                    scope,
                    qn: links@[k]@,
                    exclude: if exclude is Some { exclude } else { b.pending_exclude },
                    declared_only: false,
                    chain: preceding_spec(links, k as usize),
                    spec_idx: None,
                },
            );
            keep_chain_links_from(b, links, m, feature, scope, exclude, k + 1);
            chain_links_from(b, links, m, feature, scope, exclude, k + 1)
        } else {
            b
        }
    };
}

#[verifier::spinoff_prover]
proof fn keep_set_chain(
    b: BV,
    e: usize,
    key: Seq<char>,
    scope: usize,
    links: Vec<QualifiedName>,
    m: nat,
    exclude: Option<usize>,
)
    requires
        e < b.n(),
    ensures
        kept(b, set_chain(b, e, key, scope, links, m, exclude), e),
{
    reveal(set_chain);
    reveal(BV::set);
    reveal(BV::set_link);
    reveal(BV::new_owned_element);
    let _out = {
        let (b, feature) = b.new_owned_element("Feature"@, e, joined(key, ".chain"@));
        keep_chain_links_from(b, links, m as int, feature, scope, exclude, 0);
        let b = chain_links_from(b, links, m as int, feature, scope, exclude, 0);
        b.set_link(e, key, feature)
    };
}

#[verifier::spinoff_prover]
proof fn keep_set_ref_excluding(
    b: BV,
    e: usize,
    key: Seq<char>,
    scope: usize,
    target: TargetRef,
    exclude: Option<usize>,
)
    requires
        e < b.n(),
    ensures
        kept(b, set_ref_excluding(b, e, key, scope, target, exclude), e),
{
    reveal(set_ref_excluding);
    reveal(BV::push_pending);
    reveal(BV::ref_name);
    reveal(BV::set_spec_idx);
    let _out = {
        let b = match target {
            TargetRef::Name(qn) => {
                let b = b.ref_name(e, key, None, scope, qn@, exclude);
                b
            },
            TargetRef::Chain(links) => {
                keep_set_chain(b, e, key, scope, links, links@.len(), exclude);
                let b = set_chain(b, e, key, scope, links, links@.len(), exclude);
                b
            },
        };
        b
    };
}

#[verifier::spinoff_prover]
proof fn keep_set_ref(b: BV, e: usize, key: Seq<char>, scope: usize, target: TargetRef)
    requires
        e < b.n(),
    ensures
        kept(b, set_ref(b, e, key, scope, target), e),
{
    reveal(set_ref);
    let _out = {
        keep_set_ref_excluding(b, e, key, scope, target, None);
        let b = set_ref_excluding(b, e, key, scope, target, None);
        b
    };
}

#[verifier::spinoff_prover]
proof fn keep_new_explicit(b: BV, ty: Seq<char>, owner: usize, seg: Seq<char>)
    requires
        owner < b.n(),
    ensures
        hung(b, new_explicit(b, ty, owner, seg).0, owner, new_explicit(b, ty, owner, seg).1),
{
    reveal(new_explicit);
    reveal(BV::set);
    reveal(BV::set_bool);
    reveal(BV::new_relationship);
    let _out = {
        let (b, rel) = b.new_relationship(ty, owner, seg);
        let b = b.set_bool(rel, "isImplied"@, false);
        (b, rel)
    };
}

#[verifier::spinoff_prover]
proof fn keep_build_literal(b: BV, lit: Literal, rel: usize, seg: Seq<char>)
    requires
        rel < b.n(),
    ensures
        placed(b, build_literal(b, lit, rel, seg).0, rel, build_literal(b, lit, rel, seg).1),
{
    reveal(build_literal);
    reveal(BV::set);
    reveal(BV::set_bool);
    reveal(BV::set_str);
    reveal(BV::new_owned_element);
    let _out = {
        match lit {
            Literal::Bool(v) => {
                let (b, e) = b.new_owned_element("LiteralBoolean"@, rel, seg);
                let b = b.set_bool(e, "value"@, v);
                (b, e)
            },
            Literal::Text(s) => {
                let (b, e) = b.new_owned_element("LiteralString"@, rel, seg);
                let b = b.set_str(e, "value"@, s@);
                (b, e)
            },
            Literal::Integer(n) => {
                let (b, e) = b.new_owned_element("LiteralInteger"@, rel, seg);
                let b = match literal_int_spec(n@) {
                    Some(v) => {
                        let b = b.set(e, "value"@, ValueV::Int(v));
                        b
                    },
                    None => {
                        let b = b.set_str(e, "value"@, n@);
                        b
                    },
                };
                (b, e)
            },
            Literal::Real(r) => {
                let (b, e) = b.new_owned_element("LiteralRational"@, rel, seg);
                let b = b.set(e, "value"@, ValueV::Real(r@));
                (b, e)
            },
            Literal::Infinity => {
                b.new_owned_element("LiteralInfinity"@, rel, seg)
            },
        }
    };
}

#[verifier::spinoff_prover]
proof fn keep_operator_expr(b: BV, rel: usize, seg: Seq<char>, operator: Seq<char>)
    requires
        rel < b.n(),
    ensures
        placed(b, operator_expr(b, rel, seg, operator).0, rel, operator_expr(b, rel, seg, operator).1),
{
    reveal(operator_expr);
    reveal(BV::set);
    reveal(BV::set_str);
    reveal(BV::new_owned_element);
    let _out = {
        let (b, e) = b.new_owned_element("OperatorExpression"@, rel, seg);
        let b = b.set_str(e, "operator"@, operator);
        (b, e)
    };
}

#[verifier::spinoff_prover]
proof fn keep_fixed_operator_expr(
    b: BV,
    ty: Seq<char>,
    rel: usize,
    seg: Seq<char>,
    operator: Seq<char>,
)
    requires
        rel < b.n(),
    ensures
        placed(b, fixed_operator_expr(b, ty, rel, seg, operator).0, rel, fixed_operator_expr(b, ty, rel, seg, operator).1),
{
    reveal(fixed_operator_expr);
    reveal(BV::set);
    reveal(BV::set_str);
    reveal(BV::new_owned_element);
    let _out = {
        let (b, e) = b.new_owned_element(ty, rel, seg);
        let b = b.set_str(e, "operator"@, operator);
        (b, e)
    };
}

#[verifier::spinoff_prover]
proof fn keep_reference_expr(b: BV, qn: QnV, rel: usize, scope: usize, seg: Seq<char>)
    requires
        rel < b.n(),
    ensures
        placed(b, reference_expr(b, qn, rel, scope, seg).0, rel, reference_expr(b, qn, rel, scope, seg).1),
{
    reveal(reference_expr);
    reveal(BV::new_owned_element);
    reveal(BV::push_pending);
    reveal(BV::ref_name);
    reveal(BV::set_spec_idx);
    let _out = {
        let (b, e) = b.new_owned_element("FeatureReferenceExpression"@, rel, seg);
        keep_new_explicit(b, "Membership"@, e, "ref"@);
        let (b, m) = new_explicit(b, "Membership"@, e, "ref"@);
        let b = b.ref_name(m, "memberElement"@, None, scope, qn, None);
        (b, e)
    };
}

#[verifier::spinoff_prover]
proof fn keep_metadata_access(b: BV, qn: QnV, rel: usize, scope: usize, seg: Seq<char>)
    requires
        rel < b.n(),
    ensures
        placed(b, metadata_access(b, qn, rel, scope, seg).0, rel, metadata_access(b, qn, rel, scope, seg).1),
{
    reveal(metadata_access);
    reveal(BV::new_owned_element);
    reveal(BV::push_pending);
    reveal(BV::ref_name);
    reveal(BV::set_spec_idx);
    let _out = {
        let (b, e) = b.new_owned_element("MetadataAccessExpression"@, rel, seg);
        keep_new_explicit(b, "Membership"@, e, "element"@);
        let (b, m) = new_explicit(b, "Membership"@, e, "element"@);
        let b = b.ref_name(m, "memberElement"@, None, scope, qn, None);
        (b, e)
    };
}

#[verifier::spinoff_prover]
proof fn keep_type_parameter(
    b: BV,
    e: usize,
    m_ty: Seq<char>,
    dir: Seq<char>,
    ty: TargetRef,
    scope: usize,
)
    requires
        e < b.n(),
    ensures
        kept(b, type_parameter(b, e, m_ty, dir, ty, scope), e),
{
    reveal(type_parameter);
    reveal(BV::set);
    reveal(BV::set_str);
    reveal(BV::set_link);
    reveal(BV::new_owned_element);
    let _out = {
        keep_new_explicit(b, m_ty, e, "type"@);
        let (b, m) = new_explicit(b, m_ty, e, "type"@);
        let (b, f) = b.new_owned_element("Feature"@, m, "typeref"@);
        let b = b.set_str(f, "direction"@, dir);
        keep_new_explicit(b, "FeatureTyping"@, f, "typing"@);
        let (b, ft) = new_explicit(b, "FeatureTyping"@, f, "typing"@);
        keep_set_ref(b, ft, "type"@, scope, ty);
        let b = set_ref(b, ft, "type"@, scope, ty);
        let b = b.set_link(ft, "typedFeature"@, f);
        b
    };
}

#[verifier::spinoff_prover]
proof fn keep_operand_slot(b: BV, e: usize)
    requires
        e < b.n(),
    ensures
        kept(b, operand_slot(b, e).0, e),
        fresh(b, operand_slot(b, e).0, operand_slot(b, e).1),
{
    reveal(operand_slot);
    reveal(BV::set);
    reveal(BV::set_str);
    reveal(BV::new_owned_element);
    let _out = {
        keep_new_explicit(b, "ParameterMembership"@, e, "operand0"@);
        let (b, m) = new_explicit(b, "ParameterMembership"@, e, "operand0"@);
        let b = b.set_str(m, "visibility"@, "private"@);
        let (b, f) = b.new_owned_element("Feature"@, m, "param"@);
        let b = b.set_str(f, "direction"@, "in"@);
        keep_new_explicit(b, "FeatureValue"@, f, "value"@);
        let (b, fv) = new_explicit(b, "FeatureValue"@, f, "value"@);
        (b, fv)
    };
}

#[verifier::spinoff_prover]
proof fn keep_self_reference(b: BV, e: usize)
    requires
        e < b.n(),
    ensures
        kept(b, self_reference(b, e), e),
{
    reveal(self_reference);
    reveal(BV::new_owned_element);
    let _out = {
        keep_operand_slot(b, e);
        let (b, fv) = operand_slot(b, e);
        let (b, fre) = b.new_owned_element("FeatureReferenceExpression"@, fv, "expr"@);
        keep_new_explicit(b, "ReturnParameterMembership"@, fre, "self"@);
        let (b, sm) = new_explicit(b, "ReturnParameterMembership"@, fre, "self"@);
        let b = b.new_owned_element("Feature"@, sm, "selfref"@).0;
        b
    };
}

#[verifier::spinoff_prover]
proof fn keep_param_wrapped_expr(b: BV, membership: usize, expr: Expr, scope: usize, private: bool)
    requires
        membership < b.n(),
        bodiless(expr),
    ensures
        kept(b, param_wrapped_expr(b, membership, expr, scope, private), membership),
    decreases expr, 21int,
{
    let _out = {
        keep_param_wrapped_expr_step(b, membership, expr, scope, private);
        param_wrapped_expr_step(b, membership, expr, scope, private)
    };
    assert(param_wrapped_expr(b, membership, expr, scope, private) == param_wrapped_expr_step(b, membership, expr, scope, private));
}

#[verifier::spinoff_prover]
proof fn keep_param_wrapped_expr_step(
    b: BV,
    membership: usize,
    expr: Expr,
    scope: usize,
    private: bool,
)
    requires
        membership < b.n(),
        bodiless(expr),
    ensures
        kept(b, param_wrapped_expr_step(b, membership, expr, scope, private), membership),
    decreases expr, 20int,
{
    reveal(param_wrapped_expr_step);
    reveal(BV::set);
    reveal(BV::set_str);
    reveal(BV::new_owned_element);
    let _out = {
        let b = if private {
            let b = b.set_str(membership, "visibility"@, "private"@);
            b
        } else {
            b
        };
        let (b, f) = b.new_owned_element("Feature"@, membership, "param"@);
        let b = b.set_str(f, "direction"@, "in"@);
        keep_new_explicit(b, "FeatureValue"@, f, "value"@);
        let (b, fv) = new_explicit(b, "FeatureValue"@, f, "value"@);
        keep_build_expr(b, expr, fv, scope, "expr"@);
        let b = build_expr(b, expr, fv, scope, "expr"@).0;
        b
    };
}

#[verifier::spinoff_prover]
proof fn keep_operand_at(b: BV, parent: usize, operand: Expr, scope: usize, i: usize)
    requires
        parent < b.n(),
        bodiless(operand),
    ensures
        kept(b, operand_at(b, parent, operand, scope, i), parent),
    decreases operand, 23int,
{
    let _out = {
        keep_operand_at_step(b, parent, operand, scope, i);
        operand_at_step(b, parent, operand, scope, i)
    };
    assert(operand_at(b, parent, operand, scope, i) == operand_at_step(b, parent, operand, scope, i));
}

#[verifier::spinoff_prover]
proof fn keep_operand_at_step(b: BV, parent: usize, operand: Expr, scope: usize, i: usize)
    requires
        parent < b.n(),
        bodiless(operand),
    ensures
        kept(b, operand_at_step(b, parent, operand, scope, i), parent),
    decreases operand, 22int,
{
    reveal(operand_at_step);
    let _out = {
        let seg = numbered("operand"@, i);
        keep_new_explicit(b, "ParameterMembership"@, parent, seg);
        let (b, m) = new_explicit(b, "ParameterMembership"@, parent, seg);
        keep_param_wrapped_expr(b, m, operand, scope, true);
        let b = param_wrapped_expr(b, m, operand, scope, true);
        b
    };
}

#[verifier::spinoff_prover]
proof fn keep_arg_expr(b: BV, parent: usize, expr: Expr, scope: usize, i: usize)
    requires
        parent < b.n(),
        bodiless(expr),
    ensures
        kept(b, arg_expr(b, parent, expr, scope, i), parent),
    decreases expr, 23int,
{
    let _out = {
        keep_arg_expr_step(b, parent, expr, scope, i);
        arg_expr_step(b, parent, expr, scope, i)
    };
    assert(arg_expr(b, parent, expr, scope, i) == arg_expr_step(b, parent, expr, scope, i));
}

#[verifier::spinoff_prover]
proof fn keep_arg_expr_step(b: BV, parent: usize, expr: Expr, scope: usize, i: usize)
    requires
        parent < b.n(),
        bodiless(expr),
    ensures
        kept(b, arg_expr_step(b, parent, expr, scope, i), parent),
    decreases expr, 22int,
{
    reveal(arg_expr_step);
    let _out = {
        let seg = numbered("arg"@, i);
        keep_new_explicit(b, "ParameterMembership"@, parent, seg);
        let (b, m) = new_explicit(b, "ParameterMembership"@, parent, seg);
        keep_param_wrapped_expr(b, m, expr, scope, false);
        let b = param_wrapped_expr(b, m, expr, scope, false);
        b
    };
}

#[verifier::spinoff_prover]
proof fn keep_argument(b: BV, parent: usize, arg: Arg, scope: usize, i: usize, callee: TargetRef)
    requires
        parent < b.n(),
        bodiless(*arg.value),
    ensures
        kept(b, argument(b, parent, arg, scope, i, callee), parent),
    decreases arg, 3int,
{
    let _out = {
        keep_argument_step(b, parent, arg, scope, i, callee);
        argument_step(b, parent, arg, scope, i, callee)
    };
    assert(argument(b, parent, arg, scope, i, callee) == argument_step(b, parent, arg, scope, i, callee));
}

#[verifier::spinoff_prover]
proof fn keep_argument_step(
    b: BV,
    parent: usize,
    arg: Arg,
    scope: usize,
    i: usize,
    callee: TargetRef,
)
    requires
        parent < b.n(),
        bodiless(*arg.value),
    ensures
        kept(b, argument_step(b, parent, arg, scope, i, callee), parent),
    decreases arg, 2int,
{
    reveal(argument_step);
    reveal(BV::set);
    reveal(BV::set_str);
    reveal(BV::set_link);
    reveal(BV::new_owned_element);
    reveal(BV::push_pending);
    let _out = {
        let seg = numbered("arg"@, i);
        keep_new_explicit(b, "ParameterMembership"@, parent, seg);
        let (b, m) = new_explicit(b, "ParameterMembership"@, parent, seg);
        let b = match arg.name {
            Some(name) => {
                let (b, f) = b.new_owned_element("Feature"@, m, "param"@);
                let b = b.set_str(f, "direction"@, "in"@);
                keep_new_explicit(b, "Redefinition"@, f, "redef"@);
                let (b, rd) = new_explicit(b, "Redefinition"@, f, "redef"@);
                let b = b.set_link(rd, "redefiningFeature"@, f);
                let b = b.push_pending(
                    PendingV {
                        elem: rd,
                        key: "redefinedFeature"@,
                        index: None,
                        scope: scope,
                        qn: name@,
                        exclude: None,
                        declared_only: false,
                        chain: callee_chain_spec(callee),
                        spec_idx: None,
                    }
                );
                keep_new_explicit(b, "FeatureValue"@, f, "value"@);
                let (b, fv) = new_explicit(b, "FeatureValue"@, f, "value"@);
                keep_build_expr(b, rc(arg.value), fv, scope, "expr"@);
                let b = build_expr(b, rc(arg.value), fv, scope, "expr"@).0;
                b
            },
            _ => {
                keep_param_wrapped_expr(b, m, rc(arg.value), scope, false);
                let b = param_wrapped_expr(b, m, rc(arg.value), scope, false);
                b
            },
        };
        b
    };
}

#[verifier::spinoff_prover]
proof fn keep_arguments_from(
    b: BV,
    args: Vec<Arg>,
    e: usize,
    scope: usize,
    ty: TargetRef,
    base: usize,
    k: int,
)
    requires
        e < b.n(),
        bodiless_args(args, k),
    ensures
        kept(b, arguments_from(b, args, e, scope, ty, base, k), e),
    decreases args, args@.len() - k,
{
    let _out = {
        if 0 <= k < args@.len() {
            let x = args@[k];
            let i = k as usize;
            let num = (base + k) as usize;
            keep_argument(b, e, x, scope, num, ty);
            let b = argument(b, e, x, scope, num, ty);
            keep_arguments_from(b, args, e, scope, ty, base, k + 1);
            arguments_from(b, args, e, scope, ty, base, k + 1)
        } else {
            b
        }
    };
}

#[verifier::spinoff_prover]
proof fn keep_arguments(b: BV, args: Vec<Arg>, e: usize, scope: usize, ty: TargetRef, base: usize)
    requires
        e < b.n(),
        bodiless_args(args, 0),
    ensures
        kept(b, arguments(b, args, e, scope, ty, base), e),
    decreases args, args@.len() + 1,
{
    let _out = {
        keep_arguments_from(b, args, e, scope, ty, base, 0);
        arguments_from(b, args, e, scope, ty, base, 0)
    };
}

#[verifier::spinoff_prover]
proof fn keep_operands_from(b: BV, items: Vec<Rc<Expr>>, e: usize, scope: usize, k: int)
    requires
        e < b.n(),
        bodiless_items(items, k),
    ensures
        kept(b, operands_from(b, items, e, scope, k), e),
    decreases items, items@.len() - k,
{
    let _out = {
        if 0 <= k < items@.len() {
            let x = items@[k];
            let i = k as usize;
            keep_operand_at(b, e, rc(x), scope, i);
            let b = operand_at(b, e, rc(x), scope, i);
            keep_operands_from(b, items, e, scope, k + 1);
            operands_from(b, items, e, scope, k + 1)
        } else {
            b
        }
    };
}

#[verifier::spinoff_prover]
proof fn keep_operands(b: BV, items: Vec<Rc<Expr>>, e: usize, scope: usize)
    requires
        e < b.n(),
        bodiless_items(items, 0),
    ensures
        kept(b, operands(b, items, e, scope), e),
    decreases items, items@.len() + 1,
{
    let _out = {
        keep_operands_from(b, items, e, scope, 0);
        operands_from(b, items, e, scope, 0)
    };
}

#[verifier::spinoff_prover]
proof fn keep_open_invocation(
    b: BV,
    class: Seq<char>,
    rel: usize,
    seg: Seq<char>,
    role: Seq<char>,
    ty: TargetRef,
    scope: usize,
)
    requires
        rel < b.n(),
    ensures
        placed(b, open_invocation(b, class, rel, seg, role, ty, scope).0, rel, open_invocation(b, class, rel, seg, role, ty, scope).1),
{
    reveal(open_invocation);
    reveal(BV::new_owned_element);
    let _out = {
        let (b, e) = b.new_owned_element(class, rel, seg);
        keep_new_explicit(b, "Membership"@, e, role);
        let (b, m) = new_explicit(b, "Membership"@, e, role);
        keep_set_ref(b, m, "memberElement"@, scope, ty);
        let b = set_ref(b, m, "memberElement"@, scope, ty);
        (b, e)
    };
}

#[verifier::spinoff_prover]
proof fn keep_classified_operand(
    b: BV,
    op: ClassificationOp,
    operand: Option<Rc<Expr>>,
    e: usize,
    scope: usize,
)
    requires
        e < b.n(),
        operand matches Some(x) ==> bodiless(*x),
    ensures
        kept(b, classified_operand(b, op, operand, e, scope), e),
    decreases operand, 5int,
{
    let _out = {
        keep_classified_operand_step(b, op, operand, e, scope);
        classified_operand_step(b, op, operand, e, scope)
    };
    assert(classified_operand(b, op, operand, e, scope) == classified_operand_step(b, op, operand, e, scope));
}

#[verifier::spinoff_prover]
proof fn keep_classified_operand_step(
    b: BV,
    op: ClassificationOp,
    operand: Option<Rc<Expr>>,
    e: usize,
    scope: usize,
)
    requires
        e < b.n(),
        operand matches Some(x) ==> bodiless(*x),
    ensures
        kept(b, classified_operand_step(b, op, operand, e, scope), e),
    decreases operand, 4int,
{
    reveal(classified_operand_step);
    let _out = {
        let b = match operand {
            Some(x) => {
                let b = match meta_target_spec(op, rc(x)) {
                    Some(qn) => {
                        keep_operand_slot(b, e);
                        let (b, fv) = operand_slot(b, e);
                        keep_metadata_access(b, qn@, fv, scope, "expr"@);
                        let b = metadata_access(b, qn@, fv, scope, "expr"@).0;
                        b
                    },
                    None => {
                        keep_operand_at(b, e, rc(x), scope, 0);
                        let b = operand_at(b, e, rc(x), scope, 0);
                        b
                    },
                };
                b
            },
            _ => {
                keep_self_reference(b, e);
                let b = self_reference(b, e);
                b
            },
        };
        b
    };
}

#[verifier::spinoff_prover]
proof fn keep_classification(
    b: BV,
    op: ClassificationOp,
    operand: Option<Rc<Expr>>,
    ty: TargetRef,
    rel: usize,
    scope: usize,
    seg: Seq<char>,
)
    requires
        rel < b.n(),
        operand matches Some(x) ==> bodiless(*x),
    ensures
        placed(b, classification(b, op, operand, ty, rel, scope, seg).0, rel, classification(b, op, operand, ty, rel, scope, seg).1),
    decreases operand, 7int,
{
    let _out = {
        keep_classification_step(b, op, operand, ty, rel, scope, seg);
        classification_step(b, op, operand, ty, rel, scope, seg)
    };
    assert(classification(b, op, operand, ty, rel, scope, seg) == classification_step(b, op, operand, ty, rel, scope, seg));
}

#[verifier::spinoff_prover]
proof fn keep_classification_step(
    b: BV,
    op: ClassificationOp,
    operand: Option<Rc<Expr>>,
    ty: TargetRef,
    rel: usize,
    scope: usize,
    seg: Seq<char>,
)
    requires
        rel < b.n(),
        operand matches Some(x) ==> bodiless(*x),
    ensures
        placed(b, classification_step(b, op, operand, ty, rel, scope, seg).0, rel, classification_step(b, op, operand, ty, rel, scope, seg).1),
    decreases operand, 6int,
{
    reveal(classification_step);
    let _out = {
        keep_operator_expr(b, rel, seg, classification_op_text(op));
        let (b, e) = operator_expr(b, rel, seg, classification_op_text(op));
        keep_classified_operand(b, op, operand, e, scope);
        let b = classified_operand(b, op, operand, e, scope);
        let b = if op == ClassificationOp::As || op == ClassificationOp::Meta {
            keep_type_parameter(b, e, "ReturnParameterMembership"@, "out"@, ty, scope);
            let b = type_parameter(b, e, "ReturnParameterMembership"@, "out"@, ty, scope);
            b
        } else {
            keep_type_parameter(b, e, "ParameterMembership"@, "in"@, ty, scope);
            let b = type_parameter(b, e, "ParameterMembership"@, "in"@, ty, scope);
            b
        };
        (b, e)
    };
}

#[verifier::spinoff_prover]
proof fn keep_arrow_args(b: BV, e: usize, args: ArrowArgs, ty: TargetRef, scope: usize)
    requires
        e < b.n(),
        bodiless_arrow(args),
    ensures
        kept(b, arrow_args(b, e, args, ty, scope), e),
    decreases args, 7int,
{
    let _out = {
        keep_arrow_args_step(b, e, args, ty, scope);
        arrow_args_step(b, e, args, ty, scope)
    };
    assert(arrow_args(b, e, args, ty, scope) == arrow_args_step(b, e, args, ty, scope));
}

#[verifier::spinoff_prover]
proof fn keep_arrow_args_step(b: BV, e: usize, args: ArrowArgs, ty: TargetRef, scope: usize)
    requires
        e < b.n(),
        bodiless_arrow(args),
    ensures
        kept(b, arrow_args_step(b, e, args, ty, scope), e),
    decreases args, 6int,
{
    reveal(arrow_args_step);
    reveal(BV::push_pending);
    reveal(BV::ref_name);
    reveal(BV::set_spec_idx);
    let _out = {
        let b = match args {
            ArrowArgs::Body(body) => {
                keep_arg_expr(b, e, rc(body), scope, 1);
                let b = arg_expr(b, e, rc(body), scope, 1);
                b
            },
            ArrowArgs::FunctionRef(f) => {
                keep_new_explicit(b, "FeatureMembership"@, e, "fnref"@);
                let (b, fm) = new_explicit(b, "FeatureMembership"@, e, "fnref"@);
                let b = b.ref_name(fm, "memberElement"@, None, scope, f@, None);
                b
            },
            ArrowArgs::List(list) => {
                keep_arguments(b, list, e, scope, ty, 1);
                let b = arguments(b, list, e, scope, ty, 1);
                b
            },
        };
        b
    };
}

#[verifier::spinoff_prover]
proof fn keep_chain_step_by_chain(
    b: BV,
    target: Expr,
    member: TargetRef,
    rel: usize,
    scope: usize,
    seg: Seq<char>,
)
    requires
        rel < b.n(),
        bodiless(target),
    ensures
        placed(b, chain_step_by_chain(b, target, member, rel, scope, seg).0, rel, chain_step_by_chain(b, target, member, rel, scope, seg).1),
    decreases target, 29int,
{
    let _out = {
        keep_chain_step_by_chain_step(b, target, member, rel, scope, seg);
        chain_step_by_chain_step(b, target, member, rel, scope, seg)
    };
    assert(chain_step_by_chain(b, target, member, rel, scope, seg) == chain_step_by_chain_step(b, target, member, rel, scope, seg));
}

#[verifier::spinoff_prover]
proof fn keep_chain_step_by_chain_step(
    b: BV,
    target: Expr,
    member: TargetRef,
    rel: usize,
    scope: usize,
    seg: Seq<char>,
)
    requires
        rel < b.n(),
        bodiless(target),
    ensures
        placed(b, chain_step_by_chain_step(b, target, member, rel, scope, seg).0, rel, chain_step_by_chain_step(b, target, member, rel, scope, seg).1),
    decreases target, 28int,
{
    reveal(chain_step_by_chain_step);
    let _out = {
        keep_fixed_operator_expr(b, "FeatureChainExpression"@, rel, seg, "."@);
        let (b, e) = fixed_operator_expr(b, "FeatureChainExpression"@, rel, seg, "."@);
        keep_operand_at(b, e, target, scope, 0);
        let b = operand_at(b, e, target, scope, 0);
        keep_new_explicit(b, "Membership"@, e, "member"@);
        let (b, m) = new_explicit(b, "Membership"@, e, "member"@);
        keep_set_ref(b, m, "memberElement"@, scope, member);
        let b = set_ref(b, m, "memberElement"@, scope, member);
        (b, e)
    };
}

#[verifier::spinoff_prover]
proof fn keep_build_expr(b: BV, expr: Expr, rel: usize, scope: usize, seg: Seq<char>)
    requires
        rel < b.n(),
        bodiless(expr),
    ensures
        placed(b, build_expr(b, expr, rel, scope, seg).0, rel, build_expr(b, expr, rel, scope, seg).1),
    decreases expr, 19int,
{
    let _out = {
        keep_build_expr_step(b, expr, rel, scope, seg);
        build_expr_step(b, expr, rel, scope, seg)
    };
    assert(build_expr(b, expr, rel, scope, seg) == build_expr_step(b, expr, rel, scope, seg));
}

#[verifier::spinoff_prover]
#[verifier::rlimit(40)]
proof fn keep_build_expr_step(b: BV, expr: Expr, rel: usize, scope: usize, seg: Seq<char>)
    requires
        rel < b.n(),
        bodiless(expr),
    ensures
        placed(b, build_expr_step(b, expr, rel, scope, seg).0, rel, build_expr_step(b, expr, rel, scope, seg).1),
    decreases expr, 18int,
{
    reveal(build_expr_step);
    reveal(BV::new_owned_element);
    reveal(BV::push_scope);
    let _out = {
        match expr.kind {
            ExprKind::Literal(lit) => {
                keep_build_literal(b, lit, rel, seg);
                build_literal(b, lit, rel, seg)
            },
            ExprKind::Null => {
                b.new_owned_element("NullExpression"@, rel, seg)
            },
            ExprKind::Ref(qn) => {
                keep_reference_expr(b, qn@, rel, scope, seg);
                reference_expr(b, qn@, rel, scope, seg)
            },
            ExprKind::Conditional { cond, then_branch, else_branch } => {
                keep_operator_expr(b, rel, seg, "if"@);
                let (b, e) = operator_expr(b, rel, seg, "if"@);
                keep_operand_at(b, e, rc(cond), scope, 0);
                let b = operand_at(b, e, rc(cond), scope, 0);
                keep_operand_at(b, e, rc(then_branch), scope, 1);
                let b = operand_at(b, e, rc(then_branch), scope, 1);
                keep_operand_at(b, e, rc(else_branch), scope, 2);
                let b = operand_at(b, e, rc(else_branch), scope, 2);
                (b, e)
            },
            ExprKind::Binary { op, lhs, rhs } => {
                keep_operator_expr(b, rel, seg, binary_op_text(op));
                let (b, e) = operator_expr(b, rel, seg, binary_op_text(op));
                keep_operand_at(b, e, rc(lhs), scope, 0);
                let b = operand_at(b, e, rc(lhs), scope, 0);
                keep_operand_at(b, e, rc(rhs), scope, 1);
                let b = operand_at(b, e, rc(rhs), scope, 1);
                (b, e)
            },
            ExprKind::Unary { op, operand } => {
                keep_operator_expr(b, rel, seg, unary_op_text(op));
                let (b, e) = operator_expr(b, rel, seg, unary_op_text(op));
                keep_operand_at(b, e, rc(operand), scope, 0);
                let b = operand_at(b, e, rc(operand), scope, 0);
                (b, e)
            },
            ExprKind::Classification { op, operand, ty } => {
                keep_classification(b, op, operand, ty, rel, scope, seg);
                classification(b, op, operand, ty, rel, scope, seg)
            },
            ExprKind::Extent { ty } => {
                keep_operator_expr(b, rel, seg, "all"@);
                let (b, e) = operator_expr(b, rel, seg, "all"@);
                keep_type_parameter(b, e, "ReturnParameterMembership"@, "out"@, ty, scope);
                let b = type_parameter(b, e, "ReturnParameterMembership"@, "out"@, ty, scope);
                (b, e)
            },
            ExprKind::ChainStep { target, member } => {
                match member {
                    TargetRef::Name(qn) => {
                        keep_chain_step(b, rc(target), single_link_spec(qn), rel, scope, seg);
                        chain_step(b, rc(target), single_link_spec(qn), rel, scope, seg)
                    },
                    TargetRef::Chain(links) => {
                        keep_chain_step_by_chain(b, rc(target), member, rel, scope, seg);
                        chain_step_by_chain(b, rc(target), member, rel, scope, seg)
                    },
                }
            },
            ExprKind::Index { target, index } => {
                keep_fixed_operator_expr(b, "IndexExpression"@, rel, seg, "#"@);
                let (b, e) = fixed_operator_expr(b, "IndexExpression"@, rel, seg, "#"@);
                keep_operand_at(b, e, rc(target), scope, 0);
                let b = operand_at(b, e, rc(target), scope, 0);
                keep_operand_at(b, e, rc(index), scope, 1);
                let b = operand_at(b, e, rc(index), scope, 1);
                (b, e)
            },
            ExprKind::Bracket { target, arg } => {
                keep_operator_expr(b, rel, seg, "["@);
                let (b, e) = operator_expr(b, rel, seg, "["@);
                keep_operand_at(b, e, rc(target), scope, 0);
                let b = operand_at(b, e, rc(target), scope, 0);
                keep_operand_at(b, e, rc(arg), scope, 1);
                let b = operand_at(b, e, rc(arg), scope, 1);
                (b, e)
            },
            ExprKind::Arrow { target, ty, args } => {
                keep_open_invocation(b, "InvocationExpression"@, rel, seg, "fn"@, ty, scope);
                let (b, e) = open_invocation(b, "InvocationExpression"@, rel, seg, "fn"@, ty, scope);
                keep_arg_expr(b, e, rc(target), scope, 0);
                let b = arg_expr(b, e, rc(target), scope, 0);
                keep_arrow_args(b, e, args, ty, scope);
                let b = arrow_args(b, e, args, ty, scope);
                (b, e)
            },
            ExprKind::Collect { target, body } => {
                keep_fixed_operator_expr(b, "CollectExpression"@, rel, seg, "collect"@);
                let (b, e) = fixed_operator_expr(b, "CollectExpression"@, rel, seg, "collect"@);
                keep_operand_at(b, e, rc(target), scope, 0);
                let b = operand_at(b, e, rc(target), scope, 0);
                keep_operand_at(b, e, rc(body), scope, 1);
                let b = operand_at(b, e, rc(body), scope, 1);
                (b, e)
            },
            ExprKind::Select { target, body } => {
                keep_fixed_operator_expr(b, "SelectExpression"@, rel, seg, "select"@);
                let (b, e) = fixed_operator_expr(b, "SelectExpression"@, rel, seg, "select"@);
                keep_operand_at(b, e, rc(target), scope, 0);
                let b = operand_at(b, e, rc(target), scope, 0);
                keep_operand_at(b, e, rc(body), scope, 1);
                let b = operand_at(b, e, rc(body), scope, 1);
                (b, e)
            },
            ExprKind::Invocation { ty, args } => {
                keep_open_invocation(b, "InvocationExpression"@, rel, seg, "fn"@, ty, scope);
                let (b, e) = open_invocation(b, "InvocationExpression"@, rel, seg, "fn"@, ty, scope);
                keep_arguments(b, args, e, scope, ty, 0);
                let b = arguments(b, args, e, scope, ty, 0);
                (b, e)
            },
            ExprKind::Constructor { ty, args } => {
                keep_open_invocation(b, "ConstructorExpression"@, rel, seg, "type"@, ty, scope);
                let (b, e) = open_invocation(b, "ConstructorExpression"@, rel, seg, "type"@, ty, scope);
                keep_arguments(b, args, e, scope, ty, 0);
                let b = arguments(b, args, e, scope, ty, 0);
                (b, e)
            },
            ExprKind::Body { members } => {
                let (b, e) = b.new_owned_element("Expression"@, rel, seg);
                let (b, body) = b.push_scope(Some(scope));
                let b = build_members(b, members, e, body);
                (b, e)
            },
            ExprKind::BodyTerminator => {
                b.new_owned_element("Expression"@, rel, seg)
            },
            ExprKind::Sequence(items) => {
                keep_operator_expr(b, rel, seg, ","@);
                let (b, e) = operator_expr(b, rel, seg, ","@);
                keep_operands(b, items, e, scope);
                let b = operands(b, items, e, scope);
                (b, e)
            },
            ExprKind::MetadataAccess { target } => {
                keep_metadata_access(b, target@, rel, scope, seg);
                metadata_access(b, target@, rel, scope, seg)
            },
        }
    };
}

#[verifier::spinoff_prover]
proof fn keep_member_links_from(
    b: BV,
    links: Seq<QnV>,
    spine: Option<Seq<QnV>>,
    feature: usize,
    scope: usize,
    k: int,
)
    requires
        feature < b.n(),
    ensures
        kept(b, member_links_from(b, links, spine, feature, scope, k), feature),
    decreases links.len() - k,
{
    reveal(member_links_from);
    reveal(BV::push_pending);
    let _out = {
        if 0 <= k < links.len() {
            keep_new_explicit(b, "FeatureChaining"@, feature, numbered("chaining"@, k as usize));
            let (b, fc) = new_explicit(b, "FeatureChaining"@, feature, numbered("chaining"@, k as usize));
            let b = b.push_pending(
                link_pending(b, fc, "chainingFeature"@, scope, links[k], link_context(spine, links, k)),
            );
            keep_member_links_from(b, links, spine, feature, scope, k + 1);
            member_links_from(b, links, spine, feature, scope, k + 1)
        } else {
            b
        }
    };
}

#[verifier::spinoff_prover]
proof fn keep_chain_members(
    b: BV,
    base: Expr,
    links: Seq<QnV>,
    rel: usize,
    scope: usize,
    seg: Seq<char>,
)
    requires
        rel < b.n(),
        bodiless(base),
    ensures
        placed(b, chain_members(b, base, links, rel, scope, seg).0, rel, chain_members(b, base, links, rel, scope, seg).1),
    decreases base, 25int,
{
    let _out = {
        keep_chain_members_step(b, base, links, rel, scope, seg);
        chain_members_step(b, base, links, rel, scope, seg)
    };
    assert(chain_members(b, base, links, rel, scope, seg) == chain_members_step(b, base, links, rel, scope, seg));
}

#[verifier::spinoff_prover]
proof fn keep_chain_members_step(
    b: BV,
    base: Expr,
    links: Seq<QnV>,
    rel: usize,
    scope: usize,
    seg: Seq<char>,
)
    requires
        rel < b.n(),
        bodiless(base),
    ensures
        placed(b, chain_members_step(b, base, links, rel, scope, seg).0, rel, chain_members_step(b, base, links, rel, scope, seg).1),
    decreases base, 24int,
{
    reveal(chain_members_step);
    reveal(BV::set);
    reveal(BV::set_link);
    reveal(BV::new_owned_element);
    reveal(BV::push_pending);
    let _out = {
        keep_fixed_operator_expr(b, "FeatureChainExpression"@, rel, seg, "."@);
        let (b, e) = fixed_operator_expr(b, "FeatureChainExpression"@, rel, seg, "."@);
        keep_operand_at(b, e, base, scope, 0);
        let b = operand_at(b, e, base, scope, 0);
        if links.len() > 1 {
            keep_new_explicit(b, "OwningMembership"@, e, "member"@);
            let (b, m) = new_explicit(b, "OwningMembership"@, e, "member"@);
            let (b, feature) = b.new_owned_element("Feature"@, m, "memberElement.chain"@);
            keep_member_links_from(b, links, chain_spine_spec(base), feature, scope, 0);
            let b = member_links_from(b, links, chain_spine_spec(base), feature, scope, 0);
            (b.set_link(m, "memberElement"@, feature), e)
        } else {
            keep_new_explicit(b, "Membership"@, e, "member"@);
            let (b, m) = new_explicit(b, "Membership"@, e, "member"@);
            (b.push_pending(link_pending(b, m, "memberElement"@, scope, links[0], chain_spine_spec(base))), e)
        }
    };
}

#[verifier::spinoff_prover]
proof fn keep_chain_step(
    b: BV,
    base: Expr,
    links: Seq<QnV>,
    rel: usize,
    scope: usize,
    seg: Seq<char>,
)
    requires
        rel < b.n(),
        bodiless(base),
    ensures
        placed(b, chain_step(b, base, links, rel, scope, seg).0, rel, chain_step(b, base, links, rel, scope, seg).1),
    decreases base, 27int,
{
    let _out = {
        keep_chain_step_step(b, base, links, rel, scope, seg);
        chain_step_step(b, base, links, rel, scope, seg)
    };
    assert(chain_step(b, base, links, rel, scope, seg) == chain_step_step(b, base, links, rel, scope, seg));
}

#[verifier::spinoff_prover]
proof fn keep_chain_step_step(
    b: BV,
    base: Expr,
    links: Seq<QnV>,
    rel: usize,
    scope: usize,
    seg: Seq<char>,
)
    requires
        rel < b.n(),
        bodiless(base),
    ensures
        placed(b, chain_step_step(b, base, links, rel, scope, seg).0, rel, chain_step_step(b, base, links, rel, scope, seg).1),
    decreases base, 26int,
{
    reveal(chain_step_step);
    let _out = {
        match base.kind {
            ExprKind::ChainStep { target, member } => match member {
                TargetRef::Name(qn) => { keep_chain_step(b, rc(target), seq![qn@] + links, rel, scope, seg); chain_step(b, rc(target), seq![qn@] + links, rel, scope, seg) },
                TargetRef::Chain(_) => { keep_chain_members(b, base, links, rel, scope, seg); chain_members(b, base, links, rel, scope, seg) },
            },
            _ => { keep_chain_members(b, base, links, rel, scope, seg); chain_members(b, base, links, rel, scope, seg) },
        }
    };
}

/// Whether the elements from `x` on are the lowering of an expression that a
/// relationship owns.
pub open spec fn written_as(g: BV, x: usize, expr: Expr, rel: usize, scope: usize) -> bool {
    exists|s: BV| #[trigger] lowered_at(g, x, expr, rel, scope, s)
}

/// Whether lowering an expression onto a graph made the elements from `x` on.
pub open spec fn lowered_at(g: BV, x: usize, expr: Expr, rel: usize, scope: usize, s: BV) -> bool {
    let (t, y) = build_expr(s, expr, rel, scope, "expr"@);
    &&& y == x
    &&& s.n() == x
    &&& x < t.n() <= g.n()
    &&& forall|i: int| x <= i < t.n() ==> #[trigger] g.elements[i] == t.elements[i]
}

/// Whether a relationship of an expression holds an operand: a parameter whose
/// value is the lowering of the operand.
pub open spec fn is_operand(g: BV, e: usize, m: usize, expr: Expr, scope: usize) -> bool {
    exists|f: usize, v: usize, x: usize| #[trigger] holds_operand(g, e, m, f, v, x, expr, scope)
}

pub open spec fn holds_operand(
    g: BV,
    e: usize,
    m: usize,
    f: usize,
    v: usize,
    x: usize,
    expr: Expr,
    scope: usize,
) -> bool {
    &&& e < m < f < v < x < g.n()
    &&& g.elements[m as int].ty == "ParameterMembership"@
    &&& g.elements[m as int].carrier == Some(e)
    &&& g.elements[m as int].children == seq![f]
    &&& g.elements[f as int].ty == "Feature"@
    &&& g.elements[f as int].owned == seq![v]
    &&& g.elements[v as int].ty == "FeatureValue"@
    &&& g.elements[v as int].children == seq![x]
    &&& written_as(g, x, expr, v, scope)
}

/// Whether what an expression owns are its operands, in the order in which they
/// are written.
pub open spec fn operands_are(g: BV, e: usize, operands: Seq<Expr>, scope: usize) -> bool {
    let owned = g.elements[e as int].owned;
    &&& owned.len() == operands.len()
    &&& forall|k: int|
        0 <= k < operands.len() ==> is_operand(g, e, #[trigger] owned[k], operands[k], scope)
}

/// What an operator expression is: its metaclass, its operator and its
/// operands; it is what its relationship owns last.
pub open spec fn operates(
    g: BV,
    rel: usize,
    e: usize,
    class: Seq<char>,
    operator: Seq<char>,
    operands: Seq<Expr>,
    scope: usize,
) -> bool {
    let x = g.elements[e as int];
    &&& g.elements[rel as int].children.len() > 0
    &&& g.elements[rel as int].children.last() == e
    &&& x.ty == class
    &&& x.props.contains_key("operator"@)
    &&& x.props["operator"@] == ValueV::Str(operator)
    &&& operands_are(g, e, operands, scope)
}

proof fn lemma_operand_stays(
    g: BV,
    h: BV,
    e: usize,
    m: usize,
    expr: Expr,
    scope: usize,
)
    requires
        is_operand(g, e, m, expr, scope),
        kept(g, h, e),
        h.n() <= usize::MAX,
    ensures
        is_operand(h, e, m, expr, scope),
{
    let (f, v, x) = choose|f: usize, v: usize, x: usize|
        #[trigger] holds_operand(g, e, m, f, v, x, expr, scope);
    let s = choose|s: BV| #[trigger] lowered_at(g, x, expr, v, scope, s);
    assert(lowered_at(h, x, expr, v, scope, s));
    assert(holds_operand(h, e, m, f, v, x, expr, scope));
}

/// An operand's parameter and value slot, opened but empty.
#[verifier::spinoff_prover]
#[verifier::rlimit(40)]
proof fn lemma_slot(b: BV, e: usize, seg: Seq<char>)
    requires
        e < b.n(),
        b.n() + 3 <= usize::MAX,
    ensures
        ({
            let (b1, m) = new_explicit(b, "ParameterMembership"@, e, seg);
            let b2 = b1.set_str(m, "visibility"@, "private"@);
            let (b3, f) = b2.new_owned_element("Feature"@, m, "param"@);
            let b4 = b3.set_str(f, "direction"@, "in"@);
            let (b5, v) = new_explicit(b4, "FeatureValue"@, f, "value"@);
            &&& m == b.n() && f == m + 1 && v == f + 1 && b5.n() == v + 1
            &&& kept(b, b5, e)
            &&& b5.elements[e as int] == (ElemV {
                owned: b.elements[e as int].owned.push(m),
                ..b.elements[e as int]
            })
            &&& b5.elements[m as int].ty == "ParameterMembership"@
            &&& b5.elements[m as int].carrier == Some(e)
            &&& b5.elements[m as int].children == seq![f]
            &&& b5.elements[f as int].ty == "Feature"@
            &&& b5.elements[f as int].owned == seq![v]
            &&& b5.elements[v as int].ty == "FeatureValue"@
            &&& b5.elements[v as int].children == Seq::<usize>::empty()
        }),
{
    reveal(new_explicit);
    reveal(BV::new_relationship);
    reveal(BV::new_owned_element);
    reveal(BV::set_str);
    reveal(BV::set_bool);
    reveal(BV::set);
    let (b1, m) = new_explicit(b, "ParameterMembership"@, e, seg);
    let b2 = b1.set_str(m, "visibility"@, "private"@);
    let (b3, f) = b2.new_owned_element("Feature"@, m, "param"@);
    let b4 = b3.set_str(f, "direction"@, "in"@);
    let (b5, v) = new_explicit(b4, "FeatureValue"@, f, "value"@);
    assert(b5.elements[m as int].children =~= seq![f]);
    assert(b5.elements[f as int].owned =~= seq![v]);
}

#[verifier::spinoff_prover]
#[verifier::rlimit(40)]
proof fn lemma_operand_sized(b: BV, e: usize, operand: Expr, scope: usize, i: usize)
    requires
        e < b.n(),
        bodiless(operand),
        operand_at(b, e, operand, scope, i).n() <= usize::MAX,
    ensures
        b.n() + 3 <= usize::MAX,
        ({
            let (b1, m) = new_explicit(b, "ParameterMembership"@, e, numbered("operand"@, i));
            let b2 = b1.set_str(m, "visibility"@, "private"@);
            let (b3, f) = b2.new_owned_element("Feature"@, m, "param"@);
            let b4 = b3.set_str(f, "direction"@, "in"@);
            let (b5, v) = new_explicit(b4, "FeatureValue"@, f, "value"@);
            operand_at(b, e, operand, scope, i) == build_expr(b5, operand, v, scope, "expr"@).0
                && placed(
                b5,
                build_expr(b5, operand, v, scope, "expr"@).0,
                v,
                build_expr(b5, operand, v, scope, "expr"@).1,
            )
        }),
{
    reveal(operand_at_step);
    reveal(param_wrapped_expr_step);
    reveal(BV::new_owned_element);
    reveal(BV::set_str);
    reveal(BV::set);
    let seg = numbered("operand"@, i);
    let (b1, m) = new_explicit(b, "ParameterMembership"@, e, seg);
    keep_new_explicit(b, "ParameterMembership"@, e, seg);
    let b2 = b1.set_str(m, "visibility"@, "private"@);
    let (b3, f) = b2.new_owned_element("Feature"@, m, "param"@);
    let b4 = b3.set_str(f, "direction"@, "in"@);
    let (b5, v) = new_explicit(b4, "FeatureValue"@, f, "value"@);
    keep_new_explicit(b4, "FeatureValue"@, f, "value"@);
    keep_build_expr(b5, operand, v, scope, "expr"@);
    assert(param_wrapped_expr(b1, m, operand, scope, true) == build_expr(
        b5,
        operand,
        v,
        scope,
        "expr"@,
    ).0);
}

#[verifier::spinoff_prover]
#[verifier::rlimit(40)]
proof fn lemma_operand(b: BV, e: usize, operand: Expr, scope: usize, i: usize)
    requires
        e < b.n(),
        bodiless(operand),
        operand_at(b, e, operand, scope, i).n() <= usize::MAX,
    ensures
        ({
            let r = operand_at(b, e, operand, scope, i);
            let m = b.n() as usize;
            &&& kept(b, r, e)
            &&& r.elements[e as int] == (ElemV {
                owned: b.elements[e as int].owned.push(m),
                ..b.elements[e as int]
            })
            &&& is_operand(r, e, m, operand, scope)
        }),
{
    let seg = numbered("operand"@, i);
    lemma_operand_sized(b, e, operand, scope, i);
    lemma_slot(b, e, seg);
    let (b1, m) = new_explicit(b, "ParameterMembership"@, e, seg);
    let b2 = b1.set_str(m, "visibility"@, "private"@);
    let (b3, f) = b2.new_owned_element("Feature"@, m, "param"@);
    let b4 = b3.set_str(f, "direction"@, "in"@);
    let (b5, v) = new_explicit(b4, "FeatureValue"@, f, "value"@);
    let (r, x) = build_expr(b5, operand, v, scope, "expr"@);
    assert(r.elements[e as int] == b5.elements[e as int]);
    assert(r.elements[m as int] == b5.elements[m as int]);
    assert(r.elements[f as int] == b5.elements[f as int]);
    assert(r.elements[v as int].children =~= seq![x]);
    assert(lowered_at(r, x, operand, v, scope, b5));
    assert(holds_operand(r, e, m, f, v, x, operand, scope));
}

/// The operands of an element so far, and one more.
#[verifier::spinoff_prover]
proof fn lemma_operands_grow(
    b: BV,
    e: usize,
    done: Seq<Expr>,
    operand: Expr,
    scope: usize,
    i: usize,
)
    requires
        e < b.n(),
        bodiless(operand),
        operand_at(b, e, operand, scope, i).n() <= usize::MAX,
        operands_are(b, e, done, scope),
    ensures
        operands_are(operand_at(b, e, operand, scope, i), e, done.push(operand), scope),
{
    lemma_operand(b, e, operand, scope, i);
    let r = operand_at(b, e, operand, scope, i);
    let before = b.elements[e as int].owned;
    let owned = r.elements[e as int].owned;
    let all = done.push(operand);
    assert forall|k: int| 0 <= k < all.len() implies is_operand(
        r,
        e,
        #[trigger] owned[k],
        all[k],
        scope,
    ) by {
        if k < done.len() {
            assert(owned[k] == before[k]);
            lemma_operand_stays(b, r, e, before[k], done[k], scope);
        }
    }
}

proof fn lemma_operands_sized(b: BV, items: Vec<Rc<Expr>>, e: usize, scope: usize, k: int)
    requires
        e < b.n(),
        0 <= k,
        bodiless_items(items, k),
    ensures
        kept(b, operands_from(b, items, e, scope, k), e),
    decreases items@.len() - k,
{
    if k < items@.len() {
        keep_operand_at(b, e, rc(items@[k]), scope, k as usize);
        lemma_operands_sized(
            operand_at(b, e, rc(items@[k]), scope, k as usize),
            items,
            e,
            scope,
            k + 1,
        );
    }
}

/// The items of a sequence, as expressions.
pub open spec fn items_of(items: Vec<Rc<Expr>>) -> Seq<Expr> {
    Seq::new(items@.len(), |k: int| *items@[k])
}

#[verifier::spinoff_prover]
proof fn lemma_items(b: BV, items: Vec<Rc<Expr>>, e: usize, scope: usize, k: int)
    requires
        e < b.n(),
        0 <= k <= items@.len(),
        bodiless_items(items, k),
        operands_from(b, items, e, scope, k).n() <= usize::MAX,
        operands_are(b, e, items_of(items).take(k), scope),
    ensures
        ({
            let r = operands_from(b, items, e, scope, k);
            &&& operands_are(r, e, items_of(items), scope)
            &&& r.elements[e as int].ty == b.elements[e as int].ty
            &&& r.elements[e as int].props == b.elements[e as int].props
            &&& kept(b, r, e)
        }),
    decreases items@.len() - k,
{
    if k < items@.len() {
        let c = operand_at(b, e, rc(items@[k]), scope, k as usize);
        keep_operand_at(b, e, rc(items@[k]), scope, k as usize);
        lemma_operands_sized(c, items, e, scope, k + 1);
        lemma_operand(b, e, rc(items@[k]), scope, k as usize);
        lemma_operands_grow(b, e, items_of(items).take(k), rc(items@[k]), scope, k as usize);
        assert(items_of(items).take(k + 1) =~= items_of(items).take(k).push(rc(items@[k])));
        lemma_items(c, items, e, scope, k + 1);
    } else {
        assert(items_of(items).take(k) =~= items_of(items));
    }
}

/// A graph in which an operator expression was opened.
proof fn lemma_opened(b: BV, class: Seq<char>, rel: usize, seg: Seq<char>, operator: Seq<char>)
    requires
        rel < b.n(),
        b.n() < usize::MAX,
    ensures
        ({
            let (c, e) = fixed_operator_expr(b, class, rel, seg, operator);
            &&& placed(b, c, rel, e)
            &&& c.n() == b.n() + 1
            &&& operates(c, rel, e, class, operator, Seq::empty(), 0)
            &&& forall|scope: usize| #[trigger] operands_are(c, e, Seq::empty(), scope)
        }),
        operator_expr(b, rel, seg, operator) == fixed_operator_expr(
            b,
            "OperatorExpression"@,
            rel,
            seg,
            operator,
        ),
{
    reveal(operator_expr);
    reveal(fixed_operator_expr);
    reveal(BV::new_owned_element);
    reveal(BV::set_str);
    reveal(BV::set);
    let (c, e) = fixed_operator_expr(b, class, rel, seg, operator);
    assert(c.elements[rel as int].children.last() == e);
}

proof fn lemma_operates_on(
    b: BV,
    rel: usize,
    e: usize,
    class: Seq<char>,
    operator: Seq<char>,
    done: Seq<Expr>,
    operand: Expr,
    scope: usize,
    i: usize,
)
    requires
        rel < e < b.n(),
        bodiless(operand),
        operand_at(b, e, operand, scope, i).n() <= usize::MAX,
        operates(b, rel, e, class, operator, done, scope),
    ensures
        operates(
            operand_at(b, e, operand, scope, i),
            rel,
            e,
            class,
            operator,
            done.push(operand),
            scope,
        ),
{
    lemma_operand(b, e, operand, scope, i);
    lemma_operands_grow(b, e, done, operand, scope, i);
}

/// Of an expression without bodies, the operands stand in the graph in the
/// order in which they are written, each as the lowering of what is written
/// there, under the operator: the left before the right, the condition before
/// its branches, what is indexed before the index, and the items of a sequence
/// one after the other.
#[verifier::spinoff_prover]
#[verifier::rlimit(40)]
pub proof fn law_operands_stand_as_written(
    b: BV,
    expr: Expr,
    rel: usize,
    scope: usize,
    seg: Seq<char>,
)
    requires
        rel < b.n(),
        bodiless(expr),
        build_expr(b, expr, rel, scope, seg).0.n() <= usize::MAX,
    ensures
        ({
            let (g, e) = build_expr(b, expr, rel, scope, seg);
            let plain = "OperatorExpression"@;
            match expr.kind {
                ExprKind::Binary { op, lhs, rhs } => operates(
                    g,
                    rel,
                    e,
                    plain,
                    binary_op_text(op),
                    seq![*lhs, *rhs],
                    scope,
                ),
                ExprKind::Unary { op, operand } => operates(
                    g,
                    rel,
                    e,
                    plain,
                    unary_op_text(op),
                    seq![*operand],
                    scope,
                ),
                ExprKind::Conditional { cond, then_branch, else_branch } => operates(
                    g,
                    rel,
                    e,
                    plain,
                    "if"@,
                    seq![*cond, *then_branch, *else_branch],
                    scope,
                ),
                ExprKind::Index { target, index } => operates(
                    g,
                    rel,
                    e,
                    "IndexExpression"@,
                    "#"@,
                    seq![*target, *index],
                    scope,
                ),
                ExprKind::Bracket { target, arg } => operates(
                    g,
                    rel,
                    e,
                    plain,
                    "["@,
                    seq![*target, *arg],
                    scope,
                ),
                ExprKind::Collect { target, body } => operates(
                    g,
                    rel,
                    e,
                    "CollectExpression"@,
                    "collect"@,
                    seq![*target, *body],
                    scope,
                ),
                ExprKind::Select { target, body } => operates(
                    g,
                    rel,
                    e,
                    "SelectExpression"@,
                    "select"@,
                    seq![*target, *body],
                    scope,
                ),
                ExprKind::Sequence(items) => operates(
                    g,
                    rel,
                    e,
                    plain,
                    ","@,
                    items_of(items),
                    scope,
                ),
                _ => true,
            }
        }),
{
    reveal(build_expr_step);
    reveal(operator_expr);
    reveal(fixed_operator_expr);
    let none = Seq::<Expr>::empty();
    match expr.kind {
        ExprKind::Binary { op, lhs, rhs } => {
            lemma_two(b, "OperatorExpression"@, rel, seg, binary_op_text(op), rc(lhs), rc(rhs), scope);
        },
        ExprKind::Unary { op, operand } => {
            keep_operator_expr(b, rel, seg, unary_op_text(op));
            let (c, e) = operator_expr(b, rel, seg, unary_op_text(op));
            keep_operand_at(c, e, rc(operand), scope, 0);
            lemma_opened(b, "OperatorExpression"@, rel, seg, unary_op_text(op));
            lemma_operates_on(
                c,
                rel,
                e,
                "OperatorExpression"@,
                unary_op_text(op),
                none,
                rc(operand),
                scope,
                0,
            );
            assert(none.push(rc(operand)) =~= seq![*operand]);
        },
        ExprKind::Conditional { cond, then_branch, else_branch } => {
            keep_operator_expr(b, rel, seg, "if"@);
            let (c, e) = operator_expr(b, rel, seg, "if"@);
            let c1 = operand_at(c, e, rc(cond), scope, 0);
            keep_operand_at(c, e, rc(cond), scope, 0);
            let c2 = operand_at(c1, e, rc(then_branch), scope, 1);
            keep_operand_at(c1, e, rc(then_branch), scope, 1);
            keep_operand_at(c2, e, rc(else_branch), scope, 2);
            let class = "OperatorExpression"@;
            lemma_opened(b, class, rel, seg, "if"@);
            lemma_operates_on(c, rel, e, class, "if"@, none, rc(cond), scope, 0);
            let one = none.push(rc(cond));
            lemma_operates_on(c1, rel, e, class, "if"@, one, rc(then_branch), scope, 1);
            let two = one.push(rc(then_branch));
            lemma_operates_on(c2, rel, e, class, "if"@, two, rc(else_branch), scope, 2);
            assert(two.push(rc(else_branch)) =~= seq![*cond, *then_branch, *else_branch]);
        },
        ExprKind::Index { target, index } => {
            lemma_two(b, "IndexExpression"@, rel, seg, "#"@, rc(target), rc(index), scope);
        },
        ExprKind::Bracket { target, arg } => {
            lemma_two(b, "OperatorExpression"@, rel, seg, "["@, rc(target), rc(arg), scope);
        },
        ExprKind::Collect { target, body } => {
            lemma_two(b, "CollectExpression"@, rel, seg, "collect"@, rc(target), rc(body), scope);
        },
        ExprKind::Select { target, body } => {
            lemma_two(b, "SelectExpression"@, rel, seg, "select"@, rc(target), rc(body), scope);
        },
        ExprKind::Sequence(items) => {
            keep_operator_expr(b, rel, seg, ","@);
            let (c, e) = operator_expr(b, rel, seg, ","@);
            lemma_operands_sized(c, items, e, scope, 0);
            lemma_opened(b, "OperatorExpression"@, rel, seg, ","@);
            assert(items_of(items).take(0) =~= none);
            lemma_items(c, items, e, scope, 0);
        },
        _ => {},
    }
}

#[verifier::spinoff_prover]
proof fn lemma_two(
    b: BV,
    class: Seq<char>,
    rel: usize,
    seg: Seq<char>,
    operator: Seq<char>,
    x: Expr,
    y: Expr,
    scope: usize,
)
    requires
        rel < b.n(),
        bodiless(x),
        bodiless(y),
        ({
            let (c, e) = fixed_operator_expr(b, class, rel, seg, operator);
            operand_at(operand_at(c, e, x, scope, 0), e, y, scope, 1).n() <= usize::MAX
        }),
    ensures
        ({
            let (c, e) = fixed_operator_expr(b, class, rel, seg, operator);
            let g = operand_at(operand_at(c, e, x, scope, 0), e, y, scope, 1);
            operates(g, rel, e, class, operator, seq![x, y], scope)
        }),
        operator_expr(b, rel, seg, operator) == fixed_operator_expr(
            b,
            "OperatorExpression"@,
            rel,
            seg,
            operator,
        ),
{
    reveal(operator_expr);
    reveal(fixed_operator_expr);
    keep_fixed_operator_expr(b, class, rel, seg, operator);
    let (c, e) = fixed_operator_expr(b, class, rel, seg, operator);
    let c1 = operand_at(c, e, x, scope, 0);
    keep_operand_at(c, e, x, scope, 0);
    keep_operand_at(c1, e, y, scope, 1);
    lemma_opened(b, class, rel, seg, operator);
    let none = Seq::<Expr>::empty();
    lemma_operates_on(c, rel, e, class, operator, none, x, scope, 0);
    lemma_operates_on(c1, rel, e, class, operator, none.push(x), y, scope, 1);
    assert(none.push(x).push(y) =~= seq![x, y]);
}

/// Whether a membership owns the lowering of a bound.
pub open spec fn holds_bound(g: BV, m: usize, expr: Expr, scope: usize) -> bool {
    exists|s: BV| #[trigger] bound_at(g, m, expr, scope, s)
}

pub open spec fn bound_at(g: BV, m: usize, expr: Expr, scope: usize, s: BV) -> bool {
    let (t, y) = build_expr(s, expr, m, scope, "bound"@);
    &&& m < s.n() == y < t.n() <= g.n()
    &&& g.elements[m as int].ty == "OwningMembership"@
    &&& g.elements[m as int].children == seq![y]
    &&& forall|i: int| y <= i < t.n() ==> #[trigger] g.elements[i] == t.elements[i]
}

#[verifier::spinoff_prover]
proof fn lemma_bound(b: BV, mr: usize, expr: Expr, scope: usize, seg: Seq<char>)
    requires
        mr < b.n(),
        bodiless(expr),
    ensures
        ({
            let (c, m) = new_explicit(b, "OwningMembership"@, mr, seg);
            let r = build_expr(c, expr, m, scope, "bound"@).0;
            &&& kept(b, r, mr)
            &&& r.n() <= usize::MAX ==> {
                &&& r.elements[mr as int].owned == b.elements[mr as int].owned.push(b.n() as usize)
                &&& holds_bound(r, b.n() as usize, expr, scope)
            }
        }),
{
    reveal(new_explicit);
    reveal(BV::new_relationship);
    reveal(BV::set_bool);
    reveal(BV::set);
    let (c, m) = new_explicit(b, "OwningMembership"@, mr, seg);
    keep_new_explicit(b, "OwningMembership"@, mr, seg);
    let (r, y) = build_expr(c, expr, m, scope, "bound"@);
    keep_build_expr(c, expr, m, scope, "bound"@);
    if r.n() <= usize::MAX {
        assert(r.elements[m as int].children =~= seq![y]);
        assert(bound_at(r, m, expr, scope, c));
    }
}

/// The bounds of a multiplicity without bodies stand in the graph in order: the
/// lower bound, where one is written, before the upper one.
#[verifier::spinoff_prover]
pub proof fn law_bounds_stand_in_order(b: BV, mr: usize, mult: Multiplicity, scope: usize)
    requires
        mr < b.n(),
        mult.lower matches Some(x) ==> bodiless(*x),
        bodiless(*mult.upper),
        emit_bounds(b, mr, mult, scope).n() <= usize::MAX,
    ensures
        ({
            let r = emit_bounds(b, mr, mult, scope);
            let before = b.elements[mr as int].owned;
            let owned = r.elements[mr as int].owned;
            let n = before.len() as int;
            match mult.lower {
                Some(low) => {
                    &&& owned.len() == n + 2
                    &&& holds_bound(r, owned[n], *low, scope)
                    &&& holds_bound(r, owned[n + 1], *mult.upper, scope)
                },
                None => {
                    &&& owned.len() == n + 1
                    &&& holds_bound(r, owned[n], *mult.upper, scope)
                },
            }
        }),
{
    reveal(emit_bounds_step);
    reveal(emit_lower_bound_step);
    let c = emit_lower_bound(b, mr, mult.lower, scope);
    let r = emit_bounds(b, mr, mult, scope);
    assert(r == emit_bounds_step(b, mr, mult, scope));
    assert(c == emit_lower_bound_step(b, mr, mult.lower, scope));
    if mult.lower is Some {
        lemma_bound(b, mr, rc(mult.lower->0), scope, "lower"@);
    }
    lemma_bound(c, mr, rc(mult.upper), scope, "upper"@);
    if mult.lower is Some {
        let m = b.n() as usize;
        let s = choose|s: BV| #[trigger] bound_at(c, m, rc(mult.lower->0), scope, s);
        assert(bound_at(r, m, rc(mult.lower->0), scope, s));
    }
}

} // verus!
