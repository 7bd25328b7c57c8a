//! Readings of the syntax tree that lowering decides by.

use crate::ast::{
    Name, QualifiedName, QnV, TargetRef, Dialect, Visibility, UsageKind, ClassificationOp, Expr,
    ExprKind, UsageDetail, Usage, Member, qns_view, duplicate_prefix,
};
use crate::shape;
use crate::state::{opt_chain, opt_str, BV};
use crate::syntax::{bare_end_parts, bare_end, plain_metadata};
use crate::tables::{usage_metaclass, LibraryName};
use crate::text::{concat, str_eq};
use vstd::prelude::*;

verus! {


pub(crate) proof fn lemma_sizes(b: BV)
    requires
        b.wf(),
    ensures
        b.n() <= usize::MAX,
        b.ns() <= usize::MAX,
{
    reveal(BV::wf);
}

/// The links before the `i`-th one, where there are any.
pub(crate) fn preceding(links: &Vec<QualifiedName>, i: usize) -> (r: Option<Vec<QualifiedName>>)
    requires
        i <= links@.len(),
    ensures
        opt_chain(r) == shape::preceding_spec(*links, i),
{
    proof {
        reveal(shape::preceding_spec);
    }
    if i == 0 {
        None
    } else {
        Some(duplicate_prefix(links, i))
    }
}


pub(crate) fn callee_chain(callee: &TargetRef) -> (r: Option<Vec<QualifiedName>>)
    ensures
        opt_chain(r) == shape::callee_chain_spec(*callee),
{
    proof {
        reveal(shape::callee_chain_spec);
    }
    match callee {
        TargetRef::Name(qn) => Some(single_link(qn)),
        TargetRef::Chain(links) => {
            if links.len() > 0 {
                Some(duplicate_prefix(links, links.len()))
            } else {
                None
            }
        },
    }
}

pub(crate) fn meta_target(op: ClassificationOp, e: &Expr) -> (r: Option<&QualifiedName>)
    ensures
        match r {
            Some(q) => shape::meta_target_spec(op, *e) == Some(*q),
            None => shape::meta_target_spec(op, *e) is None,
        },
{
    proof {
        reveal(shape::meta_target_spec);
    }
    if op == ClassificationOp::Meta || op == ClassificationOp::MetaAtType {
        match &e.kind {
            ExprKind::Ref(qn) => Some(qn),
            _ => None,
        }
    } else {
        None
    }
}

pub(crate) fn single_link(qn: &QualifiedName) -> (r: Vec<QualifiedName>)
    ensures
        qns_view(r@) == shape::single_link_spec(*qn),
{
    let mut v: Vec<QualifiedName> = Vec::new();
    v.push(qn.duplicate());
    assert(qns_view(v@) =~= seq![qn@]);
    v
}

pub(crate) fn last_index(links: &Vec<QualifiedName>) -> (r: usize)
    requires
        links@.len() > 0,
    ensures
        r == shape::last_index_spec(*links),
        r == links@.len() - 1,
{
    proof {
        reveal(shape::last_index_spec);
    }
    links.len() - 1
}

pub(crate) fn satisfaction_membership(by: &TargetRef) -> (r: &'static str)
    ensures
        r@ == shape::satisfaction_membership_spec(*by),
{
    proof {
        reveal(shape::satisfaction_membership_spec);
    }
    match by {
        TargetRef::Name(_) => "Membership",
        TargetRef::Chain(links) => {
            if links.len() >= 2 {
                "OwningMembership"
            } else {
                "Membership"
            }
        },
    }
}

pub(crate) fn is_port_owner(ty: Option<&'static str>) -> (r: bool)
    ensures
        r == shape::is_port_owner_spec(opt_str(ty)),
{
    proof {
        reveal(shape::is_port_owner_spec);
    }
    match ty {
        Some(t) => str_eq(t, "PortDefinition") || str_eq(t, "PortUsage"),
        None => false,
    }
}

pub(crate) fn usage_class(
    enum_literal: bool,
    class_override: Option<&'static str>,
    kind: UsageKind,
    dialect: Dialect,
) -> (r: &'static str)
    ensures
        r@ == shape::usage_class_spec(enum_literal, opt_str(class_override), kind, dialect),
{
    proof {
        reveal(shape::usage_class_spec);
    }
    if enum_literal {
        "EnumerationUsage"
    } else {
        match class_override {
            Some(c) => c,
            None => usage_metaclass(kind, dialect),
        }
    }
}

pub(crate) fn implied_direction(rel_ty: &str) -> (r: Option<&'static str>)
    ensures
        opt_str(r) == shape::implied_direction_spec(rel_ty@),
{
    proof {
        reveal(shape::implied_direction_spec);
    }
    if str_eq(rel_ty, "ReturnParameterMembership") {
        Some("out")
    } else if str_eq(rel_ty, "SubjectMembership") || str_eq(rel_ty, "ActorMembership")
        || str_eq(rel_ty, "StakeholderMembership") {
        Some("in")
    } else {
        None
    }
}

pub(crate) fn annotates_owner(u: &Usage) -> (r: bool)
    ensures
        r == shape::annotates_owner_spec(*u),
{
    proof {
        reveal(shape::annotates_owner_spec);
    }
    u.kind == UsageKind::Metadata && match &u.detail {
        UsageDetail::Metadata { about } => about.len() == 0,
        _ => false,
    }
}

pub(crate) fn bare_metadata(
    u: &Usage,
    vis: Option<Visibility>,
    dialect: Dialect,
    in_enum_body: bool,
) -> (r: Option<&QualifiedName>)
    ensures
        match r {
            Some(q) => shape::bare_metadata_spec(*u, vis, dialect, in_enum_body) == Some(q@),
            None => shape::bare_metadata_spec(*u, vis, dialect, in_enum_body) is None,
        },
{
    proof {
        reveal(shape::bare_metadata_spec);
    }
    if dialect != Dialect::Kerml && !in_enum_body && vis.is_none() {
        plain_metadata(u)
    } else {
        None
    }
}

pub(crate) fn usage_membership(
    u: &Usage,
    in_enum_body: bool,
    in_interface: bool,
    in_namespace: bool,
    dialect: Dialect,
) -> (r: &'static str)
    ensures
        r@ == shape::usage_membership_spec(*u, in_enum_body, in_interface, in_namespace, dialect),
{
    proof {
        reveal(shape::usage_membership_spec);
    }
    if in_enum_body || u.prefix.is_variant {
        "VariantMembership"
    } else if u.prefix.is_end && in_interface {
        "FeatureMembership"
    } else if u.prefix.is_end {
        "EndFeatureMembership"
    } else if u.kind == UsageKind::Metadata && dialect != Dialect::Kerml {
        "OwningMembership"
    } else if u.prefix.is_type_member || in_namespace {
        "OwningMembership"
    } else {
        "FeatureMembership"
    }
}

pub(crate) fn tilde_name(name: &Option<Name>) -> (r: String)
    ensures
        r@ == shape::tilde_name_spec(*name),
{
    proof {
        reveal(shape::tilde_name_spec);
    }
    match name {
        Some(n) => concat("~", n.value.as_str()),
        None => "~".to_owned(),
    }
}

pub(crate) fn import_class(expose: bool, is_namespace: bool) -> (r: &'static str)
    ensures
        r@ == shape::import_class_spec(expose, is_namespace),
{
    proof {
        reveal(shape::import_class_spec);
    }
    if expose {
        if is_namespace {
            "NamespaceExpose"
        } else {
            "MembershipExpose"
        }
    } else {
        if is_namespace {
            "NamespaceImport"
        } else {
            "MembershipImport"
        }
    }
}

/// The links before the `k`-th one after the spine, from the last absolute
/// link on.
pub(crate) fn context_of(
    spine: &Option<Vec<QualifiedName>>,
    links: &Vec<QualifiedName>,
    k: usize,
) -> (r: Option<Vec<QualifiedName>>)
    requires
        k <= links@.len(),
    ensures
        opt_chain(r) == shape::link_context(opt_chain(*spine), qns_view(links@), k as int),
{
    proof {
        reveal(shape::link_context);
    }
    let mut before: Vec<QualifiedName> = Vec::new();
    if let Some(s) = spine {
        before = duplicate_prefix(s, s.len());
    }
    let ghost head = qns_view(before@);
    assert(head == match opt_chain(*spine) {
        Some(s) => s,
        None => Seq::<QnV>::empty(),
    }) by {
        if spine is None {
            assert(head =~= Seq::<QnV>::empty());
        }
    }
    let mut more = duplicate_prefix(links, k);
    let ghost tail = qns_view(more@);
    before.append(&mut more);
    assert(qns_view(before@) =~= head + tail);
    let ghost all = qns_view(before@);
    let mut at: usize = before.len();
    let mut found = false;
    while at > 0 && !found
        invariant
            at <= before@.len(),
            all == qns_view(before@),
            !found ==> shape::last_global(all, at as int) == shape::last_global(all, all.len() as int),
            found ==> shape::last_global(all, all.len() as int) == Some(at as int),
        ensures
            found ==> shape::last_global(all, all.len() as int) == Some(at as int),
            !found ==> at == 0 && shape::last_global(all, all.len() as int) is None,
        decreases at,
    {
        proof {
            reveal(shape::link_context);
        }
        at = at - 1;
        assert(all[at as int] == before@[at as int]@);
        if before[at].is_global {
            found = true;
        }
    }
    let mut out: Vec<QualifiedName> = Vec::new();
    let mut i: usize = if found {
        at
    } else {
        0
    };
    let ghost from = i as int;
    assert(shape::anchored(all) =~= all.subrange(from, all.len() as int));
    while i < before.len()
        invariant
            0 <= from <= i <= before@.len(),
            all == qns_view(before@),
            all.len() == before@.len(),
            qns_view(out@) =~= all.subrange(from, i as int),
        decreases before@.len() - i,
    {
        proof {
            reveal(shape::link_context);
        }
        let ghost prev = qns_view(out@);
        out.push(before[i].duplicate());
        assert(qns_view(out@) =~= prev.push(all[i as int]));
        i += 1;
        assert(all.subrange(from, i as int) =~= all.subrange(from, i - 1).push(all[i - 1]));
    }
    if out.len() == 0 {
        assert(shape::anchored(all).len() == 0);
        None
    } else {
        Some(out)
    }
}

/// How many bare end members a body has.
pub(crate) fn count_bare(ms: &Vec<Member>) -> (r: usize)
    ensures
        r == shape::bare_count(ms@, ms@.len() as int),
        r <= ms@.len(),
{
    let mut n: usize = 0;
    let mut k: usize = 0;
    while k < ms.len()
        invariant
            k <= ms@.len(),
            n == shape::bare_count(ms@, k as int),
            n <= k,
        decreases ms@.len() - k,
    {
        if bare_end(&ms[k]) {
            n += 1;
        }
        k += 1;
    }
    n
}

pub(crate) fn merge_ends(u: &Usage) -> (r: bool)
    ensures
        r == shape::merges_ends(*u),
{
    proof {
        reveal(shape::merges_ends);
    }
    let family = u.kind == UsageKind::Connection || u.kind == UsageKind::Allocation || u.kind
        == UsageKind::Connector;
    if !family {
        return false;
    }
    let bare: usize = match &u.body {
        Some(ms) => count_bare(ms),
        None => 0,
    };
    if bare == 0 {
        return false;
    }
    match &u.detail {
        UsageDetail::Connector { ends } => ends.len() >= 1 || bare >= 2,
        UsageDetail::Plain => bare >= 2,
        _ => false,
    }
}

pub(crate) fn nth_bare(ms: &Vec<Member>, k: usize) -> (r: Option<&TargetRef>)
    ensures
        match r {
            Some(t) => shape::nth_bare_target(ms@, 0, k as int) == Some(*t),
            None => shape::nth_bare_target(ms@, 0, k as int) is None,
        },
{
    let mut from: usize = 0;
    let mut left: usize = k;
    while from < ms.len()
        invariant
            from <= ms@.len(),
            shape::nth_bare_target(ms@, from as int, left as int) == shape::nth_bare_target(
                ms@,
                0,
                k as int,
            ),
        decreases ms@.len() - from,
    {
        match bare_end_parts(&ms[from]) {
            Some((_, t)) => {
                if left == 0 {
                    return Some(t);
                }
                left -= 1;
            },
            None => {},
        }
        from += 1;
    }
    None
}

pub(crate) fn nth_end(u: &Usage, k: usize) -> (r: Option<&TargetRef>)
    ensures
        match r {
            Some(t) => shape::nth_end_target(*u, k as int) == Some(*t),
            None => shape::nth_end_target(*u, k as int) is None,
        },
{
    proof {
        reveal(shape::nth_end_target);
    }
    let mut left: usize = k;
    if let UsageDetail::Connector { ends } = &u.detail {
        if k < ends.len() {
            return Some(&ends[k].target);
        }
        left = k - ends.len();
    }
    match &u.body {
        Some(ms) => nth_bare(ms, left),
        None => None,
    }
}

pub(crate) fn binary_base(kind: UsageKind) -> (r: Option<LibraryName>)
    ensures
        match r {
            Some(x) => shape::binary_base_spec(kind) == Some(x@),
            None => shape::binary_base_spec(kind) is None,
        },
{
    proof {
        reveal(shape::binary_base_spec);
    }
    if kind == UsageKind::Connection {
        Some(LibraryName { package: "Connections", name: "binaryConnections" })
    } else if kind == UsageKind::Interface {
        Some(LibraryName { package: "Interfaces", name: "binaryInterfaces" })
    } else {
        None
    }
}

} // verus!
