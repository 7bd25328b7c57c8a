//! The element graph each construct of the syntax lowers to: for every
//! construct, what it adds to a graph `b`.

use crate::ast::{
    Span, Name, QualifiedName, QnV, TargetRef, Identification, TypeRef, Dialect, Visibility,
    FeatureDirection, PortionKind, DefKind, UsageKind, ClassificationOp, ValueKind,
    StateSubactionKind, Literal, Arg, ArrowArgs, Expr, ExprKind, Multiplicity, ValuePart,
    FeatureSpecialization, FeatureDeclaration, CrossFeature, ConnectorEnd, PayloadPart, Trigger,
    UsageDetail, Usage, Definition, Package, Import, Alias, Comment, Documentation,
    TextualRepresentation, Dependency, RelationshipDecl, MultiplicityDecl, MemberKind, Member,
    qns_view,
};
use crate::comment::comment_body;
use crate::names::Binding;
use crate::props::ValueV;
use crate::state::{BV, ImportV, PendingV};
use crate::syntax::{
    name_or_spec, effective_ref_name_spec, target_span_spec, is_empty_target_spec, own_name_qn_spec,
    flat_target_qn_spec, chain_spine_spec, bare_end_target, bare_end_spec, plain_metadata_spec,
    literal_int_spec,
};
use crate::tables::{
    def_metaclass_text, usage_metaclass_text, binary_op_text, unary_op_text, classification_op_text,
    trigger_kind_text, requirement_kind_text, subaction_kind_text, direction_text, portion_text,
    visibility_text, relationship_metaclass_text, relationship_source_key_text,
    relationship_target_key_text, LibraryNameV, lib, implicit_def_bases_spec,
    implicit_usage_bases_spec, lib_qn_spec, is_namespace_metaclass_spec, is_kerml_metaclass_spec,
    is_referential_metaclass_spec,
};
use crate::text::{joined, numbered};
use std::rc::Rc;
use vstd::prelude::*;

verus! {

/// The first `m` links of a feature chain from the `k`-th on: each is
/// resolved as a member of the links before it.
#[verifier::opaque]
pub open spec fn chain_links_from(
    b: BV,
    links: Vec<QualifiedName>,
    m: int,
    feature: usize,
    scope: usize,
    exclude: Option<usize>,
    k: int,
) -> BV
    decreases m - k,
{
    if 0 <= k < m {
        let (b, fc) = b.new_relationship("FeatureChaining"@, feature, numbered("chaining"@, k as usize));
        let b = b.set_bool(fc, "isImplied"@, false);
        let b = b.push_pending(
            PendingV {
                elem: fc,
                key: "chainingFeature"@,
                index: None,
                scope,
                qn: links@[k]@,
                exclude: if exclude is Some { exclude } else { b.pending_exclude },
                declared_only: false,
                chain: preceding_spec(links, k as usize),
                spec_idx: None,
            },
        );
        chain_links_from(b, links, m, feature, scope, exclude, k + 1)
    } else {
        b
    }
}

/// A reference through a feature chain: an owned Feature with one
/// FeatureChaining for each of the first `m` links.
#[verifier::opaque]
pub open spec fn set_chain(
    b: BV,
    e: usize,
    key: Seq<char>,
    scope: usize,
    links: Vec<QualifiedName>,
    m: nat,
    exclude: Option<usize>,
) -> BV {
    let (b, feature) = b.new_owned_element("Feature"@, e, joined(key, ".chain"@));
    let b = chain_links_from(b, links, m as int, feature, scope, exclude, 0);
    b.set_link(e, key, feature)
}

/// The links before the `i`-th one, where there are any.
#[verifier::opaque]
pub open spec fn preceding_spec(links: Vec<QualifiedName>, i: usize) -> Option<Seq<QnV>> {
    if i == 0 {
        None
    } else {
        Some(qns_view(links@).subrange(0, i as int))
    }
}

/// How many relationships a specialization clause makes.
pub open spec fn clause_len(c: FeatureSpecialization) -> nat {
    match c {
        FeatureSpecialization::TypedBy(types) => types@.len(),
        FeatureSpecialization::Subsets(targets) => targets@.len(),
        FeatureSpecialization::Redefines(targets) => targets@.len(),
        _ => 1,
    }
}

/// The clauses from `k` on, their relationships numbered from `base`.
#[verifier::opaque]
pub open spec fn emit_clauses_from(
    b: BV,
    specs: Vec<FeatureSpecialization>,
    e: usize,
    scope: usize,
    k: int,
    base: int,
) -> BV
    decreases specs@.len() - k,
{
    if 0 <= k < specs@.len() {
        emit_clauses_from(
            emit_clause(b, specs@[k], e, scope, base as usize),
            specs,
            e,
            scope,
            k + 1,
            base + clause_len(specs@[k]),
        )
    } else {
        b
    }
}

/// The specialization clauses of a declaration, their relationships
/// numbered through.
#[verifier::opaque]
pub open spec fn emit_clauses(
    b: BV,
    specs: Vec<FeatureSpecialization>,
    e: usize,
    scope: usize,
) -> BV {
    emit_clauses_from(b, specs, e, scope, 0, 0)
}

/// Library elements as bases of a scope, from the `k`-th on.
#[verifier::opaque]
pub open spec fn library_bases_from(b: BV, names: Seq<LibraryNameV>, s: usize, k: int) -> BV
    decreases names.len() - k,
{
    if 0 <= k < names.len() {
        library_bases_from(b.push_base(s, lib_qn_spec(names[k])), names, s, k + 1)
    } else {
        b
    }
}

/// Library elements as bases of a scope.
#[verifier::opaque]
pub open spec fn library_bases(b: BV, names: Seq<LibraryNameV>, s: usize) -> BV {
    library_bases_from(b, names, s, 0)
}

/// Reference another element: a name is recorded for resolution; a feature
/// chain becomes an owned Feature with one FeatureChaining per link.
#[verifier::opaque]
pub open spec fn set_ref_excluding(
    b: BV,
    e: usize,
    key: Seq<char>,
    scope: usize,
    target: TargetRef,
    exclude: Option<usize>,
) -> BV
{
    let b = match target {
        TargetRef::Name(qn) => {
            let b = b.ref_name(e, key, None, scope, qn@, exclude);
            b
        },
        TargetRef::Chain(links) => {
            let b = set_chain(b, e, key, scope, links, links@.len(), exclude);
            b
        },
    };
    b
}

/// Reference another element, with the exclusion in force.
#[verifier::opaque]
pub open spec fn set_ref(b: BV, e: usize, key: Seq<char>, scope: usize, target: TargetRef) -> BV
{
    let b = set_ref_excluding(b, e, key, scope, target, None);
    b
}

/// A reference list property: one recorded reference per name.
#[verifier::opaque]
pub open spec fn set_ref_list_from(
    b: BV,
    names: Vec<QualifiedName>,
    e: usize,
    key: Seq<char>,
    scope: usize,
    k: int,
) -> BV
    decreases names, names@.len() - k,
{
    if 0 <= k < names@.len() {
        let x = names@[k];
        let i = k as usize;
        let b = b.ref_name(e, key, Some(i), scope, x@, None);
        set_ref_list_from(b, names, e, key, scope, k + 1)
    } else {
        b
    }
}

/// A reference list property: one recorded reference per name.
#[verifier::opaque]
pub open spec fn set_ref_list(
    b: BV,
    names: Vec<QualifiedName>,
    e: usize,
    key: Seq<char>,
    scope: usize,
) -> BV
    decreases names, names@.len() + 1,
{
    set_ref_list_from(b, names, e, key, scope, 0)
}

/// `#M` prefix metadata: an owned, referential MetadataUsage typed by `M`.
#[verifier::opaque]
pub open spec fn emit_prefix_metadata_one(b: BV, owner: usize, m: QnV, scope: usize) -> BV
{
    let (b, rel, i) = b.new_prefix_membership(owner);
    let b = b.set_bool(rel, "isImplied"@, false);
    let b = b.set_str(rel, "visibility"@, "public"@);
    let seg = numbered("meta"@, i);
    let (b, e) = b.new_owned_element("MetadataUsage"@, rel, seg);
    let b = b.set_bool(e, "isComposite"@, false);
    let b = b.set_bool(e, "isVariation"@, false);
    let (b, ft) = b.new_relationship("FeatureTyping"@, e, "typing"@);
    let b = b.set_bool(ft, "isImplied"@, false);
    let b = b.ref_name(ft, "type"@, None, scope, m, None);
    let b = b.set_link(ft, "typedFeature"@, e);
    let b = b.add_spec_target(e, "FeatureTyping"@, scope, m);
    let b = b.add_metadata(owner, e);
    b
}

/// The prefix metadata of a declaration, in order.
#[verifier::opaque]
pub open spec fn emit_prefix_metadata_from(
    b: BV,
    metadata: Vec<QualifiedName>,
    owner: usize,
    scope: usize,
    k: int,
) -> BV
    decreases metadata, metadata@.len() - k,
{
    if 0 <= k < metadata@.len() {
        let x = metadata@[k];
        let i = k as usize;
        let b = emit_prefix_metadata_one(b, owner, x@, scope);
        emit_prefix_metadata_from(b, metadata, owner, scope, k + 1)
    } else {
        b
    }
}

/// The prefix metadata of a declaration, in order.
#[verifier::opaque]
pub open spec fn emit_prefix_metadata(
    b: BV,
    metadata: Vec<QualifiedName>,
    owner: usize,
    scope: usize,
) -> BV
    decreases metadata, metadata@.len() + 1,
{
    emit_prefix_metadata_from(b, metadata, owner, scope, 0)
}

/// `about` targets: one Annotation each.
#[verifier::opaque]
pub open spec fn emit_about_from(
    b: BV,
    about: Vec<QualifiedName>,
    e: usize,
    scope: usize,
    k: int,
) -> BV
    decreases about, about@.len() - k,
{
    if 0 <= k < about@.len() {
        let x = about@[k];
        let i = k as usize;
        let seg = numbered("about"@, i);
        let (b, ann) = b.new_relationship("Annotation"@, e, seg);
        let b = b.set_bool(ann, "isImplied"@, false);
        let b = b.ref_name(ann, "annotatedElement"@, None, scope, x@, None);
        emit_about_from(b, about, e, scope, k + 1)
    } else {
        b
    }
}

/// `about` targets: one Annotation each.
#[verifier::opaque]
pub open spec fn emit_about(b: BV, about: Vec<QualifiedName>, e: usize, scope: usize) -> BV
    decreases about, about@.len() + 1,
{
    emit_about_from(b, about, e, scope, 0)
}

/// A membership with the given visibility.
#[verifier::opaque]
pub open spec fn new_membership(
    b: BV,
    ty: Seq<char>,
    owner: usize,
    seg: Seq<char>,
    vis: Option<Visibility>,
) -> (BV, usize)
{
    let (b, rel) = b.new_relationship(ty, owner, seg);
    let b = b.set_str(rel, "visibility"@, visibility_text(vis));
    let b = b.set_bool(rel, "isImplied"@, false);
    (b, rel)
}

/// A relationship that is written, not implied.
#[verifier::opaque]
pub open spec fn new_explicit(b: BV, ty: Seq<char>, owner: usize, seg: Seq<char>) -> (BV, usize)
{
    let (b, rel) = b.new_relationship(ty, owner, seg);
    let b = b.set_bool(rel, "isImplied"@, false);
    (b, rel)
}

/// A public membership of a synthesized element.
#[verifier::opaque]
pub open spec fn new_public(b: BV, ty: Seq<char>, owner: usize, seg: Seq<char>) -> (BV, usize)
{
    let (b, rel) = b.new_relationship(ty, owner, seg);
    let b = b.set_bool(rel, "isImplied"@, false);
    let b = b.set_str(rel, "visibility"@, "public"@);
    (b, rel)
}

/// One typing: the typed feature is `e`, a conjugated typing has a
/// metaclass of its own.
#[verifier::opaque]
pub open spec fn emit_typing(b: BV, t: TypeRef, e: usize, scope: usize, num: usize) -> BV
{
    let seg = numbered("typing"@, num);
    let (b, ft) = new_explicit(b, "FeatureTyping"@, e, seg);
    let b = if t.is_conjugated {
        let b = b.retype(ft, "ConjugatedPortTyping"@);
        b
    } else {
        b
    };
    let b = match t.target {
        TargetRef::Name(qn) => {
            let b = b.announce_spec_target(e, "FeatureTyping"@, scope, qn@);
            b
        },
        _ => {
            b
        },
    };
    let b = set_ref(b, ft, "type"@, scope, t.target);
    let b = b.set_link(ft, "typedFeature"@, e);
    b
}

/// One subsetting of a target by `e`.
#[verifier::opaque]
pub open spec fn emit_subsetting(b: BV, t: TargetRef, e: usize, scope: usize, num: usize) -> BV
{
    let seg = numbered("subset"@, num);
    let (b, s) = new_explicit(b, "Subsetting"@, e, seg);
    let b = match t {
        TargetRef::Name(qn) => {
            let b = b.announce_spec_target(e, "Subsetting"@, scope, qn@);
            b
        },
        _ => {
            b
        },
    };
    let b = set_ref_excluding(b, s, "subsettedFeature"@, scope, t, Some(e));
    let b = b.set_link(s, "subsettingFeature"@, e);
    b
}

/// One redefinition of a target by `e`.
#[verifier::opaque]
pub open spec fn emit_redefinition(b: BV, t: TargetRef, e: usize, scope: usize, num: usize) -> BV
{
    let seg = numbered("redef"@, num);
    let (b, r) = new_explicit(b, "Redefinition"@, e, seg);
    let b = match t {
        TargetRef::Name(qn) => {
            let b = b.announce_spec_target(e, "Redefinition"@, scope, qn@);
            b
        },
        _ => {
            b
        },
    };
    let b = set_ref_excluding(b, r, "redefinedFeature"@, scope, t, Some(e));
    let b = b.set_link(r, "redefiningFeature"@, e);
    b
}

/// A reference subsetting (`::>`).
#[verifier::opaque]
pub open spec fn emit_reference(b: BV, t: TargetRef, e: usize, scope: usize, num: usize) -> BV
{
    let seg = numbered("refsub"@, num);
    let (b, r) = new_explicit(b, "ReferenceSubsetting"@, e, seg);
    let b = set_ref_excluding(b, r, "referencedFeature"@, scope, t, Some(e));
    let b = b.set_link(r, "subsettingFeature"@, e);
    b
}

/// A cross subsetting (`=>`).
#[verifier::opaque]
pub open spec fn emit_crossing(b: BV, t: TargetRef, e: usize, scope: usize, num: usize) -> BV
{
    let seg = numbered("cross"@, num);
    let (b, r) = new_explicit(b, "CrossSubsetting"@, e, seg);
    let b = set_ref_excluding(b, r, "crossedFeature"@, scope, t, Some(e));
    let b = b.set_link(r, "subsettingFeature"@, e);
    b
}

/// The typings of one clause, numbered from `base`.
#[verifier::opaque]
pub open spec fn emit_typings_from(
    b: BV,
    types: Vec<TypeRef>,
    e: usize,
    scope: usize,
    base: usize,
    k: int,
) -> BV
    decreases types, types@.len() - k,
{
    if 0 <= k < types@.len() {
        let x = types@[k];
        let i = k as usize;
        let num = (base + k) as usize;
        let b = emit_typing(b, x, e, scope, num);
        emit_typings_from(b, types, e, scope, base, k + 1)
    } else {
        b
    }
}

/// The typings of one clause, numbered from `base`.
#[verifier::opaque]
pub open spec fn emit_typings(b: BV, types: Vec<TypeRef>, e: usize, scope: usize, base: usize) -> BV
    decreases types, types@.len() + 1,
{
    emit_typings_from(b, types, e, scope, base, 0)
}

/// The subsettings of one clause, numbered from `base`.
#[verifier::opaque]
pub open spec fn emit_subsettings_from(
    b: BV,
    targets: Vec<TargetRef>,
    e: usize,
    scope: usize,
    base: usize,
    k: int,
) -> BV
    decreases targets, targets@.len() - k,
{
    if 0 <= k < targets@.len() {
        let x = targets@[k];
        let i = k as usize;
        let num = (base + k) as usize;
        let b = emit_subsetting(b, x, e, scope, num);
        emit_subsettings_from(b, targets, e, scope, base, k + 1)
    } else {
        b
    }
}

/// The subsettings of one clause, numbered from `base`.
#[verifier::opaque]
pub open spec fn emit_subsettings(
    b: BV,
    targets: Vec<TargetRef>,
    e: usize,
    scope: usize,
    base: usize,
) -> BV
    decreases targets, targets@.len() + 1,
{
    emit_subsettings_from(b, targets, e, scope, base, 0)
}

/// The redefinitions of one clause, numbered from `base`.
#[verifier::opaque]
pub open spec fn emit_redefinitions_from(
    b: BV,
    targets: Vec<TargetRef>,
    e: usize,
    scope: usize,
    base: usize,
    k: int,
) -> BV
    decreases targets, targets@.len() - k,
{
    if 0 <= k < targets@.len() {
        let x = targets@[k];
        let i = k as usize;
        let num = (base + k) as usize;
        let b = emit_redefinition(b, x, e, scope, num);
        emit_redefinitions_from(b, targets, e, scope, base, k + 1)
    } else {
        b
    }
}

/// The redefinitions of one clause, numbered from `base`.
#[verifier::opaque]
pub open spec fn emit_redefinitions(
    b: BV,
    targets: Vec<TargetRef>,
    e: usize,
    scope: usize,
    base: usize,
) -> BV
    decreases targets, targets@.len() + 1,
{
    emit_redefinitions_from(b, targets, e, scope, base, 0)
}

/// One specialization clause, its relationships numbered from `base`.
#[verifier::opaque]
pub open spec fn emit_clause(
    b: BV,
    clause: FeatureSpecialization,
    e: usize,
    scope: usize,
    base: usize,
) -> BV
{
    let b = match clause {
        FeatureSpecialization::TypedBy(types) => {
            let b = emit_typings(b, types, e, scope, base);
            b
        },
        FeatureSpecialization::Subsets(targets) => {
            let b = emit_subsettings(b, targets, e, scope, base);
            b
        },
        FeatureSpecialization::Redefines(targets) => {
            let b = emit_redefinitions(b, targets, e, scope, base);
            b
        },
        FeatureSpecialization::References(t) => {
            let b = emit_reference(b, t, e, scope, base);
            b
        },
        FeatureSpecialization::Crosses(t) => {
            let b = emit_crossing(b, t, e, scope, base);
            b
        },
    };
    b
}

/// The targets of one type operation: a relationship of `kind` each.
#[verifier::opaque]
pub open spec fn emit_type_operation_from(
    b: BV,
    targets: Vec<TargetRef>,
    e: usize,
    scope: usize,
    kind: Seq<char>,
    key: Seq<char>,
    k: int,
) -> BV
    decreases targets, targets@.len() - k,
{
    if 0 <= k < targets@.len() {
        let x = targets@[k];
        let i = k as usize;
        let seg = numbered(key, i);
        let (b, r) = new_explicit(b, kind, e, seg);
        let b = set_ref(b, r, key, scope, x);
        emit_type_operation_from(b, targets, e, scope, kind, key, k + 1)
    } else {
        b
    }
}

/// The targets of one type operation: a relationship of `kind` each.
#[verifier::opaque]
pub open spec fn emit_type_operation(
    b: BV,
    targets: Vec<TargetRef>,
    e: usize,
    scope: usize,
    kind: Seq<char>,
    key: Seq<char>,
) -> BV
    decreases targets, targets@.len() + 1,
{
    emit_type_operation_from(b, targets, e, scope, kind, key, 0)
}

/// The links of a `chains` clause.
#[verifier::opaque]
pub open spec fn emit_chaining_from(
    b: BV,
    links: Vec<QualifiedName>,
    e: usize,
    scope: usize,
    k: int,
) -> BV
    decreases links, links@.len() - k,
{
    if 0 <= k < links@.len() {
        let x = links@[k];
        let i = k as usize;
        let seg = numbered("chain"@, i);
        let (b, fc) = new_explicit(b, "FeatureChaining"@, e, seg);
        let b = b.ref_name(fc, "chainingFeature"@, None, scope, x@, None);
        emit_chaining_from(b, links, e, scope, k + 1)
    } else {
        b
    }
}

/// The links of a `chains` clause.
#[verifier::opaque]
pub open spec fn emit_chaining(b: BV, links: Vec<QualifiedName>, e: usize, scope: usize) -> BV
    decreases links, links@.len() + 1,
{
    emit_chaining_from(b, links, e, scope, 0)
}

/// `featured by` targets: a TypeFeaturing each.
#[verifier::opaque]
pub open spec fn emit_featuring_from(
    b: BV,
    targets: Vec<TargetRef>,
    e: usize,
    scope: usize,
    k: int,
) -> BV
    decreases targets, targets@.len() - k,
{
    if 0 <= k < targets@.len() {
        let x = targets@[k];
        let i = k as usize;
        let seg = numbered("featuring"@, i);
        let (b, tf) = new_explicit(b, "TypeFeaturing"@, e, seg);
        let b = set_ref(b, tf, "featuringType"@, scope, x);
        emit_featuring_from(b, targets, e, scope, k + 1)
    } else {
        b
    }
}

/// `featured by` targets: a TypeFeaturing each.
#[verifier::opaque]
pub open spec fn emit_featuring(b: BV, targets: Vec<TargetRef>, e: usize, scope: usize) -> BV
    decreases targets, targets@.len() + 1,
{
    emit_featuring_from(b, targets, e, scope, 0)
}

/// The type operations of a declaration.
#[verifier::opaque]
pub open spec fn emit_type_operations(
    b: BV,
    e: usize,
    scope: usize,
    disjoint: Vec<TargetRef>,
    unions: Vec<TargetRef>,
    intersects: Vec<TargetRef>,
    differences: Vec<TargetRef>,
) -> BV
{
    let b = emit_type_operation(b, disjoint, e, scope, "Disjoining"@, "disjoiningType"@);
    let b = emit_type_operation(b, unions, e, scope, "Unioning"@, "unioningType"@);
    let b = emit_type_operation(b, intersects, e, scope, "Intersecting"@, "intersectingType"@);
    let b = emit_type_operation(b, differences, e, scope, "Differencing"@, "differencingType"@);
    b
}

/// Set a truth value only where a condition holds.
#[verifier::opaque]
pub open spec fn set_bool_if(b: BV, cond: bool, e: usize, key: Seq<char>, v: bool) -> BV
{
    let b = if cond {
        let b = b.set_bool(e, key, v);
        b
    } else {
        b
    };
    b
}

/// An optional conjugation.
#[verifier::opaque]
pub open spec fn emit_opt_conjugation(b: BV, t: Option<TargetRef>, e: usize, scope: usize) -> BV
{
    let b = match t {
        Some(x) => {
            let (b, c) = new_explicit(b, "Conjugation"@, e, "conjugation"@);
            let b = set_ref(b, c, "originalType"@, scope, x);
            b
        },
        _ => {
            b
        },
    };
    b
}

/// An optional `chains` clause.
#[verifier::opaque]
pub open spec fn emit_opt_chaining(b: BV, t: Option<TargetRef>, e: usize, scope: usize) -> BV
{
    let b = match t {
        Some(x) => {
            let b = match x {
                TargetRef::Chain(links) => {
                    let b = emit_chaining(b, links, e, scope);
                    b
                },
                TargetRef::Name(qn) => {
                    let (b, fc) = new_explicit(b, "FeatureChaining"@, e, "chain0"@);
                    let b = set_ref(b, fc, "chainingFeature"@, scope, x);
                    b
                },
            };
            b
        },
        _ => {
            b
        },
    };
    b
}

/// An optional inversion.
#[verifier::opaque]
pub open spec fn emit_opt_inverting(b: BV, t: Option<TargetRef>, e: usize, scope: usize) -> BV
{
    let b = match t {
        Some(x) => {
            let (b, fi) = new_explicit(b, "FeatureInverting"@, e, "inverting"@);
            let b = set_ref(b, fi, "invertingFeature"@, scope, x);
            b
        },
        _ => {
            b
        },
    };
    b
}

/// The specialization clauses of a feature declaration, and its KerML
/// feature relationships, as relationships owned by `e`.
#[verifier::opaque]
pub open spec fn emit_specializations(b: BV, e: usize, decl: FeatureDeclaration, scope: usize) -> BV
{
    let b = emit_clauses(b, decl.specializations, e, scope);
    let b = emit_opt_conjugation(b, decl.conjugates, e, scope);
    let b = emit_opt_chaining(b, decl.chains, e, scope);
    let b = emit_opt_inverting(b, decl.inverse_of, e, scope);
    let b = emit_featuring(b, decl.featured_by, e, scope);
    let b = emit_type_operations(
        b,
        e,
        scope,
        decl.disjoint_from,
        decl.unions,
        decl.intersects,
        decl.differences,
    );
    b
}

/// SysML usages spell `isVariation` even when synthesized; a KerML Feature
/// has no such property.
#[verifier::opaque]
pub open spec fn set_synth_usage_flags(b: BV, e: usize) -> BV
{
    let b = if !(b.ty(e) == "Feature"@) {
        let b = b.set_bool(e, "isVariation"@, false);
        b
    } else {
        b
    };
    b
}

/// An anonymous reference feature: a ReferenceUsage in SysML, a Feature in
/// KerML.
#[verifier::opaque]
pub open spec fn new_ref_feature(b: BV, rel: usize, seg: Seq<char>) -> (BV, usize)
{
    let ty = if b.dialect == Dialect::Sysml { "ReferenceUsage"@ } else { "Feature"@ };
    let (b, e) = b.new_owned_element(ty, rel, seg);
    (b, e)
}

/// Set a property to the name's text, where there is a name.
#[verifier::opaque]
pub open spec fn set_opt_name(b: BV, e: usize, key: Seq<char>, name: Option<Name>) -> BV
{
    let b = match name {
        Some(n) => {
            let b = b.set_str(e, key, n.value@);
            b
        },
        _ => {
            b
        },
    };
    b
}

/// The feature of a connector end: referential, a PortUsage in interfaces.
#[verifier::opaque]
pub open spec fn open_end(b: BV, parent: usize, i: usize, name: Option<Name>) -> (BV, usize)
{
    let seg = numbered("end"@, i);
    let (b, rel) = new_public(b, "EndFeatureMembership"@, parent, seg);
    let in_interface = (b.ty(parent) == "InterfaceUsage"@) || (b.ty(parent) == "InterfaceDefinition"@);
    let ty = if in_interface { "PortUsage"@ } else if b.dialect == Dialect::Sysml { "ReferenceUsage"@ } else { "Feature"@ };
    let (b, ru) = b.new_owned_element(ty, rel, seg);
    let b = b.set_bool(ru, "isEnd"@, true);
    let b = b.set_bool(ru, "isComposite"@, false);
    let b = set_bool_if(b, !(ty == "Feature"@), ru, "isVariation"@, false);
    let b = set_opt_name(b, ru, "declaredName"@, name);
    (b, ru)
}

/// What a connector end connects: a ReferenceSubsetting, unless the target
/// is unwritten.
#[verifier::opaque]
pub open spec fn close_end(b: BV, parent: usize, ru: usize, target: TargetRef, scope: usize) -> BV
{
    let b = if !is_empty_target_spec(target) {
        let b = b.push_connector_end(parent, ru, target_span_spec(target));
        let (b, rs) = new_explicit(b, "ReferenceSubsetting"@, ru, "refsub"@);
        let b = set_ref(b, rs, "referencedFeature"@, scope, target);
        let b = b.set_link(rs, "subsettingFeature"@, ru);
        b
    } else {
        b
    };
    b
}

/// An end the text leaves unwritten.
#[verifier::opaque]
pub open spec fn emit_empty_end(b: BV, parent: usize, i: usize) -> (BV, usize)
{
    let (b, ru) = open_end(b, parent, i, None);
    (b, ru)
}

/// The names of a typing clause as bases of a scope.
#[verifier::opaque]
pub open spec fn typing_bases_from(b: BV, types: Vec<TypeRef>, s: usize, k: int) -> BV
    decreases types, types@.len() - k,
{
    if 0 <= k < types@.len() {
        let x = types@[k];
        let i = k as usize;
        let b = match x.target {
            TargetRef::Name(qn) => {
                let b = b.push_base(s, qn@);
                b
            },
            _ => {
                b
            },
        };
        typing_bases_from(b, types, s, k + 1)
    } else {
        b
    }
}

/// The names of a typing clause as bases of a scope.
#[verifier::opaque]
pub open spec fn typing_bases(b: BV, types: Vec<TypeRef>, s: usize) -> BV
    decreases types, types@.len() + 1,
{
    typing_bases_from(b, types, s, 0)
}

/// The typing names of specialization clauses as bases of a scope.
#[verifier::opaque]
pub open spec fn typed_bases_from(b: BV, specs: Vec<FeatureSpecialization>, s: usize, k: int) -> BV
    decreases specs, specs@.len() - k,
{
    if 0 <= k < specs@.len() {
        let x = specs@[k];
        let i = k as usize;
        let b = match x {
            FeatureSpecialization::TypedBy(types) => {
                let b = typing_bases(b, types, s);
                b
            },
            _ => {
                b
            },
        };
        typed_bases_from(b, specs, s, k + 1)
    } else {
        b
    }
}

/// The typing names of specialization clauses as bases of a scope.
#[verifier::opaque]
pub open spec fn typed_bases(b: BV, specs: Vec<FeatureSpecialization>, s: usize) -> BV
    decreases specs, specs@.len() + 1,
{
    typed_bases_from(b, specs, s, 0)
}

/// One specialization target as a base: a name resolves as it is, a chain
/// through its last link; chains that subset are recorded.
#[verifier::opaque]
pub open spec fn target_base(
    b: BV,
    t: TargetRef,
    s: usize,
    subsets: bool,
    e: usize,
    scope: usize,
) -> BV
{
    let b = match t {
        TargetRef::Name(qn) => {
            let b = b.push_base(s, qn@);
            b
        },
        TargetRef::Chain(links) => {
            let b = if links@.len() > 0 {
                let b = b.push_chain_base(s, qns_view(links@));
                let b = if subsets {
                    let b = b.push_chain_subsetting(e, scope, qns_view(links@), links[0].span);
                    b
                } else {
                    b
                };
                b
            } else {
                b
            };
            b
        },
    };
    b
}

/// Several specialization targets as bases.
#[verifier::opaque]
pub open spec fn target_bases_from(
    b: BV,
    targets: Vec<TargetRef>,
    s: usize,
    subsets: bool,
    e: usize,
    scope: usize,
    k: int,
) -> BV
    decreases targets, targets@.len() - k,
{
    if 0 <= k < targets@.len() {
        let x = targets@[k];
        let i = k as usize;
        let b = target_base(b, x, s, subsets, e, scope);
        target_bases_from(b, targets, s, subsets, e, scope, k + 1)
    } else {
        b
    }
}

/// Several specialization targets as bases.
#[verifier::opaque]
pub open spec fn target_bases(
    b: BV,
    targets: Vec<TargetRef>,
    s: usize,
    subsets: bool,
    e: usize,
    scope: usize,
) -> BV
    decreases targets, targets@.len() + 1,
{
    target_bases_from(b, targets, s, subsets, e, scope, 0)
}

/// The types of a clause as bases.
#[verifier::opaque]
pub open spec fn type_bases_from(
    b: BV,
    types: Vec<TypeRef>,
    s: usize,
    e: usize,
    scope: usize,
    k: int,
) -> BV
    decreases types, types@.len() - k,
{
    if 0 <= k < types@.len() {
        let x = types@[k];
        let i = k as usize;
        let b = target_base(b, x.target, s, false, e, scope);
        type_bases_from(b, types, s, e, scope, k + 1)
    } else {
        b
    }
}

/// The types of a clause as bases.
#[verifier::opaque]
pub open spec fn type_bases(b: BV, types: Vec<TypeRef>, s: usize, e: usize, scope: usize) -> BV
    decreases types, types@.len() + 1,
{
    type_bases_from(b, types, s, e, scope, 0)
}

/// Every specialization target of a feature as a base of its body: its
/// members are inherited.
#[verifier::opaque]
pub open spec fn feature_bases_from(
    b: BV,
    specs: Vec<FeatureSpecialization>,
    s: usize,
    e: usize,
    scope: usize,
    k: int,
) -> BV
    decreases specs, specs@.len() - k,
{
    if 0 <= k < specs@.len() {
        let x = specs@[k];
        let i = k as usize;
        let b = match x {
            FeatureSpecialization::TypedBy(types) => {
                let b = type_bases(b, types, s, e, scope);
                b
            },
            FeatureSpecialization::Subsets(targets) => {
                let b = target_bases(b, targets, s, true, e, scope);
                b
            },
            FeatureSpecialization::Redefines(targets) => {
                let b = target_bases(b, targets, s, false, e, scope);
                b
            },
            FeatureSpecialization::References(t) => {
                let b = target_base(b, t, s, false, e, scope);
                b
            },
            FeatureSpecialization::Crosses(t) => {
                let b = target_base(b, t, s, false, e, scope);
                b
            },
        };
        feature_bases_from(b, specs, s, e, scope, k + 1)
    } else {
        b
    }
}

/// Every specialization target of a feature as a base of its body: its
/// members are inherited.
#[verifier::opaque]
pub open spec fn feature_bases(
    b: BV,
    specs: Vec<FeatureSpecialization>,
    s: usize,
    e: usize,
    scope: usize,
) -> BV
    decreases specs, specs@.len() + 1,
{
    feature_bases_from(b, specs, s, e, scope, 0)
}

/// The plain-name targets as bases.
#[verifier::opaque]
pub open spec fn name_bases_from(b: BV, targets: Vec<TargetRef>, s: usize, k: int) -> BV
    decreases targets, targets@.len() - k,
{
    if 0 <= k < targets@.len() {
        let x = targets@[k];
        let i = k as usize;
        let b = match x {
            TargetRef::Name(qn) => {
                let b = b.push_base(s, qn@);
                b
            },
            _ => {
                b
            },
        };
        name_bases_from(b, targets, s, k + 1)
    } else {
        b
    }
}

/// The plain-name targets as bases.
#[verifier::opaque]
pub open spec fn name_bases(b: BV, targets: Vec<TargetRef>, s: usize) -> BV
    decreases targets, targets@.len() + 1,
{
    name_bases_from(b, targets, s, 0)
}

/// The identification of an element that also names its scope entry: the
/// body scope opened for it.
#[verifier::opaque]
pub open spec fn open_body(b: BV, scope: usize, id: Identification, e: usize) -> (BV, usize)
{
    let (b, body) = b.push_scope(Some(scope));
    let b = b.register(scope, id, e, body);
    (b, body)
}

/// A literal expression with its value; infinity carries none.
#[verifier::opaque]
pub open spec fn build_literal(b: BV, lit: Literal, rel: usize, seg: Seq<char>) -> (BV, usize)
{
    match lit {
        Literal::Bool(v) => {
            let (b, e) = b.new_owned_element("LiteralBoolean"@, rel, seg);
            let b = b.set_bool(e, "value"@, v);
            (b, e)
        },
        Literal::Text(s) => {
            let (b, e) = b.new_owned_element("LiteralString"@, rel, seg);
            let b = b.set_str(e, "value"@, s@);
            (b, e)
        },
        Literal::Integer(n) => {
            let (b, e) = b.new_owned_element("LiteralInteger"@, rel, seg);
            let b = match literal_int_spec(n@) {
                Some(v) => {
                    let b = b.set(e, "value"@, ValueV::Int(v));
                    b
                },
                None => {
                    let b = b.set_str(e, "value"@, n@);
                    b
                },
            };
            (b, e)
        },
        Literal::Real(r) => {
            let (b, e) = b.new_owned_element("LiteralRational"@, rel, seg);
            let b = b.set(e, "value"@, ValueV::Real(r@));
            (b, e)
        },
        Literal::Infinity => {
            b.new_owned_element("LiteralInfinity"@, rel, seg)
        },
    }
}

/// An OperatorExpression with its operator.
#[verifier::opaque]
pub open spec fn operator_expr(
    b: BV,
    rel: usize,
    seg: Seq<char>,
    operator: Seq<char>,
) -> (BV, usize)
{
    let (b, e) = b.new_owned_element("OperatorExpression"@, rel, seg);
    let b = b.set_str(e, "operator"@, operator);
    (b, e)
}

/// An operator expression of a metaclass of its own.
#[verifier::opaque]
pub open spec fn fixed_operator_expr(
    b: BV,
    ty: Seq<char>,
    rel: usize,
    seg: Seq<char>,
    operator: Seq<char>,
) -> (BV, usize)
{
    let (b, e) = b.new_owned_element(ty, rel, seg);
    let b = b.set_str(e, "operator"@, operator);
    (b, e)
}

/// A FeatureReferenceExpression of a name.
#[verifier::opaque]
pub open spec fn reference_expr(
    b: BV,
    qn: QnV,
    rel: usize,
    scope: usize,
    seg: Seq<char>,
) -> (BV, usize)
{
    let (b, e) = b.new_owned_element("FeatureReferenceExpression"@, rel, seg);
    let (b, m) = new_explicit(b, "Membership"@, e, "ref"@);
    let b = b.ref_name(m, "memberElement"@, None, scope, qn, None);
    (b, e)
}

/// A MetadataAccessExpression of a name.
#[verifier::opaque]
pub open spec fn metadata_access(
    b: BV,
    qn: QnV,
    rel: usize,
    scope: usize,
    seg: Seq<char>,
) -> (BV, usize)
{
    let (b, e) = b.new_owned_element("MetadataAccessExpression"@, rel, seg);
    let (b, m) = new_explicit(b, "Membership"@, e, "element"@);
    let b = b.ref_name(m, "memberElement"@, None, scope, qn, None);
    (b, e)
}

/// The parameter an expression is classified by: a Feature typed by the
/// target.
#[verifier::opaque]
pub open spec fn type_parameter(
    b: BV,
    e: usize,
    m_ty: Seq<char>,
    dir: Seq<char>,
    ty: TargetRef,
    scope: usize,
) -> BV
{
    let (b, m) = new_explicit(b, m_ty, e, "type"@);
    let (b, f) = b.new_owned_element("Feature"@, m, "typeref"@);
    let b = b.set_str(f, "direction"@, dir);
    let (b, ft) = new_explicit(b, "FeatureTyping"@, f, "typing"@);
    let b = set_ref(b, ft, "type"@, scope, ty);
    let b = b.set_link(ft, "typedFeature"@, f);
    b
}

/// The value slot of an operand: an unnamed private `in` parameter.
#[verifier::opaque]
pub open spec fn operand_slot(b: BV, e: usize) -> (BV, usize)
{
    let (b, m) = new_explicit(b, "ParameterMembership"@, e, "operand0"@);
    let b = b.set_str(m, "visibility"@, "private"@);
    let (b, f) = b.new_owned_element("Feature"@, m, "param"@);
    let b = b.set_str(f, "direction"@, "in"@);
    let (b, fv) = new_explicit(b, "FeatureValue"@, f, "value"@);
    (b, fv)
}

/// The implicit subject of a classification: a reference to an owned empty
/// feature.
#[verifier::opaque]
pub open spec fn self_reference(b: BV, e: usize) -> BV
{
    let (b, fv) = operand_slot(b, e);
    let (b, fre) = b.new_owned_element("FeatureReferenceExpression"@, fv, "expr"@);
    let (b, sm) = new_explicit(b, "ReturnParameterMembership"@, fre, "self"@);
    let b = b.new_owned_element("Feature"@, sm, "selfref"@).0;
    b
}

/// An operand or argument: an unnamed `in` parameter whose FeatureValue owns
/// the expression.
pub open spec fn param_wrapped_expr(
    b: BV,
    membership: usize,
    expr: Expr,
    scope: usize,
    private: bool,
) -> BV
    decreases expr, 21int,
{
    param_wrapped_expr_step(b, membership, expr, scope, private)
}

/// [`param_wrapped_expr`], spelled out.
#[verifier::opaque]
pub open spec fn param_wrapped_expr_step(
    b: BV,
    membership: usize,
    expr: Expr,
    scope: usize,
    private: bool,
) -> BV
    decreases expr, 20int,
{
    let b = if private {
        let b = b.set_str(membership, "visibility"@, "private"@);
        b
    } else {
        b
    };
    let (b, f) = b.new_owned_element("Feature"@, membership, "param"@);
    let b = b.set_str(f, "direction"@, "in"@);
    let (b, fv) = new_explicit(b, "FeatureValue"@, f, "value"@);
    let b = build_expr(b, expr, fv, scope, "expr"@).0;
    b
}

/// The `i`-th operand of an operator expression.
pub open spec fn operand_at(b: BV, parent: usize, operand: Expr, scope: usize, i: usize) -> BV
    decreases operand, 23int,
{
    operand_at_step(b, parent, operand, scope, i)
}

/// [`operand_at`], spelled out.
#[verifier::opaque]
pub open spec fn operand_at_step(b: BV, parent: usize, operand: Expr, scope: usize, i: usize) -> BV
    decreases operand, 22int,
{
    let seg = numbered("operand"@, i);
    let (b, m) = new_explicit(b, "ParameterMembership"@, parent, seg);
    let b = param_wrapped_expr(b, m, operand, scope, true);
    b
}

/// The `i`-th positional argument of an invocation.
pub open spec fn arg_expr(b: BV, parent: usize, expr: Expr, scope: usize, i: usize) -> BV
    decreases expr, 23int,
{
    arg_expr_step(b, parent, expr, scope, i)
}

/// [`arg_expr`], spelled out.
#[verifier::opaque]
pub open spec fn arg_expr_step(b: BV, parent: usize, expr: Expr, scope: usize, i: usize) -> BV
    decreases expr, 22int,
{
    let seg = numbered("arg"@, i);
    let (b, m) = new_explicit(b, "ParameterMembership"@, parent, seg);
    let b = param_wrapped_expr(b, m, expr, scope, false);
    b
}

/// The `i`-th argument of an invocation: a named one redefines the callee's
/// parameter, looked up in the callee.
pub open spec fn argument(
    b: BV,
    parent: usize,
    arg: Arg,
    scope: usize,
    i: usize,
    callee: TargetRef,
) -> BV
    decreases arg, 3int,
{
    argument_step(b, parent, arg, scope, i, callee)
}

/// [`argument`], spelled out.
#[verifier::opaque]
pub open spec fn argument_step(
    b: BV,
    parent: usize,
    arg: Arg,
    scope: usize,
    i: usize,
    callee: TargetRef,
) -> BV
    decreases arg, 2int,
{
    let seg = numbered("arg"@, i);
    let (b, m) = new_explicit(b, "ParameterMembership"@, parent, seg);
    let b = match arg.name {
        Some(name) => {
            let (b, f) = b.new_owned_element("Feature"@, m, "param"@);
            let b = b.set_str(f, "direction"@, "in"@);
            let (b, rd) = new_explicit(b, "Redefinition"@, f, "redef"@);
            let b = b.set_link(rd, "redefiningFeature"@, f);
            let b = b.push_pending(
                PendingV {
                    elem: rd,
                    key: "redefinedFeature"@,
                    index: None,
                    scope: scope,
                    qn: name@,
                    exclude: None,
                    declared_only: false,
                    chain: callee_chain_spec(callee),
                    spec_idx: None,
                }
            );
            let (b, fv) = new_explicit(b, "FeatureValue"@, f, "value"@);
            let b = build_expr(b, *arg.value, fv, scope, "expr"@).0;
            b
        },
        _ => {
            let b = param_wrapped_expr(b, m, *arg.value, scope, false);
            b
        },
    };
    b
}

/// The arguments of an invocation, numbered from `base`.
pub open spec fn arguments_from(
    b: BV,
    args: Vec<Arg>,
    e: usize,
    scope: usize,
    ty: TargetRef,
    base: usize,
    k: int,
) -> BV
    decreases args, args@.len() - k,
{
    if 0 <= k < args@.len() {
        let x = args@[k];
        let i = k as usize;
        let num = (base + k) as usize;
        let b = argument(b, e, x, scope, num, ty);
        arguments_from(b, args, e, scope, ty, base, k + 1)
    } else {
        b
    }
}

/// The arguments of an invocation, numbered from `base`.
pub open spec fn arguments(
    b: BV,
    args: Vec<Arg>,
    e: usize,
    scope: usize,
    ty: TargetRef,
    base: usize,
) -> BV
    decreases args, args@.len() + 1,
{
    arguments_from(b, args, e, scope, ty, base, 0)
}

/// The operands of a sequence.
pub open spec fn operands_from(b: BV, items: Vec<Rc<Expr>>, e: usize, scope: usize, k: int) -> BV
    decreases items, items@.len() - k,
{
    if 0 <= k < items@.len() {
        let x = items@[k];
        let i = k as usize;
        let b = operand_at(b, e, *x, scope, i);
        operands_from(b, items, e, scope, k + 1)
    } else {
        b
    }
}

/// The operands of a sequence.
pub open spec fn operands(b: BV, items: Vec<Rc<Expr>>, e: usize, scope: usize) -> BV
    decreases items, items@.len() + 1,
{
    operands_from(b, items, e, scope, 0)
}

/// An invocation of `ty`: a membership naming it, under the given segment.
#[verifier::opaque]
pub open spec fn open_invocation(
    b: BV,
    class: Seq<char>,
    rel: usize,
    seg: Seq<char>,
    role: Seq<char>,
    ty: TargetRef,
    scope: usize,
) -> (BV, usize)
{
    let (b, e) = b.new_owned_element(class, rel, seg);
    let (b, m) = new_explicit(b, "Membership"@, e, role);
    let b = set_ref(b, m, "memberElement"@, scope, ty);
    (b, e)
}

/// What is classified: a metadata reference, an expression, or the implicit
/// subject.
pub open spec fn classified_operand(
    b: BV,
    op: ClassificationOp,
    operand: Option<Rc<Expr>>,
    e: usize,
    scope: usize,
) -> BV
    decreases operand, 5int,
{
    classified_operand_step(b, op, operand, e, scope)
}

/// [`classified_operand`], spelled out.
#[verifier::opaque]
pub open spec fn classified_operand_step(
    b: BV,
    op: ClassificationOp,
    operand: Option<Rc<Expr>>,
    e: usize,
    scope: usize,
) -> BV
    decreases operand, 4int,
{
    let b = match operand {
        Some(x) => {
            let b = match meta_target_spec(op, *x) {
                Some(qn) => {
                    let (b, fv) = operand_slot(b, e);
                    let b = metadata_access(b, qn@, fv, scope, "expr"@).0;
                    b
                },
                None => {
                    let b = operand_at(b, e, *x, scope, 0);
                    b
                },
            };
            b
        },
        _ => {
            let b = self_reference(b, e);
            b
        },
    };
    b
}

/// A classification expression: its operand, then the type it tests.
pub open spec fn classification(
    b: BV,
    op: ClassificationOp,
    operand: Option<Rc<Expr>>,
    ty: TargetRef,
    rel: usize,
    scope: usize,
    seg: Seq<char>,
) -> (BV, usize)
    decreases operand, 7int,
{
    classification_step(b, op, operand, ty, rel, scope, seg)
}

/// [`classification`], spelled out.
#[verifier::opaque]
pub open spec fn classification_step(
    b: BV,
    op: ClassificationOp,
    operand: Option<Rc<Expr>>,
    ty: TargetRef,
    rel: usize,
    scope: usize,
    seg: Seq<char>,
) -> (BV, usize)
    decreases operand, 6int,
{
    let (b, e) = operator_expr(b, rel, seg, classification_op_text(op));
    let b = classified_operand(b, op, operand, e, scope);
    let b = if op == ClassificationOp::As || op == ClassificationOp::Meta {
        let b = type_parameter(b, e, "ReturnParameterMembership"@, "out"@, ty, scope);
        b
    } else {
        let b = type_parameter(b, e, "ParameterMembership"@, "in"@, ty, scope);
        b
    };
    (b, e)
}

/// The arguments of an arrow invocation: the target first.
pub open spec fn arrow_args(b: BV, e: usize, args: ArrowArgs, ty: TargetRef, scope: usize) -> BV
    decreases args, 7int,
{
    arrow_args_step(b, e, args, ty, scope)
}

/// [`arrow_args`], spelled out.
#[verifier::opaque]
pub open spec fn arrow_args_step(
    b: BV,
    e: usize,
    args: ArrowArgs,
    ty: TargetRef,
    scope: usize,
) -> BV
    decreases args, 6int,
{
    let b = match args {
        ArrowArgs::Body(body) => {
            let b = arg_expr(b, e, *body, scope, 1);
            b
        },
        ArrowArgs::FunctionRef(f) => {
            let (b, fm) = new_explicit(b, "FeatureMembership"@, e, "fnref"@);
            let b = b.ref_name(fm, "memberElement"@, None, scope, f@, None);
            b
        },
        ArrowArgs::List(list) => {
            let b = arguments(b, list, e, scope, ty, 1);
            b
        },
    };
    b
}

/// A step into a member written as a feature chain.
pub open spec fn chain_step_by_chain(
    b: BV,
    target: Expr,
    member: TargetRef,
    rel: usize,
    scope: usize,
    seg: Seq<char>,
) -> (BV, usize)
    decreases target, 29int,
{
    chain_step_by_chain_step(b, target, member, rel, scope, seg)
}

/// [`chain_step_by_chain`], spelled out.
#[verifier::opaque]
pub open spec fn chain_step_by_chain_step(
    b: BV,
    target: Expr,
    member: TargetRef,
    rel: usize,
    scope: usize,
    seg: Seq<char>,
) -> (BV, usize)
    decreases target, 28int,
{
    let (b, e) = fixed_operator_expr(b, "FeatureChainExpression"@, rel, seg, "."@);
    let b = operand_at(b, e, target, scope, 0);
    let (b, m) = new_explicit(b, "Membership"@, e, "member"@);
    let b = set_ref(b, m, "memberElement"@, scope, member);
    (b, e)
}

/// The element tree of an expression, owned through `rel`.
pub open spec fn build_expr(
    b: BV,
    expr: Expr,
    rel: usize,
    scope: usize,
    seg: Seq<char>,
) -> (BV, usize)
    decreases expr, 19int,
{
    build_expr_step(b, expr, rel, scope, seg)
}

/// [`build_expr`], spelled out.
#[verifier::opaque]
pub open spec fn build_expr_step(
    b: BV,
    expr: Expr,
    rel: usize,
    scope: usize,
    seg: Seq<char>,
) -> (BV, usize)
    decreases expr, 18int,
{
    match expr.kind {
        ExprKind::Literal(lit) => {
            build_literal(b, lit, rel, seg)
        },
        ExprKind::Null => {
            b.new_owned_element("NullExpression"@, rel, seg)
        },
        ExprKind::Ref(qn) => {
            reference_expr(b, qn@, rel, scope, seg)
        },
        ExprKind::Conditional { cond, then_branch, else_branch } => {
            let (b, e) = operator_expr(b, rel, seg, "if"@);
            let b = operand_at(b, e, *cond, scope, 0);
            let b = operand_at(b, e, *then_branch, scope, 1);
            let b = operand_at(b, e, *else_branch, scope, 2);
            (b, e)
        },
        ExprKind::Binary { op, lhs, rhs } => {
            let (b, e) = operator_expr(b, rel, seg, binary_op_text(op));
            let b = operand_at(b, e, *lhs, scope, 0);
            let b = operand_at(b, e, *rhs, scope, 1);
            (b, e)
        },
        ExprKind::Unary { op, operand } => {
            let (b, e) = operator_expr(b, rel, seg, unary_op_text(op));
            let b = operand_at(b, e, *operand, scope, 0);
            (b, e)
        },
        ExprKind::Classification { op, operand, ty } => {
            classification(b, op, operand, ty, rel, scope, seg)
        },
        ExprKind::Extent { ty } => {
            let (b, e) = operator_expr(b, rel, seg, "all"@);
            let b = type_parameter(b, e, "ReturnParameterMembership"@, "out"@, ty, scope);
            (b, e)
        },
        ExprKind::ChainStep { target, member } => {
            match member {
                TargetRef::Name(qn) => {
                    chain_step(b, *target, single_link_spec(qn), rel, scope, seg)
                },
                TargetRef::Chain(links) => {
                    chain_step_by_chain(b, *target, member, rel, scope, seg)
                },
            }
        },
        ExprKind::Index { target, index } => {
            let (b, e) = fixed_operator_expr(b, "IndexExpression"@, rel, seg, "#"@);
            let b = operand_at(b, e, *target, scope, 0);
            let b = operand_at(b, e, *index, scope, 1);
            (b, e)
        },
        ExprKind::Bracket { target, arg } => {
            let (b, e) = operator_expr(b, rel, seg, "["@);
            let b = operand_at(b, e, *target, scope, 0);
            let b = operand_at(b, e, *arg, scope, 1);
            (b, e)
        },
        ExprKind::Arrow { target, ty, args } => {
            let (b, e) = open_invocation(b, "InvocationExpression"@, rel, seg, "fn"@, ty, scope);
            let b = arg_expr(b, e, *target, scope, 0);
            let b = arrow_args(b, e, args, ty, scope);
            (b, e)
        },
        ExprKind::Collect { target, body } => {
            let (b, e) = fixed_operator_expr(b, "CollectExpression"@, rel, seg, "collect"@);
            let b = operand_at(b, e, *target, scope, 0);
            let b = operand_at(b, e, *body, scope, 1);
            (b, e)
        },
        ExprKind::Select { target, body } => {
            let (b, e) = fixed_operator_expr(b, "SelectExpression"@, rel, seg, "select"@);
            let b = operand_at(b, e, *target, scope, 0);
            let b = operand_at(b, e, *body, scope, 1);
            (b, e)
        },
        ExprKind::Invocation { ty, args } => {
            let (b, e) = open_invocation(b, "InvocationExpression"@, rel, seg, "fn"@, ty, scope);
            let b = arguments(b, args, e, scope, ty, 0);
            (b, e)
        },
        ExprKind::Constructor { ty, args } => {
            let (b, e) = open_invocation(b, "ConstructorExpression"@, rel, seg, "type"@, ty, scope);
            let b = arguments(b, args, e, scope, ty, 0);
            (b, e)
        },
        ExprKind::Body { members } => {
            let (b, e) = b.new_owned_element("Expression"@, rel, seg);
            let (b, body) = b.push_scope(Some(scope));
            let b = build_members(b, members, e, body);
            (b, e)
        },
        ExprKind::BodyTerminator => {
            b.new_owned_element("Expression"@, rel, seg)
        },
        ExprKind::Sequence(items) => {
            let (b, e) = operator_expr(b, rel, seg, ","@);
            let b = operands(b, items, e, scope);
            (b, e)
        },
        ExprKind::MetadataAccess { target } => {
            metadata_access(b, target@, rel, scope, seg)
        },
    }
}

/// The lower bound of a multiplicity range, where it is written.
pub open spec fn emit_lower_bound(b: BV, mr: usize, lower: Option<Rc<Expr>>, scope: usize) -> BV
    decreases lower, 3int,
{
    emit_lower_bound_step(b, mr, lower, scope)
}

/// [`emit_lower_bound`], spelled out.
#[verifier::opaque]
pub open spec fn emit_lower_bound_step(
    b: BV,
    mr: usize,
    lower: Option<Rc<Expr>>,
    scope: usize,
) -> BV
    decreases lower, 2int,
{
    let b = match lower {
        Some(x) => {
            let (b, low) = new_explicit(b, "OwningMembership"@, mr, "lower"@);
            let b = build_expr(b, *x, low, scope, "bound"@).0;
            b
        },
        _ => {
            b
        },
    };
    b
}

/// The bounds of a multiplicity range, owned by `mr`.
pub open spec fn emit_bounds(b: BV, mr: usize, mult: Multiplicity, scope: usize) -> BV
    decreases mult, 3int,
{
    emit_bounds_step(b, mr, mult, scope)
}

/// [`emit_bounds`], spelled out.
#[verifier::opaque]
pub open spec fn emit_bounds_step(b: BV, mr: usize, mult: Multiplicity, scope: usize) -> BV
    decreases mult, 2int,
{
    let b = emit_lower_bound(b, mr, mult.lower, scope);
    let (b, m) = new_explicit(b, "OwningMembership"@, mr, "upper"@);
    let b = build_expr(b, *mult.upper, m, scope, "bound"@).0;
    b
}

/// A multiplicity clause: an owned MultiplicityRange with its bounds.
pub open spec fn emit_multiplicity(b: BV, owner: usize, mult: Multiplicity, scope: usize) -> BV
    decreases mult, 5int,
{
    emit_multiplicity_step(b, owner, mult, scope)
}

/// [`emit_multiplicity`], spelled out.
#[verifier::opaque]
pub open spec fn emit_multiplicity_step(b: BV, owner: usize, mult: Multiplicity, scope: usize) -> BV
    decreases mult, 4int,
{
    let b = b.push_multiplicity(owner, scope, mult.lower, mult.upper);
    let (b, om) = new_public(b, "OwningMembership"@, owner, "multiplicity"@);
    let (b, mr) = b.new_owned_element("MultiplicityRange"@, om, "range"@);
    let b = emit_bounds(b, mr, mult, scope);
    b
}

/// An optional multiplicity clause.
pub open spec fn emit_opt_multiplicity(
    b: BV,
    owner: usize,
    mult: Option<Multiplicity>,
    scope: usize,
) -> BV
    decreases mult, 3int,
{
    emit_opt_multiplicity_step(b, owner, mult, scope)
}

/// [`emit_opt_multiplicity`], spelled out.
#[verifier::opaque]
pub open spec fn emit_opt_multiplicity_step(
    b: BV,
    owner: usize,
    mult: Option<Multiplicity>,
    scope: usize,
) -> BV
    decreases mult, 2int,
{
    let b = match mult {
        Some(m) => {
            let b = emit_multiplicity(b, owner, m, scope);
            b
        },
        _ => {
            b
        },
    };
    b
}

/// One connector end: a referential end feature and what it connects.
pub open spec fn emit_connector_end(
    b: BV,
    end: ConnectorEnd,
    parent: usize,
    scope: usize,
    i: usize,
) -> (BV, usize)
    decreases end, 3int,
{
    emit_connector_end_step(b, end, parent, scope, i)
}

/// [`emit_connector_end`], spelled out.
#[verifier::opaque]
pub open spec fn emit_connector_end_step(
    b: BV,
    end: ConnectorEnd,
    parent: usize,
    scope: usize,
    i: usize,
) -> (BV, usize)
    decreases end, 2int,
{
    let (b, ru) = open_end(b, parent, i, end.name);
    let b = emit_opt_multiplicity(b, ru, end.multiplicity, scope);
    let b = close_end(b, parent, ru, end.target, scope);
    (b, ru)
}

/// The ends of a connector, in order.
pub open spec fn emit_ends_from(
    b: BV,
    ends: Vec<ConnectorEnd>,
    parent: usize,
    scope: usize,
    k: int,
) -> BV
    decreases ends, ends@.len() - k,
{
    if 0 <= k < ends@.len() {
        let x = ends@[k];
        let i = k as usize;
        let b = emit_connector_end(b, x, parent, scope, i).0;
        emit_ends_from(b, ends, parent, scope, k + 1)
    } else {
        b
    }
}

/// The ends of a connector, in order.
pub open spec fn emit_ends(b: BV, ends: Vec<ConnectorEnd>, parent: usize, scope: usize) -> BV
    decreases ends, ends@.len() + 1,
{
    emit_ends_from(b, ends, parent, scope, 0)
}

/// The succession a bare leading `then` implies: two ends, the first with
/// the written multiplicity.
pub open spec fn emit_leading_then(
    b: BV,
    mult: Option<Multiplicity>,
    owner: usize,
    scope: usize,
    index: usize,
) -> BV
    decreases mult, 5int,
{
    emit_leading_then_step(b, mult, owner, scope, index)
}

/// [`emit_leading_then`], spelled out.
#[verifier::opaque]
pub open spec fn emit_leading_then_step(
    b: BV,
    mult: Option<Multiplicity>,
    owner: usize,
    scope: usize,
    index: usize,
) -> BV
    decreases mult, 4int,
{
    let seg0 = numbered("m"@, index);
    let seg = joined(seg0, "then"@);
    let (b, rel) = new_public(b, "FeatureMembership"@, owner, seg);
    let (b, succ) = b.new_owned_element("SuccessionAsUsage"@, rel, "emptySuccession"@);
    let b = b.set_bool(succ, "isComposite"@, false);
    let b = b.set_bool(succ, "isVariation"@, false);
    let (b, source) = emit_empty_end(b, succ, 0);
    let b = emit_opt_multiplicity(b, source, mult, scope);
    let b = emit_empty_end(b, succ, 1).0;
    b
}

/// The flags a payload spells, beside its identification: only those that
/// are not the default, and the direction of a parameter.
#[verifier::opaque]
pub open spec fn payload_flags(
    b: BV,
    payload: PayloadPart,
    e: usize,
    ty: Seq<char>,
    is_feature: bool,
) -> BV
{
    let b = set_bool_if(b, (ty == "ReferenceUsage"@), e, "isVariation"@, false);
    let b = b.set_identification(e, payload.id);
    let b = set_bool_if(b, payload.is_ordered, e, "isOrdered"@, true);
    let b = set_bool_if(b, payload.is_nonunique, e, "isUnique"@, false);
    let b = if !is_feature {
        let b = b.set_str(e, "direction"@, "inout"@);
        let b = b.set_bool(e, "isComposite"@, false);
        b
    } else {
        b
    };
    b
}

/// Register an element in the body of its owner too, where the owner has
/// one.
#[verifier::opaque]
pub open spec fn register_in_owner(
    b: BV,
    parent: usize,
    id: Identification,
    e: usize,
    body: usize,
) -> BV
{
    let owner_scope = b.elem_scope(parent);
    let b = match owner_scope {
        Some(os) => {
            let b = b.register(os, id, e, body);
            b
        },
        _ => {
            b
        },
    };
    b
}

/// The value of a payload.
pub open spec fn emit_payload_value(b: BV, value: Option<ValuePart>, e: usize, scope: usize) -> BV
    decreases value, 5int,
{
    emit_payload_value_step(b, value, e, scope)
}

/// [`emit_payload_value`], spelled out.
#[verifier::opaque]
pub open spec fn emit_payload_value_step(
    b: BV,
    value: Option<ValuePart>,
    e: usize,
    scope: usize,
) -> BV
    decreases value, 4int,
{
    let b = match value {
        Some(v) => {
            let (b, fv) = new_explicit(b, "FeatureValue"@, e, "value"@);
            let b = build_expr(b, *v.expr, fv, scope, "expr"@).0;
            b
        },
        _ => {
            b
        },
    };
    b
}

/// The identification, typing and value of a flow, message or accept
/// payload.
pub open spec fn emit_payload(
    b: BV,
    payload: PayloadPart,
    parent: usize,
    scope: usize,
    ty: Seq<char>,
) -> BV
    decreases payload, 5int,
{
    emit_payload_step(b, payload, parent, scope, ty)
}

/// [`emit_payload`], spelled out.
#[verifier::opaque]
pub open spec fn emit_payload_step(
    b: BV,
    payload: PayloadPart,
    parent: usize,
    scope: usize,
    ty: Seq<char>,
) -> BV
    decreases payload, 4int,
{
    let is_feature = (ty == "PayloadFeature"@);
    let rel_ty = if is_feature { "FeatureMembership"@ } else { "ParameterMembership"@ };
    let (b, rel) = new_public(b, rel_ty, parent, "payload"@);
    let seg = name_or_spec(payload.id.name, "payload"@);
    let (b, e) = b.new_owned_element(ty, rel, seg);
    let b = payload_flags(b, payload, e, ty, is_feature);
    let (b, body) = open_body(b, scope, payload.id, e);
    let b = register_in_owner(b, parent, payload.id, e, body);
    let b = typed_bases(b, payload.specializations, body);
    let b = emit_clauses(b, payload.specializations, e, scope);
    let b = emit_opt_multiplicity(b, e, payload.multiplicity, scope);
    let b = emit_payload_value(b, payload.value, e, scope);
    b
}

/// An expression as the value of a parameter of its own.
pub open spec fn emit_expr_param(
    b: BV,
    parent: usize,
    seg: Seq<char>,
    expr: Expr,
    scope: usize,
) -> BV
    decreases expr, 21int,
{
    emit_expr_param_step(b, parent, seg, expr, scope)
}

/// [`emit_expr_param`], spelled out.
#[verifier::opaque]
pub open spec fn emit_expr_param_step(
    b: BV,
    parent: usize,
    seg: Seq<char>,
    expr: Expr,
    scope: usize,
) -> BV
    decreases expr, 20int,
{
    let (b, pm) = new_explicit(b, "ParameterMembership"@, parent, seg);
    let (b, ru) = new_ref_feature(b, pm, seg);
    let b = set_synth_usage_flags(b, ru);
    let (b, fv) = new_explicit(b, "FeatureValue"@, ru, "value"@);
    let b = build_expr(b, expr, fv, scope, "expr"@).0;
    b
}

/// A positional parameter slot: its expression, or an empty parameter.
pub open spec fn emit_slot(
    b: BV,
    slot: Option<Rc<Expr>>,
    parent: usize,
    seg: Seq<char>,
    scope: usize,
) -> BV
    decreases slot, 3int,
{
    emit_slot_step(b, slot, parent, seg, scope)
}

/// [`emit_slot`], spelled out.
#[verifier::opaque]
pub open spec fn emit_slot_step(
    b: BV,
    slot: Option<Rc<Expr>>,
    parent: usize,
    seg: Seq<char>,
    scope: usize,
) -> BV
    decreases slot, 2int,
{
    let b = match slot {
        Some(expr) => {
            let b = emit_expr_param(b, parent, seg, *expr, scope);
            b
        },
        _ => {
            let (b, pm) = new_explicit(b, "ParameterMembership"@, parent, seg);
            let (b, ru) = new_ref_feature(b, pm, seg);
            let b = set_synth_usage_flags(b, ru);
            b
        },
    };
    b
}

/// A usage nested as a parameter: the body of a control node.
pub open spec fn emit_usage_param(
    b: BV,
    parent: usize,
    seg: Seq<char>,
    u: Usage,
    scope: usize,
) -> BV
    decreases u, 13int,
{
    emit_usage_param_step(b, parent, seg, u, scope)
}

/// [`emit_usage_param`], spelled out.
#[verifier::opaque]
pub open spec fn emit_usage_param_step(
    b: BV,
    parent: usize,
    seg: Seq<char>,
    u: Usage,
    scope: usize,
) -> BV
    decreases u, 12int,
{
    let (b, pm) = new_explicit(b, "ParameterMembership"@, parent, seg);
    let (b, inner) = b.push_scope(Some(scope));
    let b = build_nested_usage(b, u, pm, inner, seg).0;
    b
}

/// The flow feature of a flow end: the source's output or the target's
/// input, redefining what is returned's target.
#[verifier::opaque]
pub open spec fn flow_feature(b: BV, fe: usize, i: usize) -> (BV, usize)
{
    let (b, fm) = new_explicit(b, "FeatureMembership"@, fe, "flowfeature"@);
    let (b, ru) = b.new_owned_element("ReferenceUsage"@, fm, "flowfeature"@);
    let b = b.set_str(ru, "direction"@, if i == 0 { "out"@ } else { "in"@ });
    let b = b.set_bool(ru, "isComposite"@, false);
    let b = b.set_bool(ru, "isVariation"@, false);
    let (b, rd) = new_explicit(b, "Redefinition"@, ru, "redef"@);
    let b = b.set_link(rd, "redefiningFeature"@, ru);
    (b, rd)
}

/// One end of a flow: a reference to the chain's prefix, and a flow feature
/// redefining its last step.
#[verifier::opaque]
pub open spec fn flow_end(b: BV, end: ConnectorEnd, e: usize, scope: usize, i: usize) -> BV
{
    let seg0 = numbered("flowend"@, i);
    let (b, rel) = new_explicit(b, "EndFeatureMembership"@, e, seg0);
    let seg1 = numbered("end"@, i);
    let (b, fe) = b.new_owned_element("FlowEnd"@, rel, seg1);
    let b = b.set_bool(fe, "isEnd"@, true);
    let b = match end.target {
        TargetRef::Name(qn) => {
            let (b, rd) = flow_feature(b, fe, i);
            let b = b.push_pending(
                PendingV {
                    elem: rd,
                    key: "redefinedFeature"@,
                    index: None,
                    scope: scope,
                    qn: qn@,
                    exclude: None,
                    declared_only: false,
                    chain: None,
                    spec_idx: None,
                }
            );
            b
        },
        TargetRef::Chain(links) => {
            let b = if links@.len() > 0 {
                let last = last_index_spec(links);
                let b = if links@.len() > 1 {
                    let (b, rs) = new_explicit(b, "ReferenceSubsetting"@, fe, "refsub"@);
                    let b = if links@.len() == 2 {
                        let b = b.ref_name(rs, "referencedFeature"@, None, scope, links@[0 as int]@, None);
                        b
                    } else {
                        let b = set_chain_prefix(b, rs, "referencedFeature"@, scope, links, last);
                        b
                    };
                    let b = b.set_link(rs, "subsettingFeature"@, fe);
                    b
                } else {
                    b
                };
                let (b, rd) = flow_feature(b, fe, i);
                let b = b.push_pending(
                    PendingV {
                        elem: rd,
                        key: "redefinedFeature"@,
                        index: None,
                        scope: scope,
                        qn: links@[last as int]@,
                        exclude: None,
                        declared_only: false,
                        chain: preceding_spec(links, last),
                        spec_idx: None,
                    }
                );
                b
            } else {
                b
            };
            b
        },
    };
    b
}

/// The ends of a flow, as far as they are written.
#[verifier::opaque]
pub open spec fn flow_ends(
    b: BV,
    source: Option<ConnectorEnd>,
    target: Option<ConnectorEnd>,
    e: usize,
    scope: usize,
) -> BV
{
    let b = match source {
        Some(s) => {
            let b = flow_end(b, s, e, scope, 0);
            let b = match target {
                Some(t) => {
                    let b = flow_end(b, t, e, scope, 1);
                    b
                },
                _ => {
                    b
                },
            };
            b
        },
        _ => {
            let b = match target {
                Some(t) => {
                    let b = flow_end(b, t, e, scope, 0);
                    b
                },
                _ => {
                    b
                },
            };
            b
        },
    };
    b
}

/// The subject of a satisfaction: a parameter bound to the `by` target.
#[verifier::opaque]
pub open spec fn emit_satisfaction(b: BV, e: usize, by: TargetRef, scope: usize) -> BV
{
    let b = b.push_satisfy_by(e, scope, by@);
    let (b, rel) = new_explicit(b, "SubjectMembership"@, e, "by"@);
    let (b, ru) = b.new_owned_element("ReferenceUsage"@, rel, "satisfactionSubject"@);
    let b = b.set_bool(ru, "isVariation"@, false);
    let (b, fv) = new_explicit(b, "FeatureValue"@, ru, "value"@);
    let (b, fre) = b.new_owned_element("FeatureReferenceExpression"@, fv, "expr"@);
    let (b, m) = new_explicit(b, satisfaction_membership_spec(by), fre, "ref"@);
    let b = set_ref(b, m, "memberElement"@, scope, by);
    b
}

/// The trigger of an accept action.
pub open spec fn emit_trigger(b: BV, t: Trigger, e: usize, scope: usize) -> BV
    decreases t, 3int,
{
    emit_trigger_step(b, t, e, scope)
}

/// [`emit_trigger`], spelled out.
#[verifier::opaque]
pub open spec fn emit_trigger_step(b: BV, t: Trigger, e: usize, scope: usize) -> BV
    decreases t, 2int,
{
    let (b, pm) = new_explicit(b, "ParameterMembership"@, e, "trigger"@);
    let (b, te) = b.new_owned_element("TriggerInvocationExpression"@, pm, "trigger"@);
    let b = b.set_str(te, "kind"@, trigger_kind_text(t.kind));
    let (b, am) = new_explicit(b, "ParameterMembership"@, te, "arg"@);
    let b = build_expr(b, *t.expr, am, scope, "expr"@).0;
    b
}

/// The `via` receiver of an accept action: an `in` parameter with its value.
pub open spec fn emit_via(b: BV, expr: Expr, e: usize, scope: usize) -> BV
    decreases expr, 21int,
{
    emit_via_step(b, expr, e, scope)
}

/// [`emit_via`], spelled out.
#[verifier::opaque]
pub open spec fn emit_via_step(b: BV, expr: Expr, e: usize, scope: usize) -> BV
    decreases expr, 20int,
{
    let (b, pm) = new_explicit(b, "ParameterMembership"@, e, "via"@);
    let (b, ru) = new_ref_feature(b, pm, "via"@);
    let b = set_synth_usage_flags(b, ru);
    let b = b.set_str(ru, "direction"@, "in"@);
    let b = b.set_bool(ru, "isComposite"@, false);
    let (b, fv) = new_explicit(b, "FeatureValue"@, ru, "value"@);
    let b = build_expr(b, expr, fv, scope, "expr"@).0;
    b
}

/// The loop variable of a for loop.
#[verifier::opaque]
pub open spec fn emit_loop_variable(b: BV, var: FeatureDeclaration, e: usize, scope: usize) -> BV
{
    let (b, fm) = new_explicit(b, "FeatureMembership"@, e, "loopVariable"@);
    let seg = name_or_spec(var.id.name, "var"@);
    let (b, ve) = b.new_owned_element("ReferenceUsage"@, fm, seg);
    let b = b.set_bool(ve, "isVariation"@, false);
    let b = b.set_identification(ve, var.id);
    let b = emit_specializations(b, ve, var, scope);
    b
}

/// The payload of a trigger as a parameter of the transition itself.
#[verifier::opaque]
pub open spec fn emit_payload_param(b: BV, payload: PayloadPart, e: usize, scope: usize) -> BV
{
    let (b, pm) = new_explicit(b, "ParameterMembership"@, e, "payloadparam"@);
    let (b, ru) = b.new_owned_element("ReferenceUsage"@, pm, "payloadparam"@);
    let b = b.set_bool(ru, "isVariation"@, false);
    let b = b.set_identification(ru, payload.id);
    let b = b.set_str(ru, "direction"@, "in"@);
    let b = b.set_bool(ru, "isComposite"@, false);
    let ebody = b.elem_scope(e);
    let b = match ebody {
        Some(eb) => {
            let (b, ru_scope) = b.push_scope(Some(scope));
            let b = typed_bases(b, payload.specializations, ru_scope);
            let b = b.register(eb, payload.id, ru, ru_scope);
            b
        },
        _ => {
            b
        },
    };
    b
}

/// The trigger of a transition: an accept action with the given detail.
pub open spec fn emit_transition_trigger(
    b: BV,
    trigger: UsageDetail,
    e: usize,
    scope: usize,
    t_scope: usize,
) -> BV
    decreases trigger, 9int,
{
    emit_transition_trigger_step(b, trigger, e, scope, t_scope)
}

/// [`emit_transition_trigger`], spelled out.
#[verifier::opaque]
pub open spec fn emit_transition_trigger_step(
    b: BV,
    trigger: UsageDetail,
    e: usize,
    scope: usize,
    t_scope: usize,
) -> BV
    decreases trigger, 8int,
{
    let b = match trigger {
        UsageDetail::Accept { payload, trigger: inner, via } => {
            let b = emit_payload_param(b, payload, e, scope);
            b
        },
        _ => {
            b
        },
    };
    let (b, tm) = new_explicit(b, "TransitionFeatureMembership"@, e, "trigger"@);
    let b = b.set_str(tm, "kind"@, "trigger"@);
    let (b, ae) = b.new_owned_element("AcceptActionUsage"@, tm, "trigger"@);
    let b = b.set_bool(ae, "isComposite"@, true);
    let b = b.set_bool(ae, "isVariation"@, false);
    let b = build_usage_detail(b, trigger, ae, t_scope);
    b
}

/// The guard of a transition.
pub open spec fn emit_guard(b: BV, guard: Rc<Expr>, e: usize, t_scope: usize) -> BV
    decreases guard, 21int,
{
    emit_guard_step(b, guard, e, t_scope)
}

/// [`emit_guard`], spelled out.
#[verifier::opaque]
pub open spec fn emit_guard_step(b: BV, guard: Rc<Expr>, e: usize, t_scope: usize) -> BV
    decreases guard, 20int,
{
    let (b, gm) = new_explicit(b, "TransitionFeatureMembership"@, e, "guard"@);
    let b = b.set_str(gm, "kind"@, "guard"@);
    let b = build_expr(b, *guard, gm, t_scope, "expr"@).0;
    let b = b.set_guard(e, t_scope, guard);
    b
}

/// The effect of a transition, in a scope of its own.
pub open spec fn emit_effect(b: BV, effect: Usage, e: usize, t_scope: usize) -> BV
    decreases effect, 13int,
{
    emit_effect_step(b, effect, e, t_scope)
}

/// [`emit_effect`], spelled out.
#[verifier::opaque]
pub open spec fn emit_effect_step(b: BV, effect: Usage, e: usize, t_scope: usize) -> BV
    decreases effect, 12int,
{
    let (b, em) = new_explicit(b, "TransitionFeatureMembership"@, e, "effect"@);
    let b = b.set_str(em, "kind"@, "effect"@);
    let (b, inner) = b.push_scope(Some(t_scope));
    let b = build_nested_usage(b, effect, em, inner, "effect"@).0;
    b
}

/// The succession of a transition: an unwritten source and the target.
pub open spec fn emit_transition_target(b: BV, target: ConnectorEnd, e: usize, scope: usize) -> BV
    decreases target, 5int,
{
    emit_transition_target_step(b, target, e, scope)
}

/// [`emit_transition_target`], spelled out.
#[verifier::opaque]
pub open spec fn emit_transition_target_step(
    b: BV,
    target: ConnectorEnd,
    e: usize,
    scope: usize,
) -> BV
    decreases target, 4int,
{
    let (b, sm) = new_public(b, "OwningMembership"@, e, "succession"@);
    let (b, succ) = b.new_owned_element("SuccessionAsUsage"@, sm, "succession"@);
    let b = b.set_bool(succ, "isComposite"@, false);
    let b = b.set_bool(succ, "isVariation"@, false);
    let b = emit_empty_end(b, succ, 0).0;
    let b = emit_connector_end(b, target, succ, scope, 1).0;
    b
}

/// The source of a transition.
#[verifier::opaque]
pub open spec fn emit_transition_source(
    b: BV,
    source: Option<TargetRef>,
    e: usize,
    scope: usize,
) -> BV
{
    let b = match source {
        Some(s) => {
            let (b, m) = new_explicit(b, "Membership"@, e, "source"@);
            let b = set_ref(b, m, "memberElement"@, scope, s);
            b
        },
        _ => {
            b
        },
    };
    b
}

/// The trigger of a transition, where it has one.
pub open spec fn emit_opt_trigger(
    b: BV,
    trigger: Option<Box<UsageDetail>>,
    e: usize,
    scope: usize,
    t_scope: usize,
) -> BV
    decreases trigger, 3int,
{
    emit_opt_trigger_step(b, trigger, e, scope, t_scope)
}

/// [`emit_opt_trigger`], spelled out.
#[verifier::opaque]
pub open spec fn emit_opt_trigger_step(
    b: BV,
    trigger: Option<Box<UsageDetail>>,
    e: usize,
    scope: usize,
    t_scope: usize,
) -> BV
    decreases trigger, 2int,
{
    let b = match trigger {
        Some(t) => {
            let b = emit_transition_trigger(b, *t, e, scope, t_scope);
            b
        },
        _ => {
            b
        },
    };
    b
}

/// The guard of a transition, where it has one.
pub open spec fn emit_opt_guard(b: BV, guard: Option<Rc<Expr>>, e: usize, t_scope: usize) -> BV
    decreases guard, 23int,
{
    emit_opt_guard_step(b, guard, e, t_scope)
}

/// [`emit_opt_guard`], spelled out.
#[verifier::opaque]
pub open spec fn emit_opt_guard_step(b: BV, guard: Option<Rc<Expr>>, e: usize, t_scope: usize) -> BV
    decreases guard, 22int,
{
    let b = match guard {
        Some(g) => {
            let b = emit_guard(b, g, e, t_scope);
            b
        },
        _ => {
            b
        },
    };
    b
}

/// The effect of a transition, where it has one.
pub open spec fn emit_opt_effect(b: BV, effect: Option<Box<Usage>>, e: usize, t_scope: usize) -> BV
    decreases effect, 3int,
{
    emit_opt_effect_step(b, effect, e, t_scope)
}

/// [`emit_opt_effect`], spelled out.
#[verifier::opaque]
pub open spec fn emit_opt_effect_step(
    b: BV,
    effect: Option<Box<Usage>>,
    e: usize,
    t_scope: usize,
) -> BV
    decreases effect, 2int,
{
    let b = match effect {
        Some(x) => {
            let b = emit_effect(b, *x, e, t_scope);
            b
        },
        _ => {
            b
        },
    };
    b
}

/// The target of a transition, where it has one.
pub open spec fn emit_opt_target(b: BV, target: Option<ConnectorEnd>, e: usize, scope: usize) -> BV
    decreases target, 3int,
{
    emit_opt_target_step(b, target, e, scope)
}

/// [`emit_opt_target`], spelled out.
#[verifier::opaque]
pub open spec fn emit_opt_target_step(
    b: BV,
    target: Option<ConnectorEnd>,
    e: usize,
    scope: usize,
) -> BV
    decreases target, 2int,
{
    let b = match target {
        Some(t) => {
            let b = emit_transition_target(b, t, e, scope);
            b
        },
        _ => {
            b
        },
    };
    b
}

/// An optional expression parameter.
pub open spec fn emit_opt_expr_param(
    b: BV,
    expr: Option<Rc<Expr>>,
    e: usize,
    seg: Seq<char>,
    scope: usize,
) -> BV
    decreases expr, 3int,
{
    emit_opt_expr_param_step(b, expr, e, seg, scope)
}

/// [`emit_opt_expr_param`], spelled out.
#[verifier::opaque]
pub open spec fn emit_opt_expr_param_step(
    b: BV,
    expr: Option<Rc<Expr>>,
    e: usize,
    seg: Seq<char>,
    scope: usize,
) -> BV
    decreases expr, 2int,
{
    let b = match expr {
        Some(x) => {
            let b = emit_expr_param(b, e, seg, *x, scope);
            b
        },
        _ => {
            b
        },
    };
    b
}

/// The kind-specific part of a usage.
pub open spec fn build_usage_detail(b: BV, detail: UsageDetail, e: usize, scope: usize) -> BV
    decreases detail, 7int,
{
    build_usage_detail_step(b, detail, e, scope)
}

/// [`build_usage_detail`], spelled out.
#[verifier::opaque]
pub open spec fn build_usage_detail_step(b: BV, detail: UsageDetail, e: usize, scope: usize) -> BV
    decreases detail, 6int,
{
    let b = match detail {
        UsageDetail::Plain => {
            b
        },
        UsageDetail::Connector { ends } => {
            let b = emit_ends(b, ends, e, scope);
            b
        },
        UsageDetail::Binding { ends } => {
            let b = emit_ends(b, ends, e, scope);
            b
        },
        UsageDetail::Succession { source, target } => {
            let b = match source {
                Some(s) => {
                    let b = emit_connector_end(b, s, e, scope, 0).0;
                    b
                },
                _ => {
                    let b = emit_empty_end(b, e, 0).0;
                    b
                },
            };
            let b = emit_connector_end(b, target, e, scope, 1).0;
            b
        },
        UsageDetail::Flow { payload, source, target } => {
            let b = match payload {
                Some(p) => {
                    let b = emit_payload(b, p, e, scope, "PayloadFeature"@);
                    b
                },
                _ => {
                    b
                },
            };
            let b = flow_ends(b, source, target, e, scope);
            b
        },
        UsageDetail::Metadata { about } => {
            let b = emit_about(b, about, e, scope);
            b
        },
        UsageDetail::Satisfy { asserted, negated, by } => {
            let b = b.set_bool(e, "isNegated"@, negated);
            let b = match by {
                Some(t) => {
                    let b = emit_satisfaction(b, e, t, scope);
                    b
                },
                _ => {
                    b
                },
            };
            b
        },
        UsageDetail::Assert { negated } => {
            let b = b.set_bool(e, "isNegated"@, negated);
            b
        },
        UsageDetail::Accept { payload, trigger, via } => {
            let b = emit_payload(b, payload, e, scope, "ReferenceUsage"@);
            let b = match trigger {
                Some(t) => {
                    let b = emit_trigger(b, t, e, scope);
                    b
                },
                _ => {
                    b
                },
            };
            let b = match via {
                Some(v) => {
                    let b = emit_via(b, *v, e, scope);
                    b
                },
                _ => {
                    b
                },
            };
            b
        },
        UsageDetail::Send { payload, via, to } => {
            let b = emit_slot(b, payload, e, "payload"@, scope);
            let b = emit_slot(b, via, e, "via"@, scope);
            let b = emit_slot(b, to, e, "receiver"@, scope);
            b
        },
        UsageDetail::Assign { target, value } => {
            let b = emit_expr_param(b, e, "target"@, *target, scope);
            let b = emit_expr_param(b, e, "value"@, *value, scope);
            b
        },
        UsageDetail::Terminate { target } => {
            let b = emit_opt_expr_param(b, target, e, "terminatedOccurrence"@, scope);
            b
        },
        UsageDetail::IfNode { cond, then_body, else_body } => {
            let b = emit_expr_param(b, e, "condition"@, *cond, scope);
            let b = emit_usage_param(b, e, "then"@, *then_body, scope);
            let b = match else_body {
                Some(other) => {
                    let b = emit_usage_param(b, e, "else"@, *other, scope);
                    b
                },
                _ => {
                    b
                },
            };
            b
        },
        UsageDetail::WhileLoop { cond, body, until } => {
            let b = emit_opt_expr_param(b, cond, e, "condition"@, scope);
            let b = emit_usage_param(b, e, "body"@, *body, scope);
            let b = emit_opt_expr_param(b, until, e, "until"@, scope);
            b
        },
        UsageDetail::ForLoop { var, seq, body } => {
            let b = emit_loop_variable(b, var, e, scope);
            let b = emit_expr_param(b, e, "seq"@, *seq, scope);
            let b = emit_usage_param(b, e, "body"@, *body, scope);
            b
        },
        UsageDetail::Transition { source, trigger, guard, effect, target, is_default } => {
            let b = emit_transition_source(b, source, e, scope);
            let (b, t_scope) = b.push_scope(Some(scope));
            let b = emit_opt_trigger(b, trigger, e, scope, t_scope);
            let b = emit_opt_guard(b, guard, e, t_scope);
            let b = emit_opt_effect(b, effect, e, t_scope);
            let b = emit_opt_target(b, target, e, scope);
            b
        },
    };
    b
}

/// Spell a direction, where there is one.
#[verifier::opaque]
pub open spec fn set_opt_direction(b: BV, e: usize, dir: Option<FeatureDirection>) -> BV
{
    let b = match dir {
        Some(d) => {
            let b = b.set_str(e, "direction"@, direction_text(d));
            b
        },
        _ => {
            b
        },
    };
    b
}

/// Spell the written direction, else the forced one, else none.
#[verifier::opaque]
pub open spec fn set_direction(
    b: BV,
    e: usize,
    dir: Option<FeatureDirection>,
    forced: Option<Seq<char>>,
) -> BV
{
    let b = match dir {
        Some(d) => {
            let b = b.set_str(e, "direction"@, direction_text(d));
            b
        },
        None => {
            let b = match forced {
                Some(d) => {
                    let b = b.set_str(e, "direction"@, d);
                    b
                },
                None => {
                    let b = b.set_null(e, "direction"@);
                    b
                },
            };
            b
        },
    };
    b
}

/// Spell the portion kind, or none.
#[verifier::opaque]
pub open spec fn set_portion(b: BV, e: usize, kind: Option<PortionKind>) -> BV
{
    let b = match kind {
        Some(p) => {
            let b = b.set_str(e, "portionKind"@, portion_text(p));
            b
        },
        None => {
            let b = b.set_null(e, "portionKind"@);
            b
        },
    };
    b
}

/// The individual and portion flags of an occurrence.
#[verifier::opaque]
pub open spec fn occurrence_flags(b: BV, e: usize, u: Usage) -> BV
{
    let b = if u.prefix.is_individual || (u.prefix.portion is Some) || u.kind == UsageKind::Occurrence {
        let b = b.set_bool(e, "isIndividual"@, u.prefix.is_individual);
        let b = set_portion(b, e, u.prefix.portion);
        b
    } else {
        b
    };
    b
}

/// The owned cross feature of an end.
pub open spec fn emit_cross_feature(b: BV, cross: CrossFeature, e: usize, scope: usize) -> BV
    decreases cross, 3int,
{
    emit_cross_feature_step(b, cross, e, scope)
}

/// [`emit_cross_feature`], spelled out.
#[verifier::opaque]
pub open spec fn emit_cross_feature_step(b: BV, cross: CrossFeature, e: usize, scope: usize) -> BV
    decreases cross, 2int,
{
    let (b, om) = new_public(b, "OwningMembership"@, e, "crossFeature"@);
    let (b, cf) = b.new_owned_element("ReferenceUsage"@, om, "crossFeature"@);
    let b = b.set_bool(cf, "isVariation"@, cross.is_variation);
    let b = set_opt_direction(b, cf, cross.direction);
    let b = set_bool_if(b, cross.is_derived, cf, "isDerived"@, true);
    let b = set_bool_if(b, cross.is_abstract, cf, "isAbstract"@, true);
    let b = set_bool_if(b, cross.is_constant, cf, "isConstant"@, true);
    let b = set_bool_if(b, cross.is_composite, cf, "isComposite"@, true);
    let b = set_bool_if(b, cross.is_portion, cf, "isPortion"@, true);
    let b = set_bool_if(b, cross.is_variable, cf, "isVariable"@, true);
    let b = b.set_identification(cf, cross.decl.id);
    let b = emit_specializations(b, cf, cross.decl, scope);
    let b = emit_opt_multiplicity(b, cf, cross.decl.multiplicity, scope);
    b
}

/// The owned cross feature, where there is one.
pub open spec fn emit_opt_cross_feature(
    b: BV,
    cross: Option<CrossFeature>,
    e: usize,
    scope: usize,
) -> BV
    decreases cross, 3int,
{
    emit_opt_cross_feature_step(b, cross, e, scope)
}

/// [`emit_opt_cross_feature`], spelled out.
#[verifier::opaque]
pub open spec fn emit_opt_cross_feature_step(
    b: BV,
    cross: Option<CrossFeature>,
    e: usize,
    scope: usize,
) -> BV
    decreases cross, 2int,
{
    let b = match cross {
        Some(c) => {
            let b = emit_cross_feature(b, c, e, scope);
            b
        },
        _ => {
            b
        },
    };
    b
}

/// Whether the usage is a part of its owner: SysML usages are composite
/// unless they are referential by metaclass, by declaration, or unfeatured;
/// ports only inside ports.
#[verifier::opaque]
pub open spec fn usage_composite(
    b: BV,
    e: usize,
    u: Usage,
    ty: Seq<char>,
    featuring: bool,
    forced: Option<Seq<char>>,
    owner_ty: Option<Seq<char>>,
) -> BV
{
    let by_declaration = u.prefix.is_ref || (u.prefix.direction is Some) || (forced is Some) || u.prefix.is_end;
    let port_outside = (ty == "PortUsage"@) && !is_port_owner_spec(owner_ty);
    let b = b.set_featuring(e, featuring);
    let b = b.set_bool(
        e,
        "isComposite"@,
        featuring && !is_referential_metaclass_spec(ty) && !by_declaration && !port_outside,
    );
    b
}

/// The compositeness flags: spelled as written in KerML, derived in SysML.
#[verifier::opaque]
pub open spec fn composite_flags(
    b: BV,
    e: usize,
    u: Usage,
    ty: Seq<char>,
    featuring: bool,
    forced: Option<Seq<char>>,
    owner_ty: Option<Seq<char>>,
) -> BV
{
    let b = if b.dialect == Dialect::Kerml {
        let b = b.set_bool(e, "isComposite"@, u.prefix.is_composite);
        let b = b.set_bool(e, "isPortion"@, u.prefix.is_portion);
        let b = b.set_bool(e, "isVariable"@, u.prefix.is_variable);
        let b = b.set_bool(e, "isSufficient"@, u.declaration.is_sufficient);
        b
    } else {
        let b = usage_composite(b, e, u, ty, featuring, forced, owner_ty);
        b
    };
    b
}

/// The flags a usage spells.
#[verifier::opaque]
pub open spec fn usage_flags(
    b: BV,
    e: usize,
    u: Usage,
    ty: Seq<char>,
    featuring: bool,
    forced: Option<Seq<char>>,
    owner_ty: Option<Seq<char>>,
) -> BV
{
    let b = b.set_bool(e, "isAbstract"@, u.prefix.is_abstract || u.prefix.is_variation);
    let b = set_bool_if(b, !is_kerml_metaclass_spec(ty), e, "isVariation"@, u.prefix.is_variation);
    let b = b.set_bool(e, "isDerived"@, u.prefix.is_derived);
    let b = b.set_bool(e, "isConstant"@, u.prefix.is_constant);
    let b = b.set_bool(e, "isEnd"@, u.prefix.is_end);
    let b = composite_flags(b, e, u, ty, featuring, forced, owner_ty);
    let b = b.set_bool(e, "isOrdered"@, u.declaration.is_ordered);
    let b = b.set_bool(e, "isUnique"@, !u.declaration.is_nonunique);
    let b = set_direction(b, e, u.prefix.direction, forced);
    let b = occurrence_flags(b, e, u);
    b
}

/// The effective name of an unnamed feature, registered where it is owned.
#[verifier::opaque]
pub open spec fn register_effective_name(
    b: BV,
    decl: FeatureDeclaration,
    e: usize,
    rel: usize,
    scope: usize,
    body: usize,
) -> BV
{
    let b = if (decl.id.name is None) && (decl.id.short_name is None) {
        let b = match effective_ref_name_spec(decl.specializations) {
            Some(name) => {
                let b = b.set_hint(e, name);
                let access = b.spelled_visibility(rel);
                let b = b.add_effective_name(
                    scope,
                    name,
                    Binding { elem: e, sub_scope: Some(body), visibility: access },
                );
                b
            },
            None => {
                b
            },
        };
        b
    } else {
        b
    };
    b
}

/// The library bases of a usage kind, in SysML.
#[verifier::opaque]
pub open spec fn implied_bases(b: BV, kind: UsageKind, body: usize) -> BV
{
    let b = if b.dialect == Dialect::Sysml {
        let bases = implicit_usage_bases_spec(kind);
        let b = library_bases(b, bases, body);
        b
    } else {
        b
    };
    b
}

/// A named directed parameter redefines the parameter of its name its owner
/// inherits: its own name is a base.
#[verifier::opaque]
pub open spec fn parameter_base(b: BV, u: Usage, body: usize) -> BV
{
    let b = if (u.prefix.direction is Some) {
        let b = match u.declaration.id.name {
            Some(name) => {
                let b = b.push_base(body, own_name_qn_spec(name));
                b
            },
            _ => {
                b
            },
        };
        b
    } else {
        b
    };
    b
}

/// The scope bases of a usage: its specialization targets, the library base
/// of its kind, and — for a directed parameter — the parameter of the same
/// name its owner inherits.
#[verifier::opaque]
pub open spec fn usage_bases(
    b: BV,
    u: Usage,
    e: usize,
    scope: usize,
    body: usize,
    enum_literal: bool,
) -> BV
{
    let b = feature_bases(b, u.declaration.specializations, body, e, scope);
    let b = implied_bases(b, if enum_literal { UsageKind::Enum } else { u.kind }, body);
    let b = parameter_base(b, u, body);
    b
}

/// A usage element owned through `rel`, with its whole body.
pub open spec fn build_usage_element(
    b: BV,
    u: Usage,
    rel: usize,
    scope: usize,
    seg: Seq<char>,
    class_override: Option<Seq<char>>,
) -> (BV, usize)
    decreases u, 9int,
{
    build_usage_element_step(b, u, rel, scope, seg, class_override)
}

/// [`build_usage_element`], spelled out.
#[verifier::opaque]
pub open spec fn build_usage_element_step(
    b: BV,
    u: Usage,
    rel: usize,
    scope: usize,
    seg: Seq<char>,
    class_override: Option<Seq<char>>,
) -> (BV, usize)
    decreases u, 8int,
{
    let enum_literal = b.in_enum_body;
    let b = b.set_in_enum_body(false);
    let ty = usage_class_spec(enum_literal, class_override, u.kind, b.dialect);
    let (b, e) = b.new_owned_element(ty, rel, seg);
    let featuring = b.pending_featuring;
    let forced = b.pending_direction;
    let owner_ty = b.pending_owner_ty;
    let b = b.set_pending_direction(None);
    let b = b.set_pending_owner_ty(None);
    let b = b.set_identification(e, u.declaration.id);
    let b = emit_prefix_metadata(b, u.prefix.metadata, e, scope);
    let b = emit_opt_cross_feature(b, u.prefix.end_cross, e, scope);
    let b = usage_flags(b, e, u, ty, featuring, forced, owner_ty);
    let (b, body) = open_body(b, scope, u.declaration.id, e);
    let b = register_effective_name(b, u.declaration, e, rel, scope, body);
    let b = usage_bases(b, u, e, scope, body, enum_literal);
    let b = emit_specializations(b, e, u.declaration, scope);
    let b = emit_opt_multiplicity(b, e, u.declaration.multiplicity, scope);
    let b = finish_usage_element(b, u, e, scope, body);
    (b, e)
}

/// An anonymous nested usage: always featured by its owner.
pub open spec fn build_nested_usage(
    b: BV,
    u: Usage,
    rel: usize,
    scope: usize,
    seg: Seq<char>,
) -> (BV, usize)
    decreases u, 11int,
{
    build_nested_usage_step(b, u, rel, scope, seg)
}

/// [`build_nested_usage`], spelled out.
#[verifier::opaque]
pub open spec fn build_nested_usage_step(
    b: BV,
    u: Usage,
    rel: usize,
    scope: usize,
    seg: Seq<char>,
) -> (BV, usize)
    decreases u, 10int,
{
    let b = b.set_pending_featuring(true);
    let b = b.set_pending_direction(None);
    let b = b.set_pending_owner_ty(None);
    let (b, e) = build_usage_element(b, u, rel, scope, seg, None);
    (b, e)
}

/// Record a named input parameter on its owner.
#[verifier::opaque]
pub open spec fn note_in_param(b: BV, u: Usage, owner: usize) -> BV
{
    let b = if u.prefix.direction == Some(FeatureDirection::In) || u.prefix.direction == Some(FeatureDirection::InOut) {
        let b = match u.declaration.id.name {
            Some(n) => {
                let b = b.add_in_param(owner, n.value@);
                b
            },
            _ => {
                b
            },
        };
        b
    } else {
        b
    };
    b
}

/// Record a named member, and an annotation, on their owner.
#[verifier::opaque]
pub open spec fn note_member(b: BV, u: Usage, owner: usize, e: usize) -> BV
{
    let b = match u.declaration.id.name {
        Some(n) => {
            let b = b.add_ctor_field(owner, n.value@, e);
            b
        },
        _ => {
            b
        },
    };
    let b = if annotates_owner_spec(u) {
        let b = b.add_metadata(owner, e);
        b
    } else {
        b
    };
    b
}

/// A usage member: its membership of the given metaclass and the usage
/// element under it.
pub open spec fn build_usage_with(
    b: BV,
    u: Usage,
    vis: Option<Visibility>,
    owner: usize,
    scope: usize,
    index: usize,
    rel_ty: Seq<char>,
    class_override: Option<Seq<char>>,
) -> (BV, usize, usize)
    decreases u, 11int,
{
    build_usage_with_step(b, u, vis, owner, scope, index, rel_ty, class_override)
}

/// [`build_usage_with`], spelled out.
#[verifier::opaque]
pub open spec fn build_usage_with_step(
    b: BV,
    u: Usage,
    vis: Option<Visibility>,
    owner: usize,
    scope: usize,
    index: usize,
    rel_ty: Seq<char>,
    class_override: Option<Seq<char>>,
) -> (BV, usize, usize)
    decreases u, 10int,
{
    let seg0 = numbered("m"@, index);
    let (b, rel) = new_membership(b, rel_ty, owner, seg0, vis);
    let unfeatured = (rel_ty == "OwningMembership"@) || (rel_ty == "Membership"@);
    let featuring = if unfeatured { false } else if (rel_ty == "VariantMembership"@) { b.elem_featuring(owner) } else { true };
    let b = b.set_pending_featuring(featuring);
    let b = b.set_pending_direction(implied_direction_spec(rel_ty));
    let owner_ty = b.ty(owner);
    let b = b.set_pending_owner_ty(Some(owner_ty));
    let seg1 = numbered("#"@, index);
    let seg = name_or_spec(u.declaration.id.name, seg1);
    let b = note_in_param(b, u, owner);
    let (b, e) = build_usage_element(b, u, rel, scope, seg, class_override);
    let b = note_member(b, u, owner, e);
    (b, rel, e)
}

/// A usage member of a body: the membership its place asks for.
pub open spec fn build_usage(
    b: BV,
    u: Usage,
    vis: Option<Visibility>,
    owner: usize,
    scope: usize,
    index: usize,
) -> BV
    decreases u, 13int,
{
    build_usage_step(b, u, vis, owner, scope, index)
}

/// [`build_usage`], spelled out.
#[verifier::opaque]
pub open spec fn build_usage_step(
    b: BV,
    u: Usage,
    vis: Option<Visibility>,
    owner: usize,
    scope: usize,
    index: usize,
) -> BV
    decreases u, 12int,
{
    let bare = bare_metadata_spec(u, vis, b.dialect, b.in_enum_body);
    let b = match bare {
        Some(q) => {
            let b = emit_prefix_metadata_one(b, owner, q, scope);
            b
        },
        None => {
            let in_interface = (b.ty(owner) == "InterfaceDefinition"@) || (b.ty(owner) == "InterfaceUsage"@);
            let in_namespace = is_namespace_metaclass_spec(b.ty(owner));
            let rel_ty = usage_membership_spec(u, b.in_enum_body, in_interface, in_namespace, b.dialect);
            let port_end = u.prefix.is_end && in_interface && u.kind == UsageKind::Default;
            let class_override = if port_end { Some("PortUsage"@) } else { None };
            let b = build_usage_with(b, u, vis, owner, scope, index, rel_ty, class_override).0;
            b
        },
    };
    b
}

/// The specializations of a definition, recorded and referenced.
#[verifier::opaque]
pub open spec fn emit_subclassifications_from(
    b: BV,
    targets: Vec<TargetRef>,
    e: usize,
    scope: usize,
    k: int,
) -> BV
    decreases targets, targets@.len() - k,
{
    if 0 <= k < targets@.len() {
        let x = targets@[k];
        let i = k as usize;
        let b = match x {
            TargetRef::Name(qn) => {
                let b = b.announce_spec_target(e, "Subclassification"@, scope, qn@);
                b
            },
            _ => {
                b
            },
        };
        let seg = numbered("subcl"@, i);
        let (b, sub) = new_explicit(b, "Subclassification"@, e, seg);
        let b = set_ref(b, sub, "superclassifier"@, scope, x);
        let b = b.set_link(sub, "subclassifier"@, e);
        emit_subclassifications_from(b, targets, e, scope, k + 1)
    } else {
        b
    }
}

/// The specializations of a definition, recorded and referenced.
#[verifier::opaque]
pub open spec fn emit_subclassifications(
    b: BV,
    targets: Vec<TargetRef>,
    e: usize,
    scope: usize,
) -> BV
    decreases targets, targets@.len() + 1,
{
    emit_subclassifications_from(b, targets, e, scope, 0)
}

/// The conjugations of a definition.
#[verifier::opaque]
pub open spec fn emit_conjugations_from(
    b: BV,
    targets: Vec<TargetRef>,
    e: usize,
    scope: usize,
    k: int,
) -> BV
    decreases targets, targets@.len() - k,
{
    if 0 <= k < targets@.len() {
        let x = targets@[k];
        let i = k as usize;
        let seg = numbered("conj"@, i);
        let (b, c) = new_explicit(b, "Conjugation"@, e, seg);
        let b = set_ref(b, c, "originalType"@, scope, x);
        emit_conjugations_from(b, targets, e, scope, k + 1)
    } else {
        b
    }
}

/// The conjugations of a definition.
#[verifier::opaque]
pub open spec fn emit_conjugations(b: BV, targets: Vec<TargetRef>, e: usize, scope: usize) -> BV
    decreases targets, targets@.len() + 1,
{
    emit_conjugations_from(b, targets, e, scope, 0)
}

/// The implicit conjugated definition of a port definition.
#[verifier::opaque]
pub open spec fn emit_conjugated_port(b: BV, e: usize, id: Identification) -> BV
{
    let (b, om) = new_public(b, "OwningMembership"@, e, "conjugated"@);
    let tilde = tilde_name_spec(id.name);
    let (b, cpd) = b.new_owned_element("ConjugatedPortDefinition"@, om, tilde);
    let b = if (id.name is Some) {
        let b = b.set_str(cpd, "declaredName"@, tilde);
        b
    } else {
        b
    };
    let b = b.set_bool(cpd, "isVariation"@, false);
    let (b, pc) = new_explicit(b, "PortConjugation"@, cpd, "conjugation"@);
    let b = b.set_link(pc, "originalType"@, e);
    let b = b.set_link(pc, "originalPortDefinition"@, e);
    let b = b.set_link(pc, "conjugatedType"@, cpd);
    let b = b.set_conjugated(e, cpd);
    b
}

/// The direct members of an enumeration: each an enumeration literal.
pub open spec fn build_enum_members_from(
    b: BV,
    members: Vec<Member>,
    e: usize,
    scope: usize,
    k: int,
) -> BV
    decreases members, members@.len() - k,
{
    if 0 <= k < members@.len() {
        let x = members@[k];
        let i = k as usize;
        let b = b.set_in_enum_body(true);
        let b = build_member(b, x, e, scope, i);
        build_enum_members_from(b, members, e, scope, k + 1)
    } else {
        b
    }
}

/// The direct members of an enumeration: each an enumeration literal.
pub open spec fn build_enum_members(b: BV, members: Vec<Member>, e: usize, scope: usize) -> BV
    decreases members, members@.len() + 1,
{
    build_enum_members_from(b, members, e, scope, 0)
}

/// The members of a definition body outside enumerations.
pub open spec fn build_plain_members_from(
    b: BV,
    members: Vec<Member>,
    e: usize,
    scope: usize,
    k: int,
) -> BV
    decreases members, members@.len() - k,
{
    if 0 <= k < members@.len() {
        let x = members@[k];
        let i = k as usize;
        let b = b.set_in_enum_body(false);
        let b = build_member(b, x, e, scope, i);
        build_plain_members_from(b, members, e, scope, k + 1)
    } else {
        b
    }
}

/// The members of a definition body outside enumerations.
pub open spec fn build_plain_members(b: BV, members: Vec<Member>, e: usize, scope: usize) -> BV
    decreases members, members@.len() + 1,
{
    build_plain_members_from(b, members, e, scope, 0)
}

/// The members of a body.
pub open spec fn build_members_from(
    b: BV,
    members: Vec<Member>,
    e: usize,
    scope: usize,
    k: int,
) -> BV
    decreases members, members@.len() - k,
{
    if 0 <= k < members@.len() {
        let x = members@[k];
        let i = k as usize;
        let b = build_member(b, x, e, scope, i);
        build_members_from(b, members, e, scope, k + 1)
    } else {
        b
    }
}

/// The members of a body.
pub open spec fn build_members(b: BV, members: Vec<Member>, e: usize, scope: usize) -> BV
    decreases members, members@.len() + 1,
{
    build_members_from(b, members, e, scope, 0)
}

/// An optional body.
pub open spec fn build_body(b: BV, body: Option<Vec<Member>>, e: usize, scope: usize) -> BV
    decreases body, 3int,
{
    build_body_step(b, body, e, scope)
}

/// [`build_body`], spelled out.
#[verifier::opaque]
pub open spec fn build_body_step(b: BV, body: Option<Vec<Member>>, e: usize, scope: usize) -> BV
    decreases body, 2int,
{
    let b = match body {
        Some(members) => {
            let b = build_members(b, members, e, scope);
            b
        },
        _ => {
            b
        },
    };
    b
}

/// The flags a definition spells: an enumeration is a variation, and a
/// variation is abstract.
#[verifier::opaque]
pub open spec fn definition_flags(b: BV, d: Definition, e: usize, ty: Seq<char>) -> BV
{
    let is_variation = d.prefix.is_variation || d.kind == DefKind::Enum;
    let b = b.set_bool(e, "isAbstract"@, d.prefix.is_abstract || is_variation);
    let b = set_bool_if(b, !is_kerml_metaclass_spec(ty), e, "isVariation"@, is_variation);
    let b = b.set_bool(e, "isSufficient"@, d.is_sufficient);
    b
}

/// The members of a definition.
pub open spec fn build_definition_body(
    b: BV,
    body: Option<Vec<Member>>,
    kind: DefKind,
    e: usize,
    scope: usize,
) -> BV
    decreases body, 3int,
{
    build_definition_body_step(b, body, kind, e, scope)
}

/// [`build_definition_body`], spelled out.
#[verifier::opaque]
pub open spec fn build_definition_body_step(
    b: BV,
    body: Option<Vec<Member>>,
    kind: DefKind,
    e: usize,
    scope: usize,
) -> BV
    decreases body, 2int,
{
    let b = match body {
        Some(members) => {
            let b = if kind == DefKind::Enum {
                let b = build_enum_members(b, members, e, scope);
                b
            } else {
                let b = build_plain_members(b, members, e, scope);
                b
            };
            let b = b.set_in_enum_body(false);
            b
        },
        _ => {
            b
        },
    };
    b
}

/// A definition with its specializations and body.
pub open spec fn build_definition(
    b: BV,
    d: Definition,
    vis: Option<Visibility>,
    owner: usize,
    scope: usize,
    index: usize,
) -> BV
    decreases d, 3int,
{
    build_definition_step(b, d, vis, owner, scope, index)
}

/// [`build_definition`], spelled out.
#[verifier::opaque]
pub open spec fn build_definition_step(
    b: BV,
    d: Definition,
    vis: Option<Visibility>,
    owner: usize,
    scope: usize,
    index: usize,
) -> BV
    decreases d, 2int,
{
    let seg0 = numbered("m"@, index);
    let (b, rel) = new_membership(b, "OwningMembership"@, owner, seg0, vis);
    let seg1 = numbered("#"@, index);
    let seg = name_or_spec(d.id.name, seg1);
    let ty = def_metaclass_text(d.kind);
    let (b, e) = b.new_owned_element(ty, rel, seg);
    let b = b.set_identification(e, d.id);
    let b = emit_prefix_metadata(b, d.prefix.metadata, e, scope);
    let b = definition_flags(b, d, e, ty);
    let b = emit_opt_multiplicity(b, e, d.multiplicity, scope);
    let b = emit_conjugations(b, d.conjugates, e, scope);
    let b = emit_type_operations(b, e, scope, d.disjoint_from, d.unions, d.intersects, d.differences);
    let b = set_bool_if(
        b,
        d.kind == DefKind::Occurrence || d.kind == DefKind::Individual,
        e,
        "isIndividual"@,
        d.prefix.is_individual,
    );
    let b = set_bool_if(b, d.kind == DefKind::State, e, "isParallel"@, d.is_parallel);
    let (b, body) = open_body(b, scope, d.id, e);
    let b = name_bases(b, d.specializes, body);
    let b = name_bases(b, d.conjugates, body);
    let bases = implicit_def_bases_spec(d.kind);
    let b = library_bases(b, bases, body);
    let b = emit_subclassifications(b, d.specializes, e, scope);
    let b = build_definition_body(b, d.body, d.kind, e, body);
    let b = if d.kind == DefKind::Port && b.dialect == Dialect::Sysml {
        let b = emit_conjugated_port(b, e, d.id);
        b
    } else {
        b
    };
    b
}

/// A package, library package or namespace with its body.
pub open spec fn build_package(
    b: BV,
    p: Package,
    vis: Option<Visibility>,
    owner: usize,
    scope: usize,
    index: usize,
) -> BV
    decreases p, 5int,
{
    build_package_step(b, p, vis, owner, scope, index)
}

/// [`build_package`], spelled out.
#[verifier::opaque]
pub open spec fn build_package_step(
    b: BV,
    p: Package,
    vis: Option<Visibility>,
    owner: usize,
    scope: usize,
    index: usize,
) -> BV
    decreases p, 4int,
{
    let seg1 = numbered("#"@, index);
    let seg = name_or_spec(p.id.name, seg1);
    let seg0 = numbered("m"@, index);
    let (b, rel) = new_membership(b, "OwningMembership"@, owner, seg0, vis);
    let ty = if p.is_namespace { "Namespace"@ } else if p.is_library { "LibraryPackage"@ } else { "Package"@ };
    let (b, pkg) = b.new_owned_element(ty, rel, seg);
    let b = b.set_identification(pkg, p.id);
    let b = emit_prefix_metadata(b, p.metadata, pkg, scope);
    let b = set_bool_if(b, p.is_library, pkg, "isStandard"@, p.is_standard);
    let (b, body) = open_body(b, scope, p.id, pkg);
    let b = build_body(b, p.body, pkg, body);
    b
}

/// The filter conditions of a bracket-filtered import.
pub open spec fn emit_filters_from(
    b: BV,
    filters: Vec<Rc<Expr>>,
    pkg: usize,
    scope: usize,
    k: int,
) -> BV
    decreases filters, filters@.len() - k,
{
    if 0 <= k < filters@.len() {
        let x = filters@[k];
        let i = k as usize;
        let seg = numbered("filter"@, i);
        let (b, efm) = b.new_relationship("ElementFilterMembership"@, pkg, seg);
        let b = b.set_str(efm, "visibility"@, "private"@);
        let b = b.set_bool(efm, "isImplied"@, false);
        let b = build_expr(b, *x, efm, scope, "condition"@).0;
        emit_filters_from(b, filters, pkg, scope, k + 1)
    } else {
        b
    }
}

/// The filter conditions of a bracket-filtered import.
pub open spec fn emit_filters(b: BV, filters: Vec<Rc<Expr>>, pkg: usize, scope: usize) -> BV
    decreases filters, filters@.len() + 1,
{
    emit_filters_from(b, filters, pkg, scope, 0)
}

/// The spelled flags of an import relationship.
#[verifier::opaque]
pub open spec fn import_flags(
    b: BV,
    rel: usize,
    vis: Seq<char>,
    import_all: bool,
    recursive: bool,
) -> BV
{
    let b = b.set_str(rel, "visibility"@, vis);
    let b = b.set_bool(rel, "isImplied"@, false);
    let b = b.set_bool(rel, "isImportAll"@, import_all);
    let b = b.set_bool(rel, "isRecursive"@, recursive);
    b
}

/// An import or expose relationship. A bracket-filtered one imports an
/// anonymous owned package that holds the import and its filters.
pub open spec fn emit_import_rel(
    b: BV,
    imp: Import,
    owner: usize,
    scope: usize,
    seg: Seq<char>,
    vis: Seq<char>,
    expose: bool,
) -> (BV, usize)
    decreases imp, 3int,
{
    emit_import_rel_step(b, imp, owner, scope, seg, vis, expose)
}

/// [`emit_import_rel`], spelled out.
#[verifier::opaque]
pub open spec fn emit_import_rel_step(
    b: BV,
    imp: Import,
    owner: usize,
    scope: usize,
    seg: Seq<char>,
    vis: Seq<char>,
    expose: bool,
) -> (BV, usize)
    decreases imp, 2int,
{
    let key = if imp.is_namespace { "importedNamespace"@ } else { "importedMembership"@ };
    if imp.filters@.len() == 0 {
        let (b, rel) = b.new_relationship(import_class_spec(expose, imp.is_namespace), owner, seg);
        let b = import_flags(b, rel, vis, imp.is_import_all || expose, imp.is_recursive);
        let b = b.ref_name(rel, key, None, scope, imp.target@, None);
        (b, rel)
    } else {
        let (b, rel) = b.new_relationship(import_class_spec(expose, true), owner, seg);
        let b = import_flags(b, rel, vis, imp.is_import_all || expose, false);
        let (b, pkg) = b.new_owned_element("Package"@, rel, "filter"@);
        let b = b.set_null(pkg, "declaredName"@);
        let b = b.set_null(pkg, "declaredShortName"@);
        let b = b.set_link(rel, "importedNamespace"@, pkg);
        let (b, inner) = b.new_relationship(import_class_spec(false, imp.is_namespace), pkg, "import0"@);
        let b = import_flags(b, inner, "public"@, false, imp.is_recursive);
        let b = b.ref_name(inner, key, None, scope, imp.target@, None);
        let b = emit_filters(b, imp.filters, pkg, scope);
        (b, rel)
    }
}

/// A textual import.
pub open spec fn build_import(
    b: BV,
    imp: Import,
    vis: Option<Visibility>,
    span: Span,
    owner: usize,
    scope: usize,
    index: usize,
) -> BV
    decreases imp, 5int,
{
    build_import_step(b, imp, vis, span, owner, scope, index)
}

/// [`build_import`], spelled out.
#[verifier::opaque]
pub open spec fn build_import_step(
    b: BV,
    imp: Import,
    vis: Option<Visibility>,
    span: Span,
    owner: usize,
    scope: usize,
    index: usize,
) -> BV
    decreases imp, 4int,
{
    let seg = numbered("import"@, index);
    let (b, rel) = emit_import_rel(b, imp, owner, scope, seg, visibility_text(vis), false);
    let b = b.push_user_import(rel, span, vis == Some(Visibility::Private));
    let is_public = (vis is None) || vis == Some(Visibility::Public);
    let b = open_import(b, imp, scope, rel, is_public);
    b
}

/// An expose of a view: an import for name resolution, protected.
pub open spec fn build_expose(b: BV, imp: Import, owner: usize, scope: usize, index: usize) -> BV
    decreases imp, 5int,
{
    build_expose_step(b, imp, owner, scope, index)
}

/// [`build_expose`], spelled out.
#[verifier::opaque]
pub open spec fn build_expose_step(
    b: BV,
    imp: Import,
    owner: usize,
    scope: usize,
    index: usize,
) -> BV
    decreases imp, 4int,
{
    let seg = numbered("expose"@, index);
    let (b, rel) = emit_import_rel(b, imp, owner, scope, seg, "protected"@, true);
    let b = open_import(b, imp, scope, rel, false);
    b
}

/// An alias member.
#[verifier::opaque]
pub open spec fn build_alias(
    b: BV,
    a: Alias,
    vis: Option<Visibility>,
    owner: usize,
    scope: usize,
    index: usize,
) -> BV
{
    let seg = numbered("alias"@, index);
    let (b, rel) = new_membership(b, "Membership"@, owner, seg, vis);
    let b = b.set_name(rel, "memberName"@, a.id.name);
    let b = b.set_name(rel, "memberShortName"@, a.id.short_name);
    let b = b.ref_name(rel, "memberElement"@, None, scope, a.target@, None);
    let b = match a.id.name {
        Some(name) => {
            let b = b.push_alias(
                scope,
                name.value@,
                a.target@,
                (vis is None) || vis == Some(Visibility::Public),
            );
            b
        },
        _ => {
            b
        },
    };
    b
}

/// The element of an annotating member, under its owning membership.
#[verifier::opaque]
pub open spec fn new_annotating(
    b: BV,
    ty: Seq<char>,
    word: Seq<char>,
    id: Identification,
    vis: Option<Visibility>,
    owner: usize,
    index: usize,
) -> (BV, usize)
{
    let seg0 = numbered("m"@, index);
    let (b, rel) = new_membership(b, "OwningMembership"@, owner, seg0, vis);
    let seg = numbered(word, index);
    let (b, e) = b.new_owned_element(ty, rel, seg);
    let b = b.set_identification(e, id);
    (b, e)
}

/// A comment with the elements it is about.
#[verifier::opaque]
pub open spec fn build_comment(
    b: BV,
    c: Comment,
    vis: Option<Visibility>,
    owner: usize,
    scope: usize,
    index: usize,
) -> BV
{
    let (b, e) = new_annotating(b, "Comment"@, "comment"@, c.id, vis, owner, index);
    let body = comment_body(c.body@);
    let b = b.set_str(e, "body"@, body);
    let b = b.set_opt_str(e, "locale"@, c.locale);
    let b = emit_about(b, c.about, e, scope);
    b
}

/// A documentation member.
#[verifier::opaque]
pub open spec fn build_doc(
    b: BV,
    d: Documentation,
    vis: Option<Visibility>,
    owner: usize,
    index: usize,
) -> BV
{
    let (b, e) = new_annotating(b, "Documentation"@, "doc"@, d.id, vis, owner, index);
    let body = comment_body(d.body@);
    let b = b.set_str(e, "body"@, body);
    let b = b.set_opt_str(e, "locale"@, d.locale);
    b
}

/// A textual representation.
#[verifier::opaque]
pub open spec fn build_textual_rep(
    b: BV,
    t: TextualRepresentation,
    vis: Option<Visibility>,
    owner: usize,
    index: usize,
) -> BV
{
    let (b, e) = new_annotating(b, "TextualRepresentation"@, "rep"@, t.id, vis, owner, index);
    let b = b.set_str(e, "language"@, t.language@);
    let b = b.set_str(e, "body"@, t.body@);
    b
}

/// A filter member: its condition holds for everything the namespace
/// imports.
pub open spec fn build_filter(
    b: BV,
    expr: Rc<Expr>,
    vis: Option<Visibility>,
    owner: usize,
    scope: usize,
    index: usize,
) -> BV
    decreases expr, 21int,
{
    build_filter_step(b, expr, vis, owner, scope, index)
}

/// [`build_filter`], spelled out.
#[verifier::opaque]
pub open spec fn build_filter_step(
    b: BV,
    expr: Rc<Expr>,
    vis: Option<Visibility>,
    owner: usize,
    scope: usize,
    index: usize,
) -> BV
    decreases expr, 20int,
{
    let seg = numbered("filter"@, index);
    let (b, rel) = new_membership(b, "ElementFilterMembership"@, owner, seg, vis);
    let b = build_expr(b, *expr, rel, scope, "condition"@).0;
    let b = record_scope_filter(b, expr, scope);
    b
}

/// A dependency between clients and suppliers.
#[verifier::opaque]
pub open spec fn build_dependency(
    b: BV,
    d: Dependency,
    vis: Option<Visibility>,
    owner: usize,
    scope: usize,
    index: usize,
) -> BV
{
    let (b, e) = new_annotating(b, "Dependency"@, "dependency"@, d.id, vis, owner, index);
    let b = b.set_bool(e, "isImplied"@, false);
    let b = emit_prefix_metadata(b, d.metadata, e, scope);
    let b = set_ref_list(b, d.clients, e, "client"@, scope);
    let b = set_ref_list(b, d.suppliers, e, "supplier"@, scope);
    b
}

/// An initial-node marker.
#[verifier::opaque]
pub open spec fn build_initial_node(
    b: BV,
    qn: QualifiedName,
    vis: Option<Visibility>,
    owner: usize,
    scope: usize,
    index: usize,
) -> BV
{
    let seg0 = numbered("m"@, index);
    let seg = joined(seg0, "first"@);
    let (b, rel) = new_membership(b, "Membership"@, owner, seg, vis);
    let b = b.ref_name(rel, "memberElement"@, None, scope, qn@, None);
    b
}

/// A member whose membership carries a kind.
pub open spec fn build_kind_member(
    b: BV,
    u: Usage,
    vis: Option<Visibility>,
    owner: usize,
    scope: usize,
    index: usize,
    rel_ty: Seq<char>,
    class_override: Option<Seq<char>>,
    kind: Seq<char>,
) -> BV
    decreases u, 13int,
{
    build_kind_member_step(b, u, vis, owner, scope, index, rel_ty, class_override, kind)
}

/// [`build_kind_member`], spelled out.
#[verifier::opaque]
pub open spec fn build_kind_member_step(
    b: BV,
    u: Usage,
    vis: Option<Visibility>,
    owner: usize,
    scope: usize,
    index: usize,
    rel_ty: Seq<char>,
    class_override: Option<Seq<char>>,
    kind: Seq<char>,
) -> BV
    decreases u, 12int,
{
    let (b, rel, e) = build_usage_with(b, u, vis, owner, scope, index, rel_ty, class_override);
    let b = b.set_str(rel, "kind"@, kind);
    b
}

/// An entry, do or exit action; an unwritten one is an empty action.
pub open spec fn build_subaction(
    b: BV,
    kind: StateSubactionKind,
    action: Option<Usage>,
    vis: Option<Visibility>,
    owner: usize,
    scope: usize,
    index: usize,
) -> BV
    decreases action, 3int,
{
    build_subaction_step(b, kind, action, vis, owner, scope, index)
}

/// [`build_subaction`], spelled out.
#[verifier::opaque]
pub open spec fn build_subaction_step(
    b: BV,
    kind: StateSubactionKind,
    action: Option<Usage>,
    vis: Option<Visibility>,
    owner: usize,
    scope: usize,
    index: usize,
) -> BV
    decreases action, 2int,
{
    let b = match action {
        Some(u) => {
            let b = build_kind_member(
                b,
                u,
                vis,
                owner,
                scope,
                index,
                "StateSubactionMembership"@,
                None,
                subaction_kind_text(kind),
            );
            b
        },
        _ => {
            let seg = numbered("m"@, index);
            let (b, rel) = new_membership(b, "StateSubactionMembership"@, owner, seg, vis);
            let b = b.set_str(rel, "kind"@, subaction_kind_text(kind));
            let (b, a) = b.new_owned_element("ActionUsage"@, rel, subaction_kind_text(kind));
            let b = b.set_bool(a, "isVariation"@, false);
            b
        },
    };
    b
}

/// A return parameter.
pub open spec fn build_return(
    b: BV,
    u: Usage,
    vis: Option<Visibility>,
    owner: usize,
    scope: usize,
    index: usize,
) -> BV
    decreases u, 13int,
{
    build_return_step(b, u, vis, owner, scope, index)
}

/// [`build_return`], spelled out.
#[verifier::opaque]
pub open spec fn build_return_step(
    b: BV,
    u: Usage,
    vis: Option<Visibility>,
    owner: usize,
    scope: usize,
    index: usize,
) -> BV
    decreases u, 12int,
{
    let (b, rel, e) = build_usage_with(b, u, vis, owner, scope, index, "ReturnParameterMembership"@, None);
    let b = b.set_return_param(owner, e);
    b
}

/// A trailing result expression.
pub open spec fn build_result(
    b: BV,
    expr: Rc<Expr>,
    vis: Option<Visibility>,
    owner: usize,
    scope: usize,
    index: usize,
) -> BV
    decreases expr, 21int,
{
    build_result_step(b, expr, vis, owner, scope, index)
}

/// [`build_result`], spelled out.
#[verifier::opaque]
pub open spec fn build_result_step(
    b: BV,
    expr: Rc<Expr>,
    vis: Option<Visibility>,
    owner: usize,
    scope: usize,
    index: usize,
) -> BV
    decreases expr, 20int,
{
    let b = b.push_result_expr(owner, scope, expr);
    let seg0 = numbered("m"@, index);
    let seg = joined(seg0, "result"@);
    let (b, rel) = new_membership(b, "ResultExpressionMembership"@, owner, seg, vis);
    let b = build_expr(b, *expr, rel, scope, "expr"@).0;
    b
}

/// A standalone relationship declaration.
#[verifier::opaque]
pub open spec fn build_relationship(
    b: BV,
    d: RelationshipDecl,
    vis: Option<Visibility>,
    owner: usize,
    scope: usize,
    index: usize,
) -> BV
{
    let (b, e) = new_annotating(b, relationship_metaclass_text(d.kind), "rel"@, d.id, vis, owner, index);
    let b = b.set_bool(e, "isImplied"@, false);
    let b = set_ref(b, e, relationship_source_key_text(d.kind), scope, d.source);
    let b = set_ref(b, e, relationship_target_key_text(d.kind), scope, d.target);
    b
}

/// The subsetting of a multiplicity declaration.
#[verifier::opaque]
pub open spec fn emit_opt_subset(b: BV, subsets: Option<TargetRef>, e: usize, scope: usize) -> BV
{
    let b = match subsets {
        Some(t) => {
            let (b, s) = new_explicit(b, "Subsetting"@, e, "subset"@);
            let b = set_ref(b, s, "subsettedFeature"@, scope, t);
            b
        },
        _ => {
            b
        },
    };
    b
}

/// The bounds of a multiplicity declaration.
pub open spec fn emit_opt_bounds(b: BV, e: usize, range: Option<Multiplicity>, scope: usize) -> BV
    decreases range, 3int,
{
    emit_opt_bounds_step(b, e, range, scope)
}

/// [`emit_opt_bounds`], spelled out.
#[verifier::opaque]
pub open spec fn emit_opt_bounds_step(
    b: BV,
    e: usize,
    range: Option<Multiplicity>,
    scope: usize,
) -> BV
    decreases range, 2int,
{
    let b = match range {
        Some(m) => {
            let b = emit_bounds(b, e, m, scope);
            b
        },
        _ => {
            b
        },
    };
    b
}

/// A multiplicity declaration: it owns its bounds directly.
pub open spec fn build_multiplicity_decl(
    b: BV,
    m: MultiplicityDecl,
    vis: Option<Visibility>,
    owner: usize,
    scope: usize,
    index: usize,
) -> BV
    decreases m, 5int,
{
    build_multiplicity_decl_step(b, m, vis, owner, scope, index)
}

/// [`build_multiplicity_decl`], spelled out.
#[verifier::opaque]
pub open spec fn build_multiplicity_decl_step(
    b: BV,
    m: MultiplicityDecl,
    vis: Option<Visibility>,
    owner: usize,
    scope: usize,
    index: usize,
) -> BV
    decreases m, 4int,
{
    let seg0 = numbered("m"@, index);
    let (b, rel) = new_membership(b, "OwningMembership"@, owner, seg0, vis);
    let ty = if (m.range is Some) { "MultiplicityRange"@ } else { "Multiplicity"@ };
    let seg1 = numbered("mult"@, index);
    let seg = name_or_spec(m.id.name, seg1);
    let (b, e) = b.new_owned_element(ty, rel, seg);
    let b = b.set_identification(e, m.id);
    let b = emit_opt_subset(b, m.subsets, e, scope);
    let b = emit_opt_bounds(b, e, m.range, scope);
    let (b, body) = open_body(b, scope, m.id, e);
    let b = build_body(b, m.body, e, body);
    b
}

/// One member of a body, by its kind.
pub open spec fn build_member_inner(
    b: BV,
    member: Member,
    owner: usize,
    scope: usize,
    index: usize,
) -> BV
    decreases member, 3int,
{
    build_member_inner_step(b, member, owner, scope, index)
}

/// [`build_member_inner`], spelled out.
#[verifier::opaque]
pub open spec fn build_member_inner_step(
    b: BV,
    member: Member,
    owner: usize,
    scope: usize,
    index: usize,
) -> BV
    decreases member, 2int,
{
    let b = if member.leading_then {
        let b = emit_leading_then(b, member.leading_then_multiplicity, owner, scope, index);
        b
    } else {
        b
    };
    let vis = member.visibility;
    let b = match member.kind {
        MemberKind::Package(p) => {
            let b = build_package(b, p, vis, owner, scope, index);
            b
        },
        MemberKind::Import(imp) => {
            let b = build_import(b, imp, vis, member.span, owner, scope, index);
            b
        },
        MemberKind::Alias(a) => {
            let b = build_alias(b, a, vis, owner, scope, index);
            b
        },
        MemberKind::Comment(c) => {
            let b = build_comment(b, c, vis, owner, scope, index);
            b
        },
        MemberKind::Doc(d) => {
            let b = build_doc(b, d, vis, owner, index);
            b
        },
        MemberKind::TextualRep(t) => {
            let b = build_textual_rep(b, t, vis, owner, index);
            b
        },
        MemberKind::Filter(expr) => {
            let b = build_filter(b, expr, vis, owner, scope, index);
            b
        },
        MemberKind::Definition(d) => {
            let b = build_definition(b, d, vis, owner, scope, index);
            b
        },
        MemberKind::Usage(u) => {
            let b = build_usage(b, u, vis, owner, scope, index);
            b
        },
        MemberKind::Dependency(d) => {
            let b = build_dependency(b, d, vis, owner, scope, index);
            b
        },
        MemberKind::InitialNode(qn) => {
            let b = build_initial_node(b, qn, vis, owner, scope, index);
            b
        },
        MemberKind::Subject(u) => {
            let b = build_usage_with(
                b,
                u,
                vis,
                owner,
                scope,
                index,
                "SubjectMembership"@,
                Some("ReferenceUsage"@),
            ).0;
            b
        },
        MemberKind::Actor(u) => {
            let b = build_usage_with(
                b,
                u,
                vis,
                owner,
                scope,
                index,
                "ActorMembership"@,
                Some("PartUsage"@),
            ).0;
            b
        },
        MemberKind::Stakeholder(u) => {
            let b = build_usage_with(
                b,
                u,
                vis,
                owner,
                scope,
                index,
                "StakeholderMembership"@,
                Some("PartUsage"@),
            ).0;
            b
        },
        MemberKind::Objective(u) => {
            let b = build_usage_with(
                b,
                u,
                vis,
                owner,
                scope,
                index,
                "ObjectiveMembership"@,
                Some("RequirementUsage"@),
            ).0;
            b
        },
        MemberKind::RequirementConstraint { kind, usage } => {
            let b = build_kind_member(
                b,
                usage,
                vis,
                owner,
                scope,
                index,
                "RequirementConstraintMembership"@,
                Some("ConstraintUsage"@),
                requirement_kind_text(kind),
            );
            b
        },
        MemberKind::FramedConcern(u) => {
            let b = build_kind_member(
                b,
                u,
                vis,
                owner,
                scope,
                index,
                "FramedConcernMembership"@,
                Some("ConcernUsage"@),
                "requirement"@,
            );
            b
        },
        MemberKind::RequirementVerification(u) => {
            let b = build_kind_member(
                b,
                u,
                vis,
                owner,
                scope,
                index,
                "RequirementVerificationMembership"@,
                Some("RequirementUsage"@),
                "requirement"@,
            );
            b
        },
        MemberKind::StateSubaction { kind, action } => {
            let b = build_subaction(b, kind, action, vis, owner, scope, index);
            b
        },
        MemberKind::Expose(imp) => {
            let b = build_expose(b, imp, owner, scope, index);
            b
        },
        MemberKind::Render(u) => {
            let b = build_usage_with(
                b,
                u,
                vis,
                owner,
                scope,
                index,
                "ViewRenderingMembership"@,
                Some("RenderingUsage"@),
            ).0;
            b
        },
        MemberKind::Return(u) => {
            let b = build_return(b, u, vis, owner, scope, index);
            b
        },
        MemberKind::Result(expr) => {
            let b = build_result(b, expr, vis, owner, scope, index);
            b
        },
        MemberKind::Relationship(d) => {
            let b = build_relationship(b, d, vis, owner, scope, index);
            b
        },
        MemberKind::MultiplicityDecl(m) => {
            let b = build_multiplicity_decl(b, m, vis, owner, scope, index);
            b
        },
    };
    b
}

/// The links a named argument's parameter is looked up through.
#[verifier::opaque]
pub open spec fn callee_chain_spec(callee: TargetRef) -> Option<Seq<QnV>> {
    match callee {
        TargetRef::Name(qn) => Some(seq![qn@]),
        TargetRef::Chain(links) => if links@.len() > 0 {
            Some(qns_view(links@))
        } else {
            None
        },
    }
}

/// The name on the left of `meta` or `@@`: a metadata reference.
#[verifier::opaque]
pub open spec fn meta_target_spec(op: ClassificationOp, e: Expr) -> Option<QualifiedName> {
    if op == ClassificationOp::Meta || op == ClassificationOp::MetaAtType {
        match e.kind {
            ExprKind::Ref(qn) => Some(qn),
            _ => None,
        }
    } else {
        None
    }
}

pub open spec fn single_link_spec(qn: QualifiedName) -> Seq<QnV> {
    seq![qn@]
}

#[verifier::opaque]
pub open spec fn last_index_spec(links: Vec<QualifiedName>) -> usize {
    (links@.len() - 1) as usize
}

/// A chain of several links owns the feature it refers to.
#[verifier::opaque]
pub open spec fn satisfaction_membership_spec(by: TargetRef) -> Seq<char> {
    match by {
        TargetRef::Name(_) => "Membership"@,
        TargetRef::Chain(links) => if links@.len() >= 2 {
            "OwningMembership"@
        } else {
            "Membership"@
        },
    }
}

#[verifier::opaque]
pub open spec fn is_port_owner_spec(ty: Option<Seq<char>>) -> bool {
    ty == Some("PortDefinition"@) || ty == Some("PortUsage"@)
}

/// The metaclass of a usage element: enumeration literals are
/// EnumerationUsages, some memberships fix the metaclass.
#[verifier::opaque]
pub open spec fn usage_class_spec(
    enum_literal: bool,
    class_override: Option<Seq<char>>,
    kind: UsageKind,
    dialect: Dialect,
) -> Seq<char> {
    if enum_literal {
        "EnumerationUsage"@
    } else {
        match class_override {
            Some(c) => c,
            None => usage_metaclass_text(kind, dialect),
        }
    }
}

/// The direction a parameter membership forces.
#[verifier::opaque]
pub open spec fn implied_direction_spec(rel_ty: Seq<char>) -> Option<Seq<char>> {
    if rel_ty == "ReturnParameterMembership"@ {
        Some("out"@)
    } else if rel_ty == "SubjectMembership"@ || rel_ty == "ActorMembership"@ || rel_ty == "StakeholderMembership"@ {
        Some("in"@)
    } else {
        None
    }
}

/// Whether a metadata usage annotates its owner: one without `about`.
#[verifier::opaque]
pub open spec fn annotates_owner_spec(u: Usage) -> bool {
    u.kind == UsageKind::Metadata && match u.detail {
        UsageDetail::Metadata { about } => about@.len() == 0,
        _ => false,
    }
}

/// The metaclass a bare `@M;` member names, where the member counts as
/// prefix metadata.
#[verifier::opaque]
pub open spec fn bare_metadata_spec(
    u: Usage,
    vis: Option<Visibility>,
    dialect: Dialect,
    in_enum_body: bool,
) -> Option<QnV> {
    if dialect != Dialect::Kerml && !in_enum_body && vis is None {
        plain_metadata_spec(u)
    } else {
        None
    }
}

/// The membership metaclass of a usage member.
#[verifier::opaque]
pub open spec fn usage_membership_spec(
    u: Usage,
    in_enum_body: bool,
    in_interface: bool,
    in_namespace: bool,
    dialect: Dialect,
) -> Seq<char> {
    if in_enum_body || u.prefix.is_variant {
        "VariantMembership"@
    } else if u.prefix.is_end && in_interface {
        "FeatureMembership"@
    } else if u.prefix.is_end {
        "EndFeatureMembership"@
    } else if u.kind == UsageKind::Metadata && dialect != Dialect::Kerml {
        "OwningMembership"@
    } else if u.prefix.is_type_member || in_namespace {
        "OwningMembership"@
    } else {
        "FeatureMembership"@
    }
}

/// The name of a port's conjugate.
#[verifier::opaque]
pub open spec fn tilde_name_spec(name: Option<Name>) -> Seq<char> {
    match name {
        Some(n) => joined("~"@, n.value@),
        None => "~"@,
    }
}

#[verifier::opaque]
pub open spec fn import_class_spec(expose: bool, is_namespace: bool) -> Seq<char> {
    if expose {
        if is_namespace {
            "NamespaceExpose"@
        } else {
            "MembershipExpose"@
        }
    } else {
        if is_namespace {
            "NamespaceImport"@
        } else {
            "MembershipImport"@
        }
    }
}

/// A reference through the first `m` links of a chain.
#[verifier::opaque]
pub open spec fn set_chain_prefix(
    b: BV,
    e: usize,
    key: Seq<char>,
    scope: usize,
    links: Vec<QualifiedName>,
    m: usize,
) -> BV {
    set_chain(b, e, key, scope, links, m as nat, None)
}

/// The last absolute link of a chain up to the `k`-th, or none.
pub open spec fn last_global(c: Seq<QnV>, k: int) -> Option<int>
    decreases k,
{
    if 0 < k <= c.len() {
        if c[k - 1].is_global {
            Some(k - 1)
        } else {
            last_global(c, k - 1)
        }
    } else {
        None
    }
}

/// The context a chain link resolves in: the links before it, from the last
/// absolute one on.
pub open spec fn anchored(c: Seq<QnV>) -> Seq<QnV> {
    match last_global(c, c.len() as int) {
        Some(g) => c.subrange(g, c.len() as int),
        None => c,
    }
}

/// The context of the `k`-th link after the spine of the base expression.
#[verifier::opaque]
pub open spec fn link_context(
    spine: Option<Seq<QnV>>,
    links: Seq<QnV>,
    k: int,
) -> Option<Seq<QnV>> {
    let before = match spine {
        Some(s) => s,
        None => Seq::empty(),
    } + links.subrange(0, k);
    let c = anchored(before);
    if c.len() == 0 {
        None
    } else {
        Some(c)
    }
}

/// How a chain link resolves: an absolute link by itself, a relative one as
/// a declared member of its context.
#[verifier::opaque]
pub open spec fn link_pending(
    b: BV,
    e: usize,
    key: Seq<char>,
    scope: usize,
    qn: QnV,
    chain: Option<Seq<QnV>>,
) -> PendingV {
    PendingV {
        elem: e,
        key,
        index: None,
        scope,
        qn,
        exclude: if qn.is_global { None } else { b.pending_exclude },
        declared_only: !qn.is_global,
        chain: if qn.is_global { None } else { chain },
        spec_idx: None,
    }
}

/// The links of a member chain from the `k`-th on.
#[verifier::opaque]
pub open spec fn member_links_from(
    b: BV,
    links: Seq<QnV>,
    spine: Option<Seq<QnV>>,
    feature: usize,
    scope: usize,
    k: int,
) -> BV
    decreases links.len() - k,
{
    if 0 <= k < links.len() {
        let (b, fc) = new_explicit(b, "FeatureChaining"@, feature, numbered("chaining"@, k as usize));
        let b = b.push_pending(
            link_pending(b, fc, "chainingFeature"@, scope, links[k], link_context(spine, links, k)),
        );
        member_links_from(b, links, spine, feature, scope, k + 1)
    } else {
        b
    }
}

/// A feature chain expression over `base`: a single member is referenced,
/// several become an owned feature chain.
pub open spec fn chain_members(
    b: BV,
    base: Expr,
    links: Seq<QnV>,
    rel: usize,
    scope: usize,
    seg: Seq<char>,
) -> (BV, usize)
    decreases base, 25int,
{
    chain_members_step(b, base, links, rel, scope, seg)
}

/// [`chain_members`], spelled out.
#[verifier::opaque]
pub open spec fn chain_members_step(
    b: BV,
    base: Expr,
    links: Seq<QnV>,
    rel: usize,
    scope: usize,
    seg: Seq<char>,
) -> (BV, usize)
    decreases base, 24int,
{
    let (b, e) = fixed_operator_expr(b, "FeatureChainExpression"@, rel, seg, "."@);
    let b = operand_at(b, e, base, scope, 0);
    if links.len() > 1 {
        let (b, m) = new_explicit(b, "OwningMembership"@, e, "member"@);
        let (b, feature) = b.new_owned_element("Feature"@, m, "memberElement.chain"@);
        let b = member_links_from(b, links, chain_spine_spec(base), feature, scope, 0);
        (b.set_link(m, "memberElement"@, feature), e)
    } else {
        let (b, m) = new_explicit(b, "Membership"@, e, "member"@);
        (b.push_pending(link_pending(b, m, "memberElement"@, scope, links[0], chain_spine_spec(base))), e)
    }
}

/// A chain of member steps: nested steps by name are one chain over the
/// innermost expression.
pub open spec fn chain_step(
    b: BV,
    base: Expr,
    links: Seq<QnV>,
    rel: usize,
    scope: usize,
    seg: Seq<char>,
) -> (BV, usize)
    decreases base, 27int,
{
    chain_step_step(b, base, links, rel, scope, seg)
}

/// [`chain_step`], spelled out.
#[verifier::opaque]
pub open spec fn chain_step_step(
    b: BV,
    base: Expr,
    links: Seq<QnV>,
    rel: usize,
    scope: usize,
    seg: Seq<char>,
) -> (BV, usize)
    decreases base, 26int,
{
    match base.kind {
        ExprKind::ChainStep { target, member } => match member {
            TargetRef::Name(qn) => chain_step(b, *target, seq![qn@] + links, rel, scope, seg),
            TargetRef::Chain(_) => chain_members(b, base, links, rel, scope, seg),
        },
        _ => chain_members(b, base, links, rel, scope, seg),
    }
}

/// Filter expressions recorded with the scope they resolve from, from the
/// `k`-th on.
#[verifier::opaque]
pub open spec fn record_filters_from(b: BV, filters: Seq<Rc<Expr>>, scope: usize, k: int) -> BV
    decreases filters.len() - k,
{
    if 0 <= k < filters.len() {
        record_filters_from(b.push_filter_expr(scope, filters[k]), filters, scope, k + 1)
    } else {
        b
    }
}

/// A filter condition of the whole scope.
#[verifier::opaque]
pub open spec fn record_scope_filter(b: BV, expr: Rc<Expr>, scope: usize) -> BV {
    b.push_filter_expr(scope, expr).push_scope_filter(scope, b.filter_exprs.len() as usize)
}

/// What an import makes visible in a scope: a namespace, or a member and —
/// recursively — its contents.
#[verifier::opaque]
pub open spec fn open_import(b: BV, imp: Import, scope: usize, rel: usize, is_public: bool) -> BV {
    let first = b.filter_exprs.len();
    let fids = Seq::new(imp.filters@.len(), |k: int| (first + k) as usize);
    let b = record_filters_from(b, imp.filters@, scope, 0);
    let namespace = ImportV {
        target: imp.target@,
        recursive: imp.is_recursive,
        is_import_all: imp.is_import_all,
        filters: fids,
        relationship: rel,
        is_public,
    };
    if imp.is_namespace {
        b.push_import(scope, namespace)
    } else {
        let b = b.push_member_import(scope, ImportV { recursive: false, ..namespace });
        if imp.is_recursive {
            b.push_import(scope, namespace)
        } else {
            b
        }
    }
}

/// How many bare end members stand among the first `k` members.
pub open spec fn bare_count(ms: Seq<Member>, k: int) -> nat
    decreases k,
{
    if 0 < k <= ms.len() {
        bare_count(ms, k - 1) + if bare_end_spec(ms[k - 1]) {
            1nat
        } else {
            0nat
        }
    } else {
        0
    }
}

/// The ends a connector detail writes.
pub open spec fn written_end_count(u: Usage) -> nat {
    match u.detail {
        UsageDetail::Connector { ends } => ends@.len(),
        _ => 0,
    }
}

pub open spec fn bare_member_count(u: Usage) -> nat {
    match u.body {
        Some(ms) => bare_count(ms@, ms@.len() as int),
        None => 0,
    }
}

/// Whether the bare end members of a connector's body count as its ends.
#[verifier::opaque]
pub open spec fn merges_ends(u: Usage) -> bool {
    &&& u.kind == UsageKind::Connection || u.kind == UsageKind::Allocation || u.kind == UsageKind::Connector
    &&& u.detail is Connector || u.detail is Plain
    &&& bare_member_count(u) > 0
    &&& written_end_count(u) + bare_member_count(u) >= 2
}

/// A bare end member as a connector end.
pub open spec fn emit_bare_end(
    b: BV,
    m: Member,
    parent: usize,
    scope: usize,
    i: usize,
) -> (BV, usize)
    decreases m, 3int,
{
    emit_bare_end_step(b, m, parent, scope, i)
}

/// [`emit_bare_end`], spelled out.
#[verifier::opaque]
pub open spec fn emit_bare_end_step(
    b: BV,
    m: Member,
    parent: usize,
    scope: usize,
    i: usize,
) -> (BV, usize)
    decreases m, 2int,
{
    match m.kind {
        MemberKind::Usage(u) => {
            let (b, ru) = open_end(b, parent, i, u.declaration.id.name);
            let b = emit_opt_multiplicity(b, ru, u.declaration.multiplicity, scope);
            (close_end(b, parent, ru, bare_end_target(m)->0, scope), ru)
        },
        _ => (b, parent),
    }
}

/// The end features of a connector's written ends, from the `k`-th on,
/// after those already made.
pub open spec fn end_elems_from(
    b: BV,
    ends: Vec<ConnectorEnd>,
    parent: usize,
    scope: usize,
    k: int,
    made: Seq<usize>,
) -> (BV, Seq<usize>)
    decreases ends, ends@.len() - k,
{
    if 0 <= k < ends@.len() {
        let (b, ru) = emit_connector_end(b, ends@[k], parent, scope, k as usize);
        end_elems_from(b, ends, parent, scope, k + 1, made.push(ru))
    } else {
        (b, made)
    }
}

/// The end features of the bare end members from the `k`-th member on.
pub open spec fn bare_elems_from(
    b: BV,
    ms: Vec<Member>,
    parent: usize,
    scope: usize,
    k: int,
    made: Seq<usize>,
) -> (BV, Seq<usize>)
    decreases ms, ms@.len() - k,
{
    if 0 <= k < ms@.len() {
        if bare_end_spec(ms@[k]) {
            let (b, ru) = emit_bare_end(b, ms@[k], parent, scope, made.len() as usize);
            bare_elems_from(b, ms, parent, scope, k + 1, made.push(ru))
        } else {
            bare_elems_from(b, ms, parent, scope, k + 1, made)
        }
    } else {
        (b, made)
    }
}

/// The detail of a usage, and the end features of a connector's.
pub open spec fn usage_ends(b: BV, u: Usage, e: usize, scope: usize) -> (BV, Seq<usize>)
    decreases u, 5int,
{
    usage_ends_step(b, u, e, scope)
}

/// [`usage_ends`], spelled out.
#[verifier::opaque]
pub open spec fn usage_ends_step(b: BV, u: Usage, e: usize, scope: usize) -> (BV, Seq<usize>)
    decreases u, 4int,
{
    match u.detail {
        UsageDetail::Connector { ends } => {
            let (b, made) = end_elems_from(b, ends, e, scope, 0, Seq::empty());
            if merges_ends(u) {
                match u.body {
                    Some(ms) => bare_elems_from(b, ms, e, scope, 0, made),
                    None => (b, made),
                }
            } else {
                (b, made)
            }
        },
        _ => if merges_ends(u) {
            match u.body {
                Some(ms) => bare_elems_from(b, ms, e, scope, 0, Seq::empty()),
                None => (b, Seq::empty()),
            }
        } else {
            (build_usage_detail(b, u.detail, e, scope), Seq::empty())
        },
    }
}

/// The connected feature of the `k`-th bare end member from `from` on.
pub open spec fn nth_bare_target(ms: Seq<Member>, from: int, k: int) -> Option<TargetRef>
    decreases ms.len() - from,
{
    if 0 <= from < ms.len() {
        if bare_end_spec(ms[from]) {
            if k == 0 {
                bare_end_target(ms[from])
            } else {
                nth_bare_target(ms, from + 1, k - 1)
            }
        } else {
            nth_bare_target(ms, from + 1, k)
        }
    } else {
        None
    }
}

/// The connected feature of a connector's `k`-th end.
#[verifier::opaque]
pub open spec fn nth_end_target(u: Usage, k: int) -> Option<TargetRef> {
    match u.detail {
        UsageDetail::Connector { ends } => if k < ends@.len() {
            Some(ends@[k].target)
        } else {
            match u.body {
                Some(ms) => nth_bare_target(ms@, 0, k - ends@.len()),
                None => None,
            }
        },
        _ => match u.body {
            Some(ms) => nth_bare_target(ms@, 0, k),
            None => None,
        },
    }
}

/// The name under which a binary connector's body sees one of its ends: a
/// scope of its own, based on what the end connects.
#[verifier::opaque]
pub open spec fn emit_implied_end(
    b: BV,
    name: Seq<char>,
    end: usize,
    target: Option<TargetRef>,
    scope: usize,
    body: usize,
) -> BV {
    let (b, end_scope) = b.push_scope(Some(scope));
    let b = b.set_scope_owner(end_scope, end);
    let b = match target {
        Some(t) => match flat_target_qn_spec(t) {
            Some(qn) => b.push_base(end_scope, qn),
            None => b,
        },
        None => b,
    };
    b.set_elem_scope(end, end_scope).push_implied_end(body, name, end, end_scope)
}

/// The library base of a binary connection or interface.
#[verifier::opaque]
pub open spec fn binary_base_spec(kind: UsageKind) -> Option<LibraryNameV> {
    if kind == UsageKind::Connection {
        Some(lib("Connections"@, "binaryConnections"@))
    } else if kind == UsageKind::Interface {
        Some(lib("Interfaces"@, "binaryInterfaces"@))
    } else {
        None
    }
}

/// What a connector-family usage with exactly two ends adds: the library's
/// binary base, and its ends under the names `source` and `target`.
#[verifier::opaque]
pub open spec fn binary_connector(
    b: BV,
    u: Usage,
    ends: Seq<usize>,
    scope: usize,
    body: usize,
) -> BV {
    if (u.kind == UsageKind::Connection || u.kind == UsageKind::Interface || u.kind == UsageKind::Allocation
        || u.kind == UsageKind::Connector) && ends.len() == 2 {
        let b = if b.dialect == Dialect::Sysml {
            match binary_base_spec(u.kind) {
                Some(base) => b.push_base(body, lib_qn_spec(base)),
                None => b,
            }
        } else {
            b
        };
        let b = emit_implied_end(b, "source"@, ends[0], nth_end_target(u, 0), scope, body);
        emit_implied_end(b, "target"@, ends[1], nth_end_target(u, 1), scope, body)
    } else {
        b
    }
}

/// The body members from the `k`-th on, numbered from `num`; bare ends that
/// count as connector ends are left out.
pub open spec fn usage_members_from(
    b: BV,
    ms: Vec<Member>,
    e: usize,
    scope: usize,
    skip_bare: bool,
    k: int,
    num: int,
) -> BV
    decreases ms, ms@.len() - k,
{
    if 0 <= k < ms@.len() {
        if skip_bare && bare_end_spec(ms@[k]) {
            usage_members_from(b, ms, e, scope, skip_bare, k + 1, num)
        } else {
            usage_members_from(
                build_member(b, ms@[k], e, scope, num as usize),
                ms,
                e,
                scope,
                skip_bare,
                k + 1,
                num + 1,
            )
        }
    } else {
        b
    }
}

/// The feature value of a usage: its expression does not see the feature
/// itself.
pub open spec fn emit_value(b: BV, value: ValuePart, e: usize, scope: usize) -> BV
    decreases value, 3int,
{
    emit_value_step(b, value, e, scope)
}

/// [`emit_value`], spelled out.
#[verifier::opaque]
pub open spec fn emit_value_step(b: BV, value: ValuePart, e: usize, scope: usize) -> BV
    decreases value, 2int,
{
    let is_default = value.kind == ValueKind::Default || value.kind == ValueKind::DefaultInitial;
    let is_initial = value.kind == ValueKind::Initial || value.kind == ValueKind::DefaultInitial;
    let b = b.set_value(e, scope, value.expr);
    let b = if is_default {
        b.mark_default(e)
    } else {
        b
    };
    let (b, fv) = new_explicit(b, "FeatureValue"@, e, "value"@);
    let b = b.set_bool(fv, "isInitial"@, is_initial).set_bool(fv, "isDefault"@, is_default);
    let saved = b.pending_exclude;
    let b = build_expr(b.set_exclude(Some(e)), *value.expr, fv, scope, "expr"@).0;
    b.set_exclude(saved)
}

/// The value, detail and body of a usage element.
pub open spec fn finish_usage_element(b: BV, u: Usage, e: usize, scope: usize, body: usize) -> BV
    decreases u, 7int,
{
    finish_usage_element_step(b, u, e, scope, body)
}

/// [`finish_usage_element`], spelled out.
#[verifier::opaque]
pub open spec fn finish_usage_element_step(
    b: BV,
    u: Usage,
    e: usize,
    scope: usize,
    body: usize,
) -> BV
    decreases u, 6int,
{
    let b = match u.value {
        Some(value) => emit_value(b, value, e, scope),
        None => b,
    };
    let b = if u.kind == UsageKind::State || u.kind == UsageKind::Exhibit {
        b.set_bool(e, "isParallel"@, u.is_parallel)
    } else {
        b
    };
    let (b, ends) = usage_ends(b, u, e, scope);
    let b = binary_connector(b, u, ends, scope, body);
    match u.body {
        Some(ms) => usage_members_from(b, ms, e, body, merges_ends(u), 0, 0),
        None => b,
    }
}

/// The first element from `k` on that a relationship from `mark` on owns.
#[verifier::opaque]
pub open spec fn first_owned_from(b: BV, k: int, mark: int) -> Option<usize>
    decreases b.n() - k,
{
    if 0 <= k < b.n() {
        if b.elements[k].owning is Some && b.elements[k].owning->0 >= mark {
            Some(k as usize)
        } else {
            first_owned_from(b, k + 1, mark)
        }
    } else {
        None
    }
}

/// Of the elements from `k` on declared inside `span`, the one declared
/// first in the text, against the best so far.
#[verifier::opaque]
pub open spec fn first_declared_from(
    b: BV,
    k: int,
    span: Span,
    best: Option<usize>,
) -> Option<usize>
    decreases b.n() - k,
{
    if 0 <= k < b.n() {
        let inside = match b.elements[k].notes.decl_span {
            Some(s) => s.start >= span.start && s.end <= span.end && match best {
                Some(i) => match b.elements[i as int].notes.decl_span {
                    Some(t) => s.start < t.start,
                    None => true,
                },
                None => true,
            },
            None => false,
        };
        first_declared_from(b, k + 1, span, if inside { Some(k as usize) } else { best })
    } else {
        best
    }
}

/// One member of a body, its source extent recorded on the element it
/// declares.
pub open spec fn build_member(b: BV, member: Member, owner: usize, scope: usize, index: usize) -> BV
    decreases member, 5int,
{
    build_member_step(b, member, owner, scope, index)
}

/// [`build_member`], spelled out.
#[verifier::opaque]
pub open spec fn build_member_step(
    b: BV,
    member: Member,
    owner: usize,
    scope: usize,
    index: usize,
) -> BV
    decreases member, 4int,
{
    let mark = b.n() as int;
    let b = build_member_inner(b, member, owner, scope, index);
    let b = match first_owned_from(b, mark, mark) {
        Some(i) => b.set_member_span(i, member.span),
        None => b,
    };
    if member.leading_then {
        match first_declared_from(b, mark, member.span, None) {
            Some(i) => b.set_member_span(i, member.span),
            None => b,
        }
    } else {
        b
    }
}

} // verus!
