//! What members leave in the graph and in their scope when they are lowered.
use crate::ast::{
    Alias, ConnectorEnd, Identification, Import, Literal, QnV, QualifiedName, Span, TargetRef,
    TypeRef, Visibility,
};
use crate::names::{Binding, LookupAccess};
use crate::props::{LinkV, ValueV};
use crate::shape::{
    build_alias, build_import, build_import_step, build_literal, emit_crossing, emit_import_rel,
    emit_import_rel_step, emit_redefinition, emit_reference, emit_subsetting, emit_typing, flow_end,
    flow_ends, flow_feature, import_class_spec, import_flags, new_explicit, new_membership, open_import,
    record_filters_from, reference_expr, set_ref, set_ref_excluding,
};
use crate::state::{AliasV, ImportV, SpecTargetV, BV};
use crate::tables::visibility_text;
use crate::text::numbered;
use vstd::prelude::*;

verus! {

/// Whether a relationship from an element to what a name stands for was added:
/// it is owned by the element, points back at it, and its target is to be
/// resolved from the scope in which the name is written.
pub open spec fn relates(
    a: BV,
    b: BV,
    e: usize,
    ty: Seq<char>,
    source: Seq<char>,
    target: Seq<char>,
    scope: usize,
    qn: QnV,
) -> bool {
    let r = a.n() as usize;
    let x = b.elements[r as int];
    &&& b.n() == a.n() + 1
    &&& x.ty == ty
    &&& x.carrier == Some(e)
    &&& x.props.contains_key(source)
    &&& x.props[source] == ValueV::Ref(LinkV::Id(a.elements[e as int].id))
    &&& b.elements[e as int].owned == a.elements[e as int].owned.push(r)
    &&& b.pending.len() == a.pending.len() + 1
    &&& b.pending.last().elem == r
    &&& b.pending.last().key == target
    &&& b.pending.last().scope == scope
    &&& b.pending.last().qn == qn
    &&& b.pending.last().chain is None
}

/// Whether a specialization was recorded that the last reference reports to.
pub open spec fn reports(a: BV, b: BV, e: usize, kind: Seq<char>, scope: usize, qn: QnV) -> bool {
    &&& b.spec_targets == a.spec_targets.push(SpecTargetV { elem: e, kind, scope, qn })
    &&& b.pending.last().spec_idx == Some(a.spec_targets.len() as usize)
}

/// A typing by name adds a typing from the feature to the type, a conjugated
/// one for a conjugated port, and is reported as a typing.
pub proof fn law_typings_name_the_type(
    b: BV,
    t: TypeRef,
    qn: QualifiedName,
    e: usize,
    scope: usize,
    num: usize,
)
    requires
        e < b.n(),
        b.n() < usize::MAX,
        t.target == TargetRef::Name(qn),
    ensures
        ({
            let r = emit_typing(b, t, e, scope, num);
            let ty = if t.is_conjugated {
                "ConjugatedPortTyping"@
            } else {
                "FeatureTyping"@
            };
            &&& relates(b, r, e, ty, "typedFeature"@, "type"@, scope, qn@)
            &&& reports(b, r, e, "FeatureTyping"@, scope, qn@)
        }),
{
    reveal(emit_typing);
    reveal(set_ref);
    reveal(set_ref_excluding);
    reveal(new_explicit);
    reveal(BV::new_relationship);
    reveal(BV::set_bool);
    reveal(BV::set_link);
    reveal(BV::set);
    reveal(BV::retype);
    reveal(BV::announce_spec_target);
    reveal(BV::ref_name);
    reveal(BV::set_spec_idx);
    reveal(BV::push_pending);
}
/// A subsetting by name goes from the feature to the one it subsets, which the
/// feature itself does not hide.
pub proof fn law_subsettings_name_the_subsetted_feature(
    b: BV,
    t: TargetRef,
    qn: QualifiedName,
    e: usize,
    scope: usize,
    num: usize,
)
    requires
        e < b.n(),
        b.n() < usize::MAX,
        t == TargetRef::Name(qn),
    ensures
        ({
            let r = emit_subsetting(b, t, e, scope, num);
            &&& relates(b, r, e, "Subsetting"@, "subsettingFeature"@, "subsettedFeature"@, scope, qn@)
            &&& r.pending.last().exclude == Some(e)
            &&& reports(b, r, e, "Subsetting"@, scope, qn@)
        }),
{
    reveal(emit_subsetting);
    reveal(set_ref_excluding);
    reveal(new_explicit);
    reveal(BV::new_relationship);
    reveal(BV::set_bool);
    reveal(BV::set_link);
    reveal(BV::set);
    reveal(BV::retype);
    reveal(BV::announce_spec_target);
    reveal(BV::ref_name);
    reveal(BV::set_spec_idx);
    reveal(BV::push_pending);
}

/// A redefinition by name goes from the feature to the one it redefines, which
/// the feature itself does not hide.
pub proof fn law_redefinitions_name_the_redefined_feature(
    b: BV,
    t: TargetRef,
    qn: QualifiedName,
    e: usize,
    scope: usize,
    num: usize,
)
    requires
        e < b.n(),
        b.n() < usize::MAX,
        t == TargetRef::Name(qn),
    ensures
        ({
            let r = emit_redefinition(b, t, e, scope, num);
            &&& relates(b, r, e, "Redefinition"@, "redefiningFeature"@, "redefinedFeature"@, scope, qn@)
            &&& r.pending.last().exclude == Some(e)
            &&& reports(b, r, e, "Redefinition"@, scope, qn@)
        }),
{
    reveal(emit_redefinition);
    reveal(set_ref_excluding);
    reveal(new_explicit);
    reveal(BV::new_relationship);
    reveal(BV::set_bool);
    reveal(BV::set_link);
    reveal(BV::set);
    reveal(BV::retype);
    reveal(BV::announce_spec_target);
    reveal(BV::ref_name);
    reveal(BV::set_spec_idx);
    reveal(BV::push_pending);
}

/// A reference subsetting by name goes from the feature to the one it stands
/// for.
pub proof fn law_references_name_the_referenced_feature(
    b: BV,
    t: TargetRef,
    qn: QualifiedName,
    e: usize,
    scope: usize,
    num: usize,
)
    requires
        e < b.n(),
        b.n() < usize::MAX,
        t == TargetRef::Name(qn),
    ensures
        ({
            let r = emit_reference(b, t, e, scope, num);
            &&& relates(b, r, e, "ReferenceSubsetting"@, "subsettingFeature"@, "referencedFeature"@, scope, qn@)
            &&& r.pending.last().exclude == Some(e)
        }),
{
    reveal(emit_reference);
    reveal(set_ref_excluding);
    reveal(new_explicit);
    reveal(BV::new_relationship);
    reveal(BV::set_bool);
    reveal(BV::set_link);
    reveal(BV::set);
    reveal(BV::retype);
    reveal(BV::announce_spec_target);
    reveal(BV::ref_name);
    reveal(BV::set_spec_idx);
    reveal(BV::push_pending);
}

/// A cross subsetting by name goes from the feature to the one it crosses.
pub proof fn law_crossings_name_the_crossed_feature(
    b: BV,
    t: TargetRef,
    qn: QualifiedName,
    e: usize,
    scope: usize,
    num: usize,
)
    requires
        e < b.n(),
        b.n() < usize::MAX,
        t == TargetRef::Name(qn),
    ensures
        ({
            let r = emit_crossing(b, t, e, scope, num);
            &&& relates(b, r, e, "CrossSubsetting"@, "subsettingFeature"@, "crossedFeature"@, scope, qn@)
            &&& r.pending.last().exclude == Some(e)
        }),
{
    reveal(emit_crossing);
    reveal(set_ref_excluding);
    reveal(new_explicit);
    reveal(BV::new_relationship);
    reveal(BV::set_bool);
    reveal(BV::set_link);
    reveal(BV::set);
    reveal(BV::retype);
    reveal(BV::announce_spec_target);
    reveal(BV::ref_name);
    reveal(BV::set_spec_idx);
    reveal(BV::push_pending);
}

/// Whether a written visibility lets a member be seen by all: it does unless it
/// is written to be private or protected.
pub open spec fn open_to_all(vis: Option<Visibility>) -> bool {
    vis is None || vis == Some(Visibility::Public)
}

/// An alias declares its name in its scope for what it names, and a membership
/// whose member is to be resolved from there.
pub proof fn law_aliases_are_declared(
    b: BV,
    a: Alias,
    vis: Option<Visibility>,
    owner: usize,
    scope: usize,
    index: usize,
)
    requires
        owner < b.n(),
        scope < b.ns(),
        b.n() < usize::MAX,
    ensures
        ({
            let r = build_alias(b, a, vis, owner, scope, index);
            let before = b.scopes[scope as int];
            let m = b.n() as usize;
            &&& r.scopes[scope as int].aliases == (match a.id.name {
                Some(name) => before.aliases.push(
                    AliasV { name: name.value@, target: a.target@, is_public: open_to_all(vis) },
                ),
                None => before.aliases,
            })
            &&& r.scopes[scope as int].names == before.names
            &&& r.n() == b.n() + 1
            &&& r.elements[m as int].ty == "Membership"@
            &&& r.elements[m as int].carrier == Some(owner)
            &&& r.pending.last().elem == m
            &&& r.pending.last().key == "memberElement"@
            &&& r.pending.last().qn == a.target@
            &&& r.pending.last().scope == scope
        }),
{
    reveal(build_alias);
    reveal(new_membership);
    reveal(BV::new_relationship);
    reveal(BV::set_str);
    reveal(BV::set_bool);
    reveal(BV::set_name);
    reveal(BV::set);
    reveal(BV::ref_name);
    reveal(BV::set_spec_idx);
    reveal(BV::push_pending);
    reveal(BV::push_alias);
}

/// An import declares what it brings into its scope: a namespace import opens a
/// namespace, a membership import one member, and a recursive membership import
/// the member's contents as well. What it names is to be resolved from the
/// scope.
pub proof fn law_imports_are_declared(
    b: BV,
    imp: Import,
    vis: Option<Visibility>,
    span: Span,
    owner: usize,
    scope: usize,
    index: usize,
)
    requires
        owner < b.n(),
        scope < b.ns(),
        b.n() < usize::MAX,
        imp.filters@.len() == 0,
    ensures
        ({
            let r = build_import(b, imp, vis, span, owner, scope, index);
            let before = b.scopes[scope as int];
            let after = r.scopes[scope as int];
            let rel = b.n() as usize;
            let x = ImportV {
                target: imp.target@,
                recursive: imp.is_recursive,
                is_import_all: imp.is_import_all,
                filters: Seq::empty(),
                relationship: rel,
                is_public: open_to_all(vis),
            };
            &&& after.imports == (if imp.is_namespace || imp.is_recursive {
                before.imports.push(x)
            } else {
                before.imports
            })
            &&& after.member_imports == (if imp.is_namespace {
                before.member_imports
            } else {
                before.member_imports.push(ImportV { recursive: false, ..x })
            })
            &&& r.n() == b.n() + 1
            &&& r.elements[rel as int].ty == (if imp.is_namespace {
                "NamespaceImport"@
            } else {
                "MembershipImport"@
            })
            &&& r.elements[rel as int].carrier == Some(owner)
            &&& r.elements[owner as int].owned == b.elements[owner as int].owned.push(rel)
            &&& r.pending.len() == b.pending.len() + 1
            &&& r.pending.last().elem == rel
            &&& r.pending.last().key == (if imp.is_namespace {
                "importedNamespace"@
            } else {
                "importedMembership"@
            })
            &&& r.pending.last().qn == imp.target@
            &&& r.pending.last().scope == scope
        }),
{
    reveal(build_import_step);
    reveal(emit_import_rel_step);
    reveal(import_class_spec);
    reveal(open_import);
    reveal(import_flags);
    reveal(BV::new_relationship);
    reveal(BV::set_str);
    reveal(BV::set_bool);
    reveal(BV::set);
    reveal(BV::ref_name);
    reveal(BV::set_spec_idx);
    reveal(BV::push_pending);
    reveal(BV::push_user_import);
    reveal(BV::push_import);
    reveal(BV::push_member_import);
    let seg = numbered("import"@, index);
    let (c, rel) = emit_import_rel(b, imp, owner, scope, seg, visibility_text(vis), false);
    assert(c == emit_import_rel_step(b, imp, owner, scope, seg, visibility_text(vis), false).0);
    let d = c.push_user_import(rel, span, vis == Some(Visibility::Private));
    reveal(record_filters_from);
    assert(record_filters_from(d, imp.filters@, scope, 0) == d);
    let r = open_import(d, imp, scope, rel, open_to_all(vis));
    assert(build_import(b, imp, vis, span, owner, scope, index) == r);
    let after = r.scopes[scope as int];
    let none = Seq::<usize>::empty();
    if imp.is_namespace || imp.is_recursive {
        assert(after.imports.last().filters =~= none);
    }
    if !imp.is_namespace {
        assert(after.member_imports.last().filters =~= none);
    }
}

/// The visibility that a membership spells: private members are for those who
/// see everything, protected ones for heirs, the others for everyone.
pub open spec fn spells(b: BV, rel: usize) -> LookupAccess {
    let m = b.elements[rel as int].props;
    if m.contains_key("visibility"@) && m["visibility"@] == ValueV::Str("private"@) {
        LookupAccess::All
    } else if m.contains_key("visibility"@) && m["visibility"@] == ValueV::Str("protected"@) {
        LookupAccess::Protected
    } else {
        LookupAccess::Public
    }
}

/// A named member is declared in its scope under its name and under its short
/// name, with its body and the visibility of its membership; the body is its
/// own.
pub proof fn law_members_are_declared(b: BV, scope: usize, id: Identification, e: usize, sub: usize)
    requires
        e < b.n(),
        scope < b.ns(),
        sub < b.ns(),
        scope != sub,
    ensures
        ({
            let r = b.register(scope, id, e, sub);
            let binding = Binding {
                elem: e,
                sub_scope: Some(sub),
                visibility: match b.elements[e as int].owning {
                    Some(rel) => spells(b, rel),
                    None => LookupAccess::Public,
                },
            };
            let names = r.scopes[scope as int].names;
            &&& id.name matches Some(n) ==> names.contains_key(n.value@) && names[n.value@].contains(
                binding,
            )
            &&& id.short_name matches Some(n) ==> names.contains_key(n.value@)
                && names[n.value@].contains(binding)
            &&& r.elements[e as int].notes.scope == Some(sub)
            &&& r.scopes[sub as int].owner == Some(e)
        }),
{
    reveal(BV::register);
    reveal(BV::add_name);
    reveal(BV::set_elem_scope);
    reveal(BV::set_scope_owner);
    reveal(BV::member_visibility);
    reveal(BV::spelled_visibility);
    let binding = Binding {
        elem: e,
        sub_scope: Some(sub),
        visibility: b.member_visibility(e),
    };
    let t0 = b.scopes[scope as int].names;
    let t1 = match id.name {
        Some(n) => {
            lemma_bound(t0, n.value@, binding);
            crate::names::bind(t0, n.value@, binding)
        },
        None => t0,
    };
    if let Some(n) = id.short_name {
        lemma_bound(t1, n.value@, binding);
        if let Some(m) = id.name {
            let more = t1[m.value@].push(binding);
            let q = choose|q: int| 0 <= q < t1[m.value@].len() && t1[m.value@][q] == binding;
            assert(more[q] == binding);
        }
    }
}

proof fn lemma_bound(t: Map<Seq<char>, Seq<Binding>>, name: Seq<char>, x: Binding)
    ensures
        crate::names::bind(t, name, x).contains_key(name),
        crate::names::bind(t, name, x)[name].contains(x),
{
    let u = crate::names::bind(t, name, x);
    if t.contains_key(name) {
        assert(u[name][t[name].len() as int] == x);
    } else {
        assert(u[name][0] == x);
    }
}

/// A literal is an element of its own metaclass with the value that is written.
pub proof fn law_literals_keep_their_value(b: BV, lit: Literal, rel: usize, seg: Seq<char>)
    requires
        rel < b.n(),
        b.n() < usize::MAX,
    ensures
        ({
            let (r, e) = build_literal(b, lit, rel, seg);
            let x = r.elements[e as int];
            &&& e == b.n()
            &&& x.owning == Some(rel)
            &&& match lit {
                Literal::Bool(v) => x.ty == "LiteralBoolean"@ && x.props.contains_key("value"@)
                    && x.props["value"@] == ValueV::Bool(v),
                Literal::Text(s) => x.ty == "LiteralString"@ && x.props.contains_key("value"@)
                    && x.props["value"@] == ValueV::Str(s@),
                Literal::Integer(_) => x.ty == "LiteralInteger"@ && x.props.contains_key("value"@),
                Literal::Real(v) => x.ty == "LiteralRational"@ && x.props.contains_key("value"@)
                    && x.props["value"@] == ValueV::Real(v@),
                Literal::Infinity => x.ty == "LiteralInfinity"@ && !x.props.contains_key("value"@),
            }
        }),
{
    reveal(build_literal);
    reveal(BV::new_owned_element);
    reveal(BV::set_str);
    reveal(BV::set_bool);
    reveal(BV::set);
}

/// A name in an expression is a reference expression whose membership's member
/// is to be resolved from the scope of the expression.
pub proof fn law_names_in_expressions_are_references(
    b: BV,
    qn: QnV,
    rel: usize,
    scope: usize,
    seg: Seq<char>,
)
    requires
        rel < b.n(),
        b.n() + 1 < usize::MAX,
    ensures
        ({
            let (r, e) = reference_expr(b, qn, rel, scope, seg);
            let m = (b.n() + 1) as usize;
            &&& e == b.n()
            &&& r.elements[e as int].ty == "FeatureReferenceExpression"@
            &&& r.elements[e as int].owned == seq![m]
            &&& r.elements[m as int].ty == "Membership"@
            &&& r.pending.len() == b.pending.len() + 1
            &&& r.pending.last().elem == m
            &&& r.pending.last().key == "memberElement"@
            &&& r.pending.last().qn == qn
            &&& r.pending.last().scope == scope
        }),
{
    reveal(reference_expr);
    reveal(new_explicit);
    reveal(BV::new_owned_element);
    reveal(BV::new_relationship);
    reveal(BV::set_bool);
    reveal(BV::set);
    reveal(BV::ref_name);
    reveal(BV::set_spec_idx);
    reveal(BV::push_pending);
    let (r, e) = reference_expr(b, qn, rel, scope, seg);
    assert(r.elements[e as int].owned =~= seq![(b.n() + 1) as usize]);
}

proof fn lemma_flow_end(b: BV, end: ConnectorEnd, qn: QualifiedName, e: usize, scope: usize, i: usize)
    requires
        e < b.n(),
        b.n() + 5 <= usize::MAX,
        end.target == TargetRef::Name(qn),
    ensures
        ({
            let r = flow_end(b, end, e, scope, i);
            let rel = b.n() as usize;
            let f = (b.n() + 3) as usize;
            &&& r.n() == b.n() + 5
            &&& r.elements[e as int].owned == b.elements[e as int].owned.push(rel)
            &&& r.elements[rel as int].ty == "EndFeatureMembership"@
            &&& r.elements[f as int].props.contains_key("direction"@)
            &&& r.elements[f as int].props["direction"@] == ValueV::Str(
                if i == 0 {
                    "out"@
                } else {
                    "in"@
                },
            )
            &&& r.pending == b.pending.push(r.pending.last())
            &&& r.pending.last().qn == qn@
            &&& r.pending.last().scope == scope
            &&& forall|k: int| 0 <= k < b.n() && k != e ==> #[trigger] r.elements[k] == b.elements[k]
        }),
{
    reveal(flow_end);
    reveal(flow_feature);
    reveal(new_explicit);
    reveal(BV::new_owned_element);
    reveal(BV::new_relationship);
    reveal(BV::set_bool);
    reveal(BV::set_str);
    reveal(BV::set_link);
    reveal(BV::set);
    reveal(BV::push_pending);
    reveal_strlit("direction");
    reveal_strlit("isComposite");
    reveal_strlit("isVariation");
    assert("direction"@.len() == 9 && "isComposite"@.len() == 11 && "isVariation"@.len() == 11);
}

/// A flow from one named feature to another has two ends: the first gives out
/// what is written as the source, the second takes in what is written as the
/// target.
pub proof fn law_flows_run_from_source_to_target(
    b: BV,
    source: ConnectorEnd,
    target: ConnectorEnd,
    from: QualifiedName,
    to: QualifiedName,
    e: usize,
    scope: usize,
)
    requires
        e < b.n(),
        b.n() + 10 <= usize::MAX,
        source.target == TargetRef::Name(from),
        target.target == TargetRef::Name(to),
    ensures
        ({
            let r = flow_ends(b, Some(source), Some(target), e, scope);
            let first = (b.n() + 3) as usize;
            let second = (b.n() + 8) as usize;
            let n = b.pending.len() as int;
            &&& r.elements[e as int].owned == b.elements[e as int].owned.push(b.n() as usize).push(
                (b.n() + 5) as usize,
            )
            &&& r.pending.len() == n + 2
            &&& r.pending[n].qn == from@
            &&& r.pending[n + 1].qn == to@
            &&& r.elements[first as int].props["direction"@] == ValueV::Str("out"@)
            &&& r.elements[second as int].props["direction"@] == ValueV::Str("in"@)
        }),
{
    reveal(flow_ends);
    lemma_flow_end(b, source, from, e, scope, 0);
    let c = flow_end(b, source, e, scope, 0);
    lemma_flow_end(c, target, to, e, scope, 1);
    let r = flow_end(c, target, e, scope, 1);
    let at = b.n() + 3int;
    assert(r.elements[at] == c.elements[at]);
}

} // verus!
