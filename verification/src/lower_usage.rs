//! Lowering of usages.

use crate::ast::{
    Dialect, Visibility, FeatureDirection, PortionKind, UsageKind, FeatureDeclaration, CrossFeature,
    Usage,
};
use crate::names::Binding;
use crate::lower_util::{
    is_port_owner, usage_class, implied_direction, annotates_owner, bare_metadata, usage_membership,
};
use crate::shape;
use crate::state::{opt_str, Builder};
use crate::syntax::{name_or, effective_ref_name, own_name_qn};
use crate::tables::{
    direction, portion, visibility, implicit_usage_bases, is_namespace_metaclass,
    is_kerml_metaclass, is_referential_metaclass,
};
use crate::text::{numbered_seg, str_eq};
use vstd::prelude::*;

verus! {

impl Builder {
    /// Spell a direction, where there is one.
    pub fn set_opt_direction(&mut self, e: usize, dir: Option<FeatureDirection>)
        requires
            old(self)@.wf(),
            e < old(self)@.n(),
        ensures
            final(self)@ == shape::set_opt_direction(old(self)@, e, dir),
            final(self)@.wf(),
            final(self)@.n() >= old(self)@.n(),
            final(self)@.ns() >= old(self)@.ns(),
    {
        proof {
            reveal(shape::set_opt_direction);
        }
        if let Some(d) = dir {
            self.set_str(e, "direction", direction(d));
        }
    }

    /// Spell the written direction, else the forced one, else none.
    pub fn set_direction(
        &mut self,
        e: usize,
        dir: Option<FeatureDirection>,
        forced: Option<&'static str>,
    )
        requires
            old(self)@.wf(),
            e < old(self)@.n(),
        ensures
            final(self)@ == shape::set_direction(old(self)@, e, dir, opt_str(forced)),
            final(self)@.wf(),
            final(self)@.n() >= old(self)@.n(),
            final(self)@.ns() >= old(self)@.ns(),
    {
        proof {
            reveal(shape::set_direction);
        }
        match dir {
            Some(d) => {
                self.set_str(e, "direction", direction(d));
            },
            None => {
                match forced {
                    Some(d) => {
                        self.set_str(e, "direction", d);
                    },
                    None => {
                        self.set_null(e, "direction");
                    },
                }
            },
        }
    }

    /// Spell the portion kind, or none.
    pub fn set_portion(&mut self, e: usize, kind: Option<PortionKind>)
        requires
            old(self)@.wf(),
            e < old(self)@.n(),
        ensures
            final(self)@ == shape::set_portion(old(self)@, e, kind),
            final(self)@.wf(),
            final(self)@.n() >= old(self)@.n(),
            final(self)@.ns() >= old(self)@.ns(),
    {
        proof {
            reveal(shape::set_portion);
        }
        match kind {
            Some(p) => {
                self.set_str(e, "portionKind", portion(p));
            },
            None => {
                self.set_null(e, "portionKind");
            },
        }
    }

    /// The individual and portion flags of an occurrence.
    pub fn occurrence_flags(&mut self, e: usize, u: &Usage)
        requires
            old(self)@.wf(),
            e < old(self)@.n(),
        ensures
            final(self)@ == shape::occurrence_flags(old(self)@, e, *u),
            final(self)@.wf(),
            final(self)@.n() >= old(self)@.n(),
            final(self)@.ns() >= old(self)@.ns(),
    {
        proof {
            reveal(shape::occurrence_flags);
        }
        if u.prefix.is_individual || u.prefix.portion.is_some() || u.kind == UsageKind::Occurrence {
            self.set_bool(e, "isIndividual", u.prefix.is_individual);
            self.set_portion(e, u.prefix.portion);
        }
    }

    /// The owned cross feature of an end.
    pub fn emit_cross_feature(&mut self, cross: &CrossFeature, e: usize, scope: usize)
        requires
            old(self)@.wf(),
            e < old(self)@.n(),
            scope < old(self)@.ns(),
        ensures
            final(self)@ == shape::emit_cross_feature(old(self)@, *cross, e, scope),
            final(self)@.wf(),
            final(self)@.n() >= old(self)@.n(),
            final(self)@.ns() >= old(self)@.ns(),
        decreases cross, 1int,
    {
        proof {
            reveal(shape::emit_cross_feature_step);
            assert(
                shape::emit_cross_feature(old(self)@, *cross, e, scope) == shape::emit_cross_feature_step(old(self)@, *cross, e, scope)
            );
        }
        let om: usize = self.new_public("OwningMembership", e, "crossFeature");
        let cf: usize = self.new_owned_element("ReferenceUsage", om, "crossFeature");
        self.set_bool(cf, "isVariation", cross.is_variation);
        self.set_opt_direction(cf, cross.direction);
        self.set_bool_if(cross.is_derived, cf, "isDerived", true);
        self.set_bool_if(cross.is_abstract, cf, "isAbstract", true);
        self.set_bool_if(cross.is_constant, cf, "isConstant", true);
        self.set_bool_if(cross.is_composite, cf, "isComposite", true);
        self.set_bool_if(cross.is_portion, cf, "isPortion", true);
        self.set_bool_if(cross.is_variable, cf, "isVariable", true);
        self.set_identification(cf, &cross.decl.id);
        self.emit_specializations(cf, &cross.decl, scope);
        self.emit_opt_multiplicity(cf, &cross.decl.multiplicity, scope);
    }

    /// The owned cross feature, where there is one.
    pub fn emit_opt_cross_feature(&mut self, cross: &Option<CrossFeature>, e: usize, scope: usize)
        requires
            old(self)@.wf(),
            e < old(self)@.n(),
            scope < old(self)@.ns(),
        ensures
            final(self)@ == shape::emit_opt_cross_feature(old(self)@, *cross, e, scope),
            final(self)@.wf(),
            final(self)@.n() >= old(self)@.n(),
            final(self)@.ns() >= old(self)@.ns(),
        decreases cross, 1int,
    {
        proof {
            reveal(shape::emit_opt_cross_feature_step);
            assert(
                shape::emit_opt_cross_feature(old(self)@, *cross, e, scope) == shape::emit_opt_cross_feature_step(old(self)@, *cross, e, scope)
            );
        }
        if let Some(c) = cross {
            self.emit_cross_feature(c, e, scope);
        }
    }

    /// Whether the usage is a part of its owner: SysML usages are composite
    /// unless they are referential by metaclass, by declaration, or unfeatured;
    /// ports only inside ports.
    pub fn usage_composite(
        &mut self,
        e: usize,
        u: &Usage,
        ty: &'static str,
        featuring: bool,
        forced: Option<&'static str>,
        owner_ty: Option<&'static str>,
    )
        requires
            old(self)@.wf(),
            e < old(self)@.n(),
        ensures
            final(self)@ == shape::usage_composite(
                old(self)@,
                e,
                *u,
                ty@,
                featuring,
                opt_str(forced),
                opt_str(owner_ty),
            ),
            final(self)@.wf(),
            final(self)@.n() >= old(self)@.n(),
            final(self)@.ns() >= old(self)@.ns(),
    {
        proof {
            reveal(shape::usage_composite);
        }
        let by_declaration = u.prefix.is_ref || u.prefix.direction.is_some() || forced.is_some() || u.prefix.is_end;
        let port_outside = str_eq(ty, "PortUsage") && !is_port_owner(owner_ty);
        self.set_featuring(e, featuring);
        self.set_bool(
            e,
            "isComposite",
            featuring && !is_referential_metaclass(ty) && !by_declaration && !port_outside,
        );
    }

    /// The compositeness flags: spelled as written in KerML, derived in SysML.
    pub fn composite_flags(
        &mut self,
        e: usize,
        u: &Usage,
        ty: &'static str,
        featuring: bool,
        forced: Option<&'static str>,
        owner_ty: Option<&'static str>,
    )
        requires
            old(self)@.wf(),
            e < old(self)@.n(),
        ensures
            final(self)@ == shape::composite_flags(
                old(self)@,
                e,
                *u,
                ty@,
                featuring,
                opt_str(forced),
                opt_str(owner_ty),
            ),
            final(self)@.wf(),
            final(self)@.n() >= old(self)@.n(),
            final(self)@.ns() >= old(self)@.ns(),
    {
        proof {
            reveal(shape::composite_flags);
        }
        if self.read_dialect() == Dialect::Kerml {
            self.set_bool(e, "isComposite", u.prefix.is_composite);
            self.set_bool(e, "isPortion", u.prefix.is_portion);
            self.set_bool(e, "isVariable", u.prefix.is_variable);
            self.set_bool(e, "isSufficient", u.declaration.is_sufficient);
        } else {
            self.usage_composite(e, u, ty, featuring, forced, owner_ty);
        }
    }

    /// The flags a usage spells.
    pub fn usage_flags(
        &mut self,
        e: usize,
        u: &Usage,
        ty: &'static str,
        featuring: bool,
        forced: Option<&'static str>,
        owner_ty: Option<&'static str>,
    )
        requires
            old(self)@.wf(),
            e < old(self)@.n(),
        ensures
            final(self)@ == shape::usage_flags(
                old(self)@,
                e,
                *u,
                ty@,
                featuring,
                opt_str(forced),
                opt_str(owner_ty),
            ),
            final(self)@.wf(),
            final(self)@.n() >= old(self)@.n(),
            final(self)@.ns() >= old(self)@.ns(),
    {
        proof {
            reveal(shape::usage_flags);
        }
        self.set_bool(e, "isAbstract", u.prefix.is_abstract || u.prefix.is_variation);
        self.set_bool_if(!is_kerml_metaclass(ty), e, "isVariation", u.prefix.is_variation);
        self.set_bool(e, "isDerived", u.prefix.is_derived);
        self.set_bool(e, "isConstant", u.prefix.is_constant);
        self.set_bool(e, "isEnd", u.prefix.is_end);
        self.composite_flags(e, u, ty, featuring, forced, owner_ty);
        self.set_bool(e, "isOrdered", u.declaration.is_ordered);
        self.set_bool(e, "isUnique", !u.declaration.is_nonunique);
        self.set_direction(e, u.prefix.direction, forced);
        self.occurrence_flags(e, u);
    }

    /// The effective name of an unnamed feature, registered where it is owned.
    pub fn register_effective_name(
        &mut self,
        decl: &FeatureDeclaration,
        e: usize,
        rel: usize,
        scope: usize,
        body: usize,
    )
        requires
            old(self)@.wf(),
            e < old(self)@.n(),
            rel < old(self)@.n(),
            scope < old(self)@.ns(),
            body < old(self)@.ns(),
        ensures
            final(self)@ == shape::register_effective_name(old(self)@, *decl, e, rel, scope, body),
            final(self)@.wf(),
            final(self)@.n() >= old(self)@.n(),
            final(self)@.ns() >= old(self)@.ns(),
    {
        proof {
            reveal(shape::register_effective_name);
        }
        if decl.id.name.is_none() && decl.id.short_name.is_none() {
            match effective_ref_name(&decl.specializations) {
                Some(name) => {
                    self.set_hint(e, name.as_str());
                    let access = self.spelled_visibility(rel);
                    self.add_effective_name(
                        scope,
                        name.as_str(),
                        Binding { elem: e, sub_scope: Some(body), visibility: access },
                    );
                },
                None => {
                },
            }
        }
    }

    /// The library bases of a usage kind, in SysML.
    pub fn implied_bases(&mut self, kind: UsageKind, body: usize)
        requires
            old(self)@.wf(),
            body < old(self)@.ns(),
        ensures
            final(self)@ == shape::implied_bases(old(self)@, kind, body),
            final(self)@.wf(),
            final(self)@.n() >= old(self)@.n(),
            final(self)@.ns() >= old(self)@.ns(),
    {
        proof {
            reveal(shape::implied_bases);
        }
        if self.read_dialect() == Dialect::Sysml {
            let bases = implicit_usage_bases(kind);
            self.library_bases(&bases, body);
        }
    }

    /// A named directed parameter redefines the parameter of its name its owner
    /// inherits: its own name is a base.
    pub fn parameter_base(&mut self, u: &Usage, body: usize)
        requires
            old(self)@.wf(),
            body < old(self)@.ns(),
        ensures
            final(self)@ == shape::parameter_base(old(self)@, *u, body),
            final(self)@.wf(),
            final(self)@.n() >= old(self)@.n(),
            final(self)@.ns() >= old(self)@.ns(),
    {
        proof {
            reveal(shape::parameter_base);
        }
        if u.prefix.direction.is_some() {
            if let Some(name) = &u.declaration.id.name {
                self.push_base(body, own_name_qn(name));
            }
        }
    }

    /// The scope bases of a usage: its specialization targets, the library base
    /// of its kind, and — for a directed parameter — the parameter of the same
    /// name its owner inherits.
    pub fn usage_bases(
        &mut self,
        u: &Usage,
        e: usize,
        scope: usize,
        body: usize,
        enum_literal: bool,
    )
        requires
            old(self)@.wf(),
            e < old(self)@.n(),
            scope < old(self)@.ns(),
            body < old(self)@.ns(),
        ensures
            final(self)@ == shape::usage_bases(old(self)@, *u, e, scope, body, enum_literal),
            final(self)@.wf(),
            final(self)@.n() >= old(self)@.n(),
            final(self)@.ns() >= old(self)@.ns(),
    {
        proof {
            reveal(shape::usage_bases);
        }
        self.feature_bases(&u.declaration.specializations, body, e, scope);
        self.implied_bases(if enum_literal { UsageKind::Enum } else { u.kind }, body);
        self.parameter_base(u, body);
    }

    /// A usage element owned through `rel`, with its whole body.
    pub fn build_usage_element(
        &mut self,
        u: &Usage,
        rel: usize,
        scope: usize,
        seg: &str,
        class_override: Option<&'static str>,
    ) -> (r: usize)
        requires
            old(self)@.wf(),
            rel < old(self)@.n(),
            scope < old(self)@.ns(),
        ensures
            (final(self)@, r) == shape::build_usage_element(
                old(self)@,
                *u,
                rel,
                scope,
                seg@,
                opt_str(class_override),
            ),
            final(self)@.wf(),
            final(self)@.n() >= old(self)@.n(),
            final(self)@.ns() >= old(self)@.ns(),
            r < final(self)@.n(),
        decreases u, 4int,
    {
        proof {
            reveal(shape::build_usage_element_step);
            assert(
                shape::build_usage_element(old(self)@, *u, rel, scope, seg@, opt_str(class_override)) == shape::build_usage_element_step(
                    old(self)@,
                    *u,
                    rel,
                    scope,
                    seg@,
                    opt_str(class_override),
                )
            );
        }
        let enum_literal = self.read_in_enum_body();
        self.set_in_enum_body(false);
        let ty = usage_class(enum_literal, class_override, u.kind, self.read_dialect());
        let e: usize = self.new_owned_element(ty, rel, seg);
        let featuring = self.read_pending_featuring();
        let forced = self.read_pending_direction();
        let owner_ty = self.read_pending_owner_ty();
        self.set_pending_direction(None);
        self.set_pending_owner_ty(None);
        self.set_identification(e, &u.declaration.id);
        self.emit_prefix_metadata(&u.prefix.metadata, e, scope);
        self.emit_opt_cross_feature(&u.prefix.end_cross, e, scope);
        self.usage_flags(e, u, ty, featuring, forced, owner_ty);
        let body: usize = self.open_body(scope, &u.declaration.id, e);
        self.register_effective_name(&u.declaration, e, rel, scope, body);
        self.usage_bases(u, e, scope, body, enum_literal);
        self.emit_specializations(e, &u.declaration, scope);
        self.emit_opt_multiplicity(e, &u.declaration.multiplicity, scope);
        self.finish_usage_element(u, e, scope, body);
        e
    }

    /// An anonymous nested usage: always featured by its owner.
    pub fn build_nested_usage(
        &mut self,
        u: &Usage,
        rel: usize,
        scope: usize,
        seg: &str,
    ) -> (r: usize)
        requires
            old(self)@.wf(),
            rel < old(self)@.n(),
            scope < old(self)@.ns(),
        ensures
            (final(self)@, r) == shape::build_nested_usage(old(self)@, *u, rel, scope, seg@),
            final(self)@.wf(),
            final(self)@.n() >= old(self)@.n(),
            final(self)@.ns() >= old(self)@.ns(),
            r < final(self)@.n(),
        decreases u, 5int,
    {
        proof {
            reveal(shape::build_nested_usage_step);
            assert(
                shape::build_nested_usage(old(self)@, *u, rel, scope, seg@) == shape::build_nested_usage_step(
                    old(self)@,
                    *u,
                    rel,
                    scope,
                    seg@,
                )
            );
        }
        self.set_pending_featuring(true);
        self.set_pending_direction(None);
        self.set_pending_owner_ty(None);
        let e: usize = self.build_usage_element(u, rel, scope, seg, None);
        e
    }

    /// Record a named input parameter on its owner.
    pub fn note_in_param(&mut self, u: &Usage, owner: usize)
        requires
            old(self)@.wf(),
            owner < old(self)@.n(),
        ensures
            final(self)@ == shape::note_in_param(old(self)@, *u, owner),
            final(self)@.wf(),
            final(self)@.n() >= old(self)@.n(),
            final(self)@.ns() >= old(self)@.ns(),
    {
        proof {
            reveal(shape::note_in_param);
        }
        if u.prefix.direction == Some(FeatureDirection::In) || u.prefix.direction == Some(FeatureDirection::InOut) {
            if let Some(n) = &u.declaration.id.name {
                self.add_in_param(owner, n.value.as_str());
            }
        }
    }

    /// Record a named member, and an annotation, on their owner.
    pub fn note_member(&mut self, u: &Usage, owner: usize, e: usize)
        requires
            old(self)@.wf(),
            owner < old(self)@.n(),
            e < old(self)@.n(),
        ensures
            final(self)@ == shape::note_member(old(self)@, *u, owner, e),
            final(self)@.wf(),
            final(self)@.n() >= old(self)@.n(),
            final(self)@.ns() >= old(self)@.ns(),
    {
        proof {
            reveal(shape::note_member);
        }
        if let Some(n) = &u.declaration.id.name {
            self.add_ctor_field(owner, n.value.as_str(), e);
        }
        if annotates_owner(u) {
            self.add_metadata(owner, e);
        }
    }

    /// A usage member: its membership of the given metaclass and the usage
    /// element under it.
    pub fn build_usage_with(
        &mut self,
        u: &Usage,
        vis: Option<Visibility>,
        owner: usize,
        scope: usize,
        index: usize,
        rel_ty: &'static str,
        class_override: Option<&'static str>,
    ) -> (r: (usize, usize))
        requires
            old(self)@.wf(),
            owner < old(self)@.n(),
            scope < old(self)@.ns(),
        ensures
            (final(self)@, r.0, r.1) == shape::build_usage_with(
                old(self)@,
                *u,
                vis,
                owner,
                scope,
                index,
                rel_ty@,
                opt_str(class_override),
            ),
            final(self)@.wf(),
            final(self)@.n() >= old(self)@.n(),
            final(self)@.ns() >= old(self)@.ns(),
            r.0 < final(self)@.n(),
            r.1 < final(self)@.n(),
        decreases u, 5int,
    {
        proof {
            reveal(shape::build_usage_with_step);
            assert(
                shape::build_usage_with(old(self)@, *u, vis, owner, scope, index, rel_ty@, opt_str(class_override)) == shape::build_usage_with_step(
                    old(self)@,
                    *u,
                    vis,
                    owner,
                    scope,
                    index,
                    rel_ty@,
                    opt_str(class_override),
                )
            );
        }
        let seg0 = numbered_seg("m", index);
        let rel: usize = self.new_membership(rel_ty, owner, seg0.as_str(), vis);
        let unfeatured = str_eq(rel_ty, "OwningMembership") || str_eq(rel_ty, "Membership");
        let featuring = if unfeatured { false } else if str_eq(rel_ty, "VariantMembership") { self.elem_featuring(owner) } else { true };
        self.set_pending_featuring(featuring);
        self.set_pending_direction(implied_direction(rel_ty));
        let owner_ty = self.ty(owner);
        self.set_pending_owner_ty(Some(owner_ty));
        let seg1 = numbered_seg("#", index);
        let seg = name_or(&u.declaration.id.name, seg1.as_str());
        self.note_in_param(u, owner);
        let e: usize = self.build_usage_element(u, rel, scope, seg.as_str(), class_override);
        self.note_member(u, owner, e);
        (rel, e)
    }

    /// A usage member of a body: the membership its place asks for.
    pub fn build_usage(
        &mut self,
        u: &Usage,
        vis: Option<Visibility>,
        owner: usize,
        scope: usize,
        index: usize,
    )
        requires
            old(self)@.wf(),
            owner < old(self)@.n(),
            scope < old(self)@.ns(),
        ensures
            final(self)@ == shape::build_usage(old(self)@, *u, vis, owner, scope, index),
            final(self)@.wf(),
            final(self)@.n() >= old(self)@.n(),
            final(self)@.ns() >= old(self)@.ns(),
        decreases u, 6int,
    {
        proof {
            reveal(shape::build_usage_step);
            assert(
                shape::build_usage(old(self)@, *u, vis, owner, scope, index) == shape::build_usage_step(
                    old(self)@,
                    *u,
                    vis,
                    owner,
                    scope,
                    index,
                )
            );
        }
        let bare = bare_metadata(u, vis, self.read_dialect(), self.read_in_enum_body());
        match bare {
            Some(q) => {
                self.emit_prefix_metadata_one(owner, q, scope);
            },
            None => {
                let in_interface = str_eq(self.ty(owner), "InterfaceDefinition") || str_eq(
                    self.ty(owner),
                    "InterfaceUsage",
                );
                let in_namespace = is_namespace_metaclass(self.ty(owner));
                let rel_ty = usage_membership(
                    u,
                    self.read_in_enum_body(),
                    in_interface,
                    in_namespace,
                    self.read_dialect(),
                );
                let port_end = u.prefix.is_end && in_interface && u.kind == UsageKind::Default;
                let class_override = if port_end { Some("PortUsage") } else { None };
                self.build_usage_with(u, vis, owner, scope, index, rel_ty, class_override);
            },
        }
    }
}

} // verus!
