//! Lowering of definitions and packages.

use crate::ast::{Name, TargetRef, Identification, Dialect, Visibility, DefKind, Definition, Package, Member};
use crate::lower_util::tilde_name;
use crate::shape;
use crate::state::Builder;
use crate::syntax::name_or;
use crate::tables::{def_metaclass, implicit_def_bases, is_kerml_metaclass};
use crate::text::numbered_seg;
use vstd::prelude::*;

verus! {

impl Builder {
    /// The specializations of a definition, recorded and referenced.
    pub fn emit_subclassifications(&mut self, targets: &Vec<TargetRef>, e: usize, scope: usize)
        requires
            old(self)@.wf(),
            e < old(self)@.n(),
            scope < old(self)@.ns(),
        ensures
            final(self)@ == shape::emit_subclassifications(old(self)@, *targets, e, scope),
            final(self)@.wf(),
            final(self)@.n() >= old(self)@.n(),
            final(self)@.ns() >= old(self)@.ns(),
        decreases targets, targets@.len() + 1,
    {
        proof {
            reveal(shape::emit_subclassifications);
            reveal(shape::emit_subclassifications_from);
        }
        let mut i: usize = 0;
        while i < targets.len()
            invariant
                i <= targets@.len(),
                self@.wf(),
                self@.n() >= old(self)@.n(),
                self@.ns() >= old(self)@.ns(),
                e < old(self)@.n(),
                scope < old(self)@.ns(),
                shape::emit_subclassifications_from(self@, *targets, e, scope, i as int) == shape::emit_subclassifications(
                    old(self)@,
                    *targets,
                    e,
                    scope,
                ),
            decreases targets@.len() - i,
        {
            proof {
                reveal(shape::emit_subclassifications);
                reveal(shape::emit_subclassifications_from);
            }
            let x = &targets[i];
            if let TargetRef::Name(qn) = x {
                self.announce_spec_target(e, "Subclassification", scope, qn.duplicate());
            }
            let seg = numbered_seg("subcl", i);
            let sub: usize = self.new_explicit("Subclassification", e, seg.as_str());
            self.set_ref(sub, "superclassifier", scope, x);
            self.set_link(sub, "subclassifier", e);
            i += 1;
        }
    }

    /// The conjugations of a definition.
    pub fn emit_conjugations(&mut self, targets: &Vec<TargetRef>, e: usize, scope: usize)
        requires
            old(self)@.wf(),
            e < old(self)@.n(),
            scope < old(self)@.ns(),
        ensures
            final(self)@ == shape::emit_conjugations(old(self)@, *targets, e, scope),
            final(self)@.wf(),
            final(self)@.n() >= old(self)@.n(),
            final(self)@.ns() >= old(self)@.ns(),
        decreases targets, targets@.len() + 1,
    {
        proof {
            reveal(shape::emit_conjugations);
            reveal(shape::emit_conjugations_from);
        }
        let mut i: usize = 0;
        while i < targets.len()
            invariant
                i <= targets@.len(),
                self@.wf(),
                self@.n() >= old(self)@.n(),
                self@.ns() >= old(self)@.ns(),
                e < old(self)@.n(),
                scope < old(self)@.ns(),
                shape::emit_conjugations_from(self@, *targets, e, scope, i as int) == shape::emit_conjugations(
                    old(self)@,
                    *targets,
                    e,
                    scope,
                ),
            decreases targets@.len() - i,
        {
            proof {
                reveal(shape::emit_conjugations);
                reveal(shape::emit_conjugations_from);
            }
            let x = &targets[i];
            let seg = numbered_seg("conj", i);
            let c: usize = self.new_explicit("Conjugation", e, seg.as_str());
            self.set_ref(c, "originalType", scope, x);
            i += 1;
        }
    }

    /// The implicit conjugated definition of a port definition.
    pub fn emit_conjugated_port(&mut self, e: usize, id: &Identification)
        requires
            old(self)@.wf(),
            e < old(self)@.n(),
        ensures
            final(self)@ == shape::emit_conjugated_port(old(self)@, e, *id),
            final(self)@.wf(),
            final(self)@.n() >= old(self)@.n(),
            final(self)@.ns() >= old(self)@.ns(),
    {
        proof {
            reveal(shape::emit_conjugated_port);
        }
        let om: usize = self.new_public("OwningMembership", e, "conjugated");
        let tilde = tilde_name(&id.name);
        let cpd: usize = self.new_owned_element("ConjugatedPortDefinition", om, tilde.as_str());
        if id.name.is_some() {
            self.set_str(cpd, "declaredName", tilde.as_str());
        }
        self.set_bool(cpd, "isVariation", false);
        let pc: usize = self.new_explicit("PortConjugation", cpd, "conjugation");
        self.set_link(pc, "originalType", e);
        self.set_link(pc, "originalPortDefinition", e);
        self.set_link(pc, "conjugatedType", cpd);
        self.set_conjugated(e, cpd);
    }

    /// The direct members of an enumeration: each an enumeration literal.
    pub fn build_enum_members(&mut self, members: &Vec<Member>, e: usize, scope: usize)
        requires
            old(self)@.wf(),
            e < old(self)@.n(),
            scope < old(self)@.ns(),
        ensures
            final(self)@ == shape::build_enum_members(old(self)@, *members, e, scope),
            final(self)@.wf(),
            final(self)@.n() >= old(self)@.n(),
            final(self)@.ns() >= old(self)@.ns(),
        decreases members, members@.len() + 1,
    {
        let mut i: usize = 0;
        while i < members.len()
            invariant
                i <= members@.len(),
                self@.wf(),
                self@.n() >= old(self)@.n(),
                self@.ns() >= old(self)@.ns(),
                e < old(self)@.n(),
                scope < old(self)@.ns(),
                shape::build_enum_members_from(self@, *members, e, scope, i as int) == shape::build_enum_members(
                    old(self)@,
                    *members,
                    e,
                    scope,
                ),
            decreases members@.len() - i,
        {
            let x = &members[i];
            self.set_in_enum_body(true);
            self.build_member(x, e, scope, i);
            i += 1;
        }
    }

    /// The members of a definition body outside enumerations.
    pub fn build_plain_members(&mut self, members: &Vec<Member>, e: usize, scope: usize)
        requires
            old(self)@.wf(),
            e < old(self)@.n(),
            scope < old(self)@.ns(),
        ensures
            final(self)@ == shape::build_plain_members(old(self)@, *members, e, scope),
            final(self)@.wf(),
            final(self)@.n() >= old(self)@.n(),
            final(self)@.ns() >= old(self)@.ns(),
        decreases members, members@.len() + 1,
    {
        let mut i: usize = 0;
        while i < members.len()
            invariant
                i <= members@.len(),
                self@.wf(),
                self@.n() >= old(self)@.n(),
                self@.ns() >= old(self)@.ns(),
                e < old(self)@.n(),
                scope < old(self)@.ns(),
                shape::build_plain_members_from(self@, *members, e, scope, i as int) == shape::build_plain_members(
                    old(self)@,
                    *members,
                    e,
                    scope,
                ),
            decreases members@.len() - i,
        {
            let x = &members[i];
            self.set_in_enum_body(false);
            self.build_member(x, e, scope, i);
            i += 1;
        }
    }

    /// The members of a body.
    pub fn build_members(&mut self, members: &Vec<Member>, e: usize, scope: usize)
        requires
            old(self)@.wf(),
            e < old(self)@.n(),
            scope < old(self)@.ns(),
        ensures
            final(self)@ == shape::build_members(old(self)@, *members, e, scope),
            final(self)@.wf(),
            final(self)@.n() >= old(self)@.n(),
            final(self)@.ns() >= old(self)@.ns(),
        decreases members, members@.len() + 1,
    {
        let mut i: usize = 0;
        while i < members.len()
            invariant
                i <= members@.len(),
                self@.wf(),
                self@.n() >= old(self)@.n(),
                self@.ns() >= old(self)@.ns(),
                e < old(self)@.n(),
                scope < old(self)@.ns(),
                shape::build_members_from(self@, *members, e, scope, i as int) == shape::build_members(
                    old(self)@,
                    *members,
                    e,
                    scope,
                ),
            decreases members@.len() - i,
        {
            let x = &members[i];
            self.build_member(x, e, scope, i);
            i += 1;
        }
    }

    /// An optional body.
    pub fn build_body(&mut self, body: &Option<Vec<Member>>, e: usize, scope: usize)
        requires
            old(self)@.wf(),
            e < old(self)@.n(),
            scope < old(self)@.ns(),
        ensures
            final(self)@ == shape::build_body(old(self)@, *body, e, scope),
            final(self)@.wf(),
            final(self)@.n() >= old(self)@.n(),
            final(self)@.ns() >= old(self)@.ns(),
        decreases body, 1int,
    {
        proof {
            reveal(shape::build_body_step);
            assert(
                shape::build_body(old(self)@, *body, e, scope) == shape::build_body_step(old(self)@, *body, e, scope)
            );
        }
        if let Some(members) = body {
            self.build_members(members, e, scope);
        }
    }

    /// The flags a definition spells: an enumeration is a variation, and a
    /// variation is abstract.
    pub fn definition_flags(&mut self, d: &Definition, e: usize, ty: &'static str)
        requires
            old(self)@.wf(),
            e < old(self)@.n(),
        ensures
            final(self)@ == shape::definition_flags(old(self)@, *d, e, ty@),
            final(self)@.wf(),
            final(self)@.n() >= old(self)@.n(),
            final(self)@.ns() >= old(self)@.ns(),
    {
        proof {
            reveal(shape::definition_flags);
        }
        let is_variation = d.prefix.is_variation || d.kind == DefKind::Enum;
        self.set_bool(e, "isAbstract", d.prefix.is_abstract || is_variation);
        self.set_bool_if(!is_kerml_metaclass(ty), e, "isVariation", is_variation);
        self.set_bool(e, "isSufficient", d.is_sufficient);
    }

    /// The members of a definition.
    pub fn build_definition_body(
        &mut self,
        body: &Option<Vec<Member>>,
        kind: DefKind,
        e: usize,
        scope: usize,
    )
        requires
            old(self)@.wf(),
            e < old(self)@.n(),
            scope < old(self)@.ns(),
        ensures
            final(self)@ == shape::build_definition_body(old(self)@, *body, kind, e, scope),
            final(self)@.wf(),
            final(self)@.n() >= old(self)@.n(),
            final(self)@.ns() >= old(self)@.ns(),
        decreases body, 1int,
    {
        proof {
            reveal(shape::build_definition_body_step);
            assert(
                shape::build_definition_body(old(self)@, *body, kind, e, scope) == shape::build_definition_body_step(
                    old(self)@,
                    *body,
                    kind,
                    e,
                    scope,
                )
            );
        }
        if let Some(members) = body {
            if kind == DefKind::Enum {
                self.build_enum_members(members, e, scope);
            } else {
                self.build_plain_members(members, e, scope);
            }
            self.set_in_enum_body(false);
        }
    }

    /// A definition with its specializations and body.
    pub fn build_definition(
        &mut self,
        d: &Definition,
        vis: Option<Visibility>,
        owner: usize,
        scope: usize,
        index: usize,
    )
        requires
            old(self)@.wf(),
            owner < old(self)@.n(),
            scope < old(self)@.ns(),
        ensures
            final(self)@ == shape::build_definition(old(self)@, *d, vis, owner, scope, index),
            final(self)@.wf(),
            final(self)@.n() >= old(self)@.n(),
            final(self)@.ns() >= old(self)@.ns(),
        decreases d, 1int,
    {
        proof {
            reveal(shape::build_definition_step);
            assert(
                shape::build_definition(old(self)@, *d, vis, owner, scope, index) == shape::build_definition_step(
                    old(self)@,
                    *d,
                    vis,
                    owner,
                    scope,
                    index,
                )
            );
        }
        let seg0 = numbered_seg("m", index);
        let rel: usize = self.new_membership("OwningMembership", owner, seg0.as_str(), vis);
        let seg1 = numbered_seg("#", index);
        let seg = name_or(&d.id.name, seg1.as_str());
        let ty = def_metaclass(d.kind);
        let e: usize = self.new_owned_element(ty, rel, seg.as_str());
        self.set_identification(e, &d.id);
        self.emit_prefix_metadata(&d.prefix.metadata, e, scope);
        self.definition_flags(d, e, ty);
        self.emit_opt_multiplicity(e, &d.multiplicity, scope);
        self.emit_conjugations(&d.conjugates, e, scope);
        self.emit_type_operations(e, scope, &d.disjoint_from, &d.unions, &d.intersects, &d.differences);
        self.set_bool_if(
            d.kind == DefKind::Occurrence || d.kind == DefKind::Individual,
            e,
            "isIndividual",
            d.prefix.is_individual,
        );
        self.set_bool_if(d.kind == DefKind::State, e, "isParallel", d.is_parallel);
        let body: usize = self.open_body(scope, &d.id, e);
        self.name_bases(&d.specializes, body);
        self.name_bases(&d.conjugates, body);
        let bases = implicit_def_bases(d.kind);
        self.library_bases(&bases, body);
        self.emit_subclassifications(&d.specializes, e, scope);
        self.build_definition_body(&d.body, d.kind, e, body);
        if d.kind == DefKind::Port && self.read_dialect() == Dialect::Sysml {
            self.emit_conjugated_port(e, &d.id);
        }
    }

    /// A package, library package or namespace with its body.
    pub fn build_package(
        &mut self,
        p: &Package,
        vis: Option<Visibility>,
        owner: usize,
        scope: usize,
        index: usize,
    )
        requires
            old(self)@.wf(),
            owner < old(self)@.n(),
            scope < old(self)@.ns(),
        ensures
            final(self)@ == shape::build_package(old(self)@, *p, vis, owner, scope, index),
            final(self)@.wf(),
            final(self)@.n() >= old(self)@.n(),
            final(self)@.ns() >= old(self)@.ns(),
        decreases p, 2int,
    {
        proof {
            reveal(shape::build_package_step);
            assert(
                shape::build_package(old(self)@, *p, vis, owner, scope, index) == shape::build_package_step(
                    old(self)@,
                    *p,
                    vis,
                    owner,
                    scope,
                    index,
                )
            );
        }
        let seg1 = numbered_seg("#", index);
        let seg = name_or(&p.id.name, seg1.as_str());
        let seg0 = numbered_seg("m", index);
        let rel: usize = self.new_membership("OwningMembership", owner, seg0.as_str(), vis);
        let ty = if p.is_namespace { "Namespace" } else if p.is_library { "LibraryPackage" } else { "Package" };
        let pkg: usize = self.new_owned_element(ty, rel, seg.as_str());
        self.set_identification(pkg, &p.id);
        self.emit_prefix_metadata(&p.metadata, pkg, scope);
        self.set_bool_if(p.is_library, pkg, "isStandard", p.is_standard);
        let body: usize = self.open_body(scope, &p.id, pkg);
        self.build_body(&p.body, pkg, body);
    }
}

} // verus!
