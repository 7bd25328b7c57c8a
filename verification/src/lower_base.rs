//! References, specializations and end features: what every construct lowers
//! through.

use crate::ast::{
    Name, QualifiedName, TargetRef, Identification, TypeRef, Dialect, Visibility, Expr,
    FeatureSpecialization, FeatureDeclaration, Import, duplicate_prefix,
};
use crate::lower_util::{lemma_sizes, preceding};
use crate::shape;
use crate::state::{all_below, opt_chain, Builder, PendingRef, ScopeImport};
use crate::syntax::{target_span, is_empty_target};
use crate::tables::{visibility, LibraryName, library_names_view, lib_qn};
use crate::text::{concat, numbered_seg, str_eq};
use std::rc::Rc;
use vstd::prelude::*;

verus! {

impl Builder {
    /// A reference through a feature chain: an owned Feature with one
    /// FeatureChaining for each of the first `m` links.
    pub fn set_chain(
        &mut self,
        e: usize,
        key: &'static str,
        scope: usize,
        links: &Vec<QualifiedName>,
        m: usize,
        exclude: Option<usize>,
    )
        requires
            old(self)@.wf(),
            e < old(self)@.n(),
            scope < old(self)@.ns(),
            m <= links@.len(),
        ensures
            final(self)@ == shape::set_chain(old(self)@, e, key@, scope, *links, m as nat, exclude),
            final(self)@.wf(),
            final(self)@.n() >= old(self)@.n(),
            final(self)@.ns() >= old(self)@.ns(),
    {
        proof {
            reveal(shape::set_chain);
            reveal(shape::chain_links_from);
        }
        let seg = concat(key, ".chain");
        let feature: usize = self.new_owned_element("Feature", e, seg.as_str());
        let ghost start = self@;
        let mut k: usize = 0;
        while k < m
            invariant
                k <= m <= links@.len(),
                self@.wf(),
                feature < self@.n(),
                scope < self@.ns(),
                self@.n() >= start.n(),
                self@.ns() >= start.ns(),
                shape::chain_links_from(self@, *links, m as int, feature, scope, exclude, k as int)
                    == shape::chain_links_from(start, *links, m as int, feature, scope, exclude, 0),
            decreases m - k,
        {
            proof {
                reveal(shape::set_chain);
                reveal(shape::chain_links_from);
            }
            let seg = numbered_seg("chaining", k);
            let fc: usize = self.new_relationship("FeatureChaining", feature, seg.as_str());
            self.set_bool(fc, "isImplied", false);
            let ex = if exclude.is_some() {
                exclude
            } else {
                self.read_pending_exclude()
            };
            self.push_pending(
                PendingRef {
                    elem: fc,
                    key: "chainingFeature",
                    index: None,
                    scope,
                    qn: links[k].duplicate(),
                    exclude: ex,
                    declared_only: false,
                    chain: preceding(links, k),
                    spec_idx: None,
                },
            );
            k += 1;
        }
        self.set_link(e, key, feature);
    }

    pub fn emit_clauses(&mut self, specs: &Vec<FeatureSpecialization>, e: usize, scope: usize)
        requires
            old(self)@.wf(),
            e < old(self)@.n(),
            scope < old(self)@.ns(),
        ensures
            final(self)@ == shape::emit_clauses(old(self)@, *specs, e, scope),
            final(self)@.wf(),
            final(self)@.n() >= old(self)@.n(),
            final(self)@.ns() >= old(self)@.ns(),
    {
        proof {
            reveal(shape::emit_clauses);
            reveal(shape::emit_clauses_from);
        }
        let mut k: usize = 0;
        let mut base: usize = 0;
        while k < specs.len()
            invariant
                k <= specs@.len(),
                self@.wf(),
                e < old(self)@.n(),
                scope < old(self)@.ns(),
                self@.n() >= old(self)@.n(),
                self@.ns() >= old(self)@.ns(),
                base <= self@.n(),
                shape::emit_clauses_from(self@, *specs, e, scope, k as int, base as int)
                    == shape::emit_clauses(old(self)@, *specs, e, scope),
            decreases specs@.len() - k,
        {
            proof {
                reveal(shape::emit_clauses);
                reveal(shape::emit_clauses_from);
            }
            let c = &specs[k];
            self.emit_clause(c, e, scope, base);
            proof {
                lemma_sizes(self@);
            }
            let len: usize = match c {
                FeatureSpecialization::TypedBy(types) => types.len(),
                FeatureSpecialization::Subsets(targets) => targets.len(),
                FeatureSpecialization::Redefines(targets) => targets.len(),
                _ => 1,
            };
            base = base + len;
            k += 1;
        }
    }

    /// Library elements as bases of a scope.
    pub fn library_bases(&mut self, names: &Vec<LibraryName>, s: usize)
        requires
            old(self)@.wf(),
            s < old(self)@.ns(),
        ensures
            final(self)@ == shape::library_bases(old(self)@, library_names_view(names@), s),
            final(self)@.wf(),
            final(self)@.n() == old(self)@.n(),
            final(self)@.ns() == old(self)@.ns(),
    {
        proof {
            reveal(shape::library_bases);
            reveal(shape::library_bases_from);
        }
        let mut k: usize = 0;
        while k < names.len()
            invariant
                k <= names@.len(),
                self@.wf(),
                s < self@.ns(),
                self@.n() == old(self)@.n(),
                self@.ns() == old(self)@.ns(),
                shape::library_bases_from(self@, library_names_view(names@), s, k as int)
                    == shape::library_bases(old(self)@, library_names_view(names@), s),
            decreases names@.len() - k,
        {
            proof {
                reveal(shape::library_bases);
                reveal(shape::library_bases_from);
            }
            assert(library_names_view(names@)[k as int] == names@[k as int]@);
            self.push_base(s, lib_qn(&names[k]));
            k += 1;
        }
    }

    /// Reference another element: a name is recorded for resolution; a feature
    /// chain becomes an owned Feature with one FeatureChaining per link.
    pub fn set_ref_excluding(
        &mut self,
        e: usize,
        key: &'static str,
        scope: usize,
        target: &TargetRef,
        exclude: Option<usize>,
    )
        requires
            old(self)@.wf(),
            e < old(self)@.n(),
            scope < old(self)@.ns(),
        ensures
            final(self)@ == shape::set_ref_excluding(old(self)@, e, key@, scope, *target, exclude),
            final(self)@.wf(),
            final(self)@.n() >= old(self)@.n(),
            final(self)@.ns() >= old(self)@.ns(),
    {
        proof {
            reveal(shape::set_ref_excluding);
        }
        match target {
            TargetRef::Name(qn) => {
                self.ref_name(e, key, None, scope, qn, exclude);
            },
            TargetRef::Chain(links) => {
                self.set_chain(e, key, scope, links, links.len(), exclude);
            },
        }
    }

    /// Reference another element, with the exclusion in force.
    pub fn set_ref(&mut self, e: usize, key: &'static str, scope: usize, target: &TargetRef)
        requires
            old(self)@.wf(),
            e < old(self)@.n(),
            scope < old(self)@.ns(),
        ensures
            final(self)@ == shape::set_ref(old(self)@, e, key@, scope, *target),
            final(self)@.wf(),
            final(self)@.n() >= old(self)@.n(),
            final(self)@.ns() >= old(self)@.ns(),
    {
        proof {
            reveal(shape::set_ref);
        }
        self.set_ref_excluding(e, key, scope, target, None);
    }

    /// A reference list property: one recorded reference per name.
    pub fn set_ref_list(
        &mut self,
        names: &Vec<QualifiedName>,
        e: usize,
        key: &'static str,
        scope: usize,
    )
        requires
            old(self)@.wf(),
            e < old(self)@.n(),
            scope < old(self)@.ns(),
        ensures
            final(self)@ == shape::set_ref_list(old(self)@, *names, e, key@, scope),
            final(self)@.wf(),
            final(self)@.n() >= old(self)@.n(),
            final(self)@.ns() >= old(self)@.ns(),
        decreases names, names@.len() + 1,
    {
        proof {
            reveal(shape::set_ref_list);
            reveal(shape::set_ref_list_from);
        }
        let mut i: usize = 0;
        while i < names.len()
            invariant
                i <= names@.len(),
                self@.wf(),
                self@.n() >= old(self)@.n(),
                self@.ns() >= old(self)@.ns(),
                e < old(self)@.n(),
                scope < old(self)@.ns(),
                shape::set_ref_list_from(self@, *names, e, key@, scope, i as int) == shape::set_ref_list(
                    old(self)@,
                    *names,
                    e,
                    key@,
                    scope,
                ),
            decreases names@.len() - i,
        {
            proof {
                reveal(shape::set_ref_list);
                reveal(shape::set_ref_list_from);
            }
            let x = &names[i];
            self.ref_name(e, key, Some(i), scope, x, None);
            i += 1;
        }
    }

    /// `#M` prefix metadata: an owned, referential MetadataUsage typed by `M`.
    pub fn emit_prefix_metadata_one(&mut self, owner: usize, m: &QualifiedName, scope: usize)
        requires
            old(self)@.wf(),
            owner < old(self)@.n(),
            scope < old(self)@.ns(),
        ensures
            final(self)@ == shape::emit_prefix_metadata_one(old(self)@, owner, m@, scope),
            final(self)@.wf(),
            final(self)@.n() >= old(self)@.n(),
            final(self)@.ns() >= old(self)@.ns(),
    {
        proof {
            reveal(shape::emit_prefix_metadata_one);
        }
        let (rel, i) = self.new_prefix_membership(owner);
        self.set_bool(rel, "isImplied", false);
        self.set_str(rel, "visibility", "public");
        let seg = numbered_seg("meta", i);
        let e: usize = self.new_owned_element("MetadataUsage", rel, seg.as_str());
        self.set_bool(e, "isComposite", false);
        self.set_bool(e, "isVariation", false);
        let ft: usize = self.new_relationship("FeatureTyping", e, "typing");
        self.set_bool(ft, "isImplied", false);
        self.ref_name(ft, "type", None, scope, m, None);
        self.set_link(ft, "typedFeature", e);
        self.add_spec_target(e, "FeatureTyping", scope, m.duplicate());
        self.add_metadata(owner, e);
    }

    /// The prefix metadata of a declaration, in order.
    pub fn emit_prefix_metadata(
        &mut self,
        metadata: &Vec<QualifiedName>,
        owner: usize,
        scope: usize,
    )
        requires
            old(self)@.wf(),
            owner < old(self)@.n(),
            scope < old(self)@.ns(),
        ensures
            final(self)@ == shape::emit_prefix_metadata(old(self)@, *metadata, owner, scope),
            final(self)@.wf(),
            final(self)@.n() >= old(self)@.n(),
            final(self)@.ns() >= old(self)@.ns(),
        decreases metadata, metadata@.len() + 1,
    {
        proof {
            reveal(shape::emit_prefix_metadata);
            reveal(shape::emit_prefix_metadata_from);
        }
        let mut i: usize = 0;
        while i < metadata.len()
            invariant
                i <= metadata@.len(),
                self@.wf(),
                self@.n() >= old(self)@.n(),
                self@.ns() >= old(self)@.ns(),
                owner < old(self)@.n(),
                scope < old(self)@.ns(),
                shape::emit_prefix_metadata_from(self@, *metadata, owner, scope, i as int) == shape::emit_prefix_metadata(
                    old(self)@,
                    *metadata,
                    owner,
                    scope,
                ),
            decreases metadata@.len() - i,
        {
            proof {
                reveal(shape::emit_prefix_metadata);
                reveal(shape::emit_prefix_metadata_from);
            }
            let x = &metadata[i];
            self.emit_prefix_metadata_one(owner, x, scope);
            i += 1;
        }
    }

    /// `about` targets: one Annotation each.
    pub fn emit_about(&mut self, about: &Vec<QualifiedName>, e: usize, scope: usize)
        requires
            old(self)@.wf(),
            e < old(self)@.n(),
            scope < old(self)@.ns(),
        ensures
            final(self)@ == shape::emit_about(old(self)@, *about, e, scope),
            final(self)@.wf(),
            final(self)@.n() >= old(self)@.n(),
            final(self)@.ns() >= old(self)@.ns(),
        decreases about, about@.len() + 1,
    {
        proof {
            reveal(shape::emit_about);
            reveal(shape::emit_about_from);
        }
        let mut i: usize = 0;
        while i < about.len()
            invariant
                i <= about@.len(),
                self@.wf(),
                self@.n() >= old(self)@.n(),
                self@.ns() >= old(self)@.ns(),
                e < old(self)@.n(),
                scope < old(self)@.ns(),
                shape::emit_about_from(
                    self@,
                    *about,
                    e,
                    scope,
                    i as int,
                ) == shape::emit_about(old(self)@, *about, e, scope),
            decreases about@.len() - i,
        {
            proof {
                reveal(shape::emit_about);
                reveal(shape::emit_about_from);
            }
            let x = &about[i];
            let seg = numbered_seg("about", i);
            let ann: usize = self.new_relationship("Annotation", e, seg.as_str());
            self.set_bool(ann, "isImplied", false);
            self.ref_name(ann, "annotatedElement", None, scope, x, None);
            i += 1;
        }
    }

    /// A membership with the given visibility.
    pub fn new_membership(
        &mut self,
        ty: &'static str,
        owner: usize,
        seg: &str,
        vis: Option<Visibility>,
    ) -> (r: usize)
        requires
            old(self)@.wf(),
            owner < old(self)@.n(),
        ensures
            (final(self)@, r) == shape::new_membership(old(self)@, ty@, owner, seg@, vis),
            final(self)@.wf(),
            final(self)@.n() >= old(self)@.n(),
            final(self)@.ns() >= old(self)@.ns(),
            r < final(self)@.n(),
            final(self)@.n() == old(self)@.n() + 1,
    {
        proof {
            reveal(shape::new_membership);
        }
        let rel: usize = self.new_relationship(ty, owner, seg);
        self.set_str(rel, "visibility", visibility(vis));
        self.set_bool(rel, "isImplied", false);
        rel
    }

    /// A relationship that is written, not implied.
    pub fn new_explicit(&mut self, ty: &'static str, owner: usize, seg: &str) -> (r: usize)
        requires
            old(self)@.wf(),
            owner < old(self)@.n(),
        ensures
            (final(self)@, r) == shape::new_explicit(old(self)@, ty@, owner, seg@),
            final(self)@.wf(),
            final(self)@.n() >= old(self)@.n(),
            final(self)@.ns() >= old(self)@.ns(),
            r < final(self)@.n(),
            final(self)@.n() == old(self)@.n() + 1,
    {
        proof {
            reveal(shape::new_explicit);
        }
        let rel: usize = self.new_relationship(ty, owner, seg);
        self.set_bool(rel, "isImplied", false);
        rel
    }

    /// A public membership of a synthesized element.
    pub fn new_public(&mut self, ty: &'static str, owner: usize, seg: &str) -> (r: usize)
        requires
            old(self)@.wf(),
            owner < old(self)@.n(),
        ensures
            (final(self)@, r) == shape::new_public(old(self)@, ty@, owner, seg@),
            final(self)@.wf(),
            final(self)@.n() >= old(self)@.n(),
            final(self)@.ns() >= old(self)@.ns(),
            r < final(self)@.n(),
            final(self)@.n() == old(self)@.n() + 1,
    {
        proof {
            reveal(shape::new_public);
        }
        let rel: usize = self.new_relationship(ty, owner, seg);
        self.set_bool(rel, "isImplied", false);
        self.set_str(rel, "visibility", "public");
        rel
    }

    /// One typing: the typed feature is `e`, a conjugated typing has a
    /// metaclass of its own.
    pub fn emit_typing(&mut self, t: &TypeRef, e: usize, scope: usize, num: usize)
        requires
            old(self)@.wf(),
            e < old(self)@.n(),
            scope < old(self)@.ns(),
        ensures
            final(self)@ == shape::emit_typing(old(self)@, *t, e, scope, num),
            final(self)@.wf(),
            final(self)@.n() >= old(self)@.n(),
            final(self)@.ns() >= old(self)@.ns(),
            final(self)@.n() > old(self)@.n(),
    {
        proof {
            reveal(shape::emit_typing);
        }
        let seg = numbered_seg("typing", num);
        let ft: usize = self.new_explicit("FeatureTyping", e, seg.as_str());
        if t.is_conjugated {
            self.retype(ft, "ConjugatedPortTyping");
        }
        if let TargetRef::Name(qn) = &t.target {
            self.announce_spec_target(e, "FeatureTyping", scope, qn.duplicate());
        }
        self.set_ref(ft, "type", scope, &t.target);
        self.set_link(ft, "typedFeature", e);
    }

    /// One subsetting of a target by `e`.
    pub fn emit_subsetting(&mut self, t: &TargetRef, e: usize, scope: usize, num: usize)
        requires
            old(self)@.wf(),
            e < old(self)@.n(),
            scope < old(self)@.ns(),
        ensures
            final(self)@ == shape::emit_subsetting(old(self)@, *t, e, scope, num),
            final(self)@.wf(),
            final(self)@.n() >= old(self)@.n(),
            final(self)@.ns() >= old(self)@.ns(),
            final(self)@.n() > old(self)@.n(),
    {
        proof {
            reveal(shape::emit_subsetting);
        }
        let seg = numbered_seg("subset", num);
        let s: usize = self.new_explicit("Subsetting", e, seg.as_str());
        if let TargetRef::Name(qn) = t {
            self.announce_spec_target(e, "Subsetting", scope, qn.duplicate());
        }
        self.set_ref_excluding(s, "subsettedFeature", scope, t, Some(e));
        self.set_link(s, "subsettingFeature", e);
    }

    /// One redefinition of a target by `e`.
    pub fn emit_redefinition(&mut self, t: &TargetRef, e: usize, scope: usize, num: usize)
        requires
            old(self)@.wf(),
            e < old(self)@.n(),
            scope < old(self)@.ns(),
        ensures
            final(self)@ == shape::emit_redefinition(old(self)@, *t, e, scope, num),
            final(self)@.wf(),
            final(self)@.n() >= old(self)@.n(),
            final(self)@.ns() >= old(self)@.ns(),
            final(self)@.n() > old(self)@.n(),
    {
        proof {
            reveal(shape::emit_redefinition);
        }
        let seg = numbered_seg("redef", num);
        let r: usize = self.new_explicit("Redefinition", e, seg.as_str());
        if let TargetRef::Name(qn) = t {
            self.announce_spec_target(e, "Redefinition", scope, qn.duplicate());
        }
        self.set_ref_excluding(r, "redefinedFeature", scope, t, Some(e));
        self.set_link(r, "redefiningFeature", e);
    }

    /// A reference subsetting (`::>`).
    pub fn emit_reference(&mut self, t: &TargetRef, e: usize, scope: usize, num: usize)
        requires
            old(self)@.wf(),
            e < old(self)@.n(),
            scope < old(self)@.ns(),
        ensures
            final(self)@ == shape::emit_reference(old(self)@, *t, e, scope, num),
            final(self)@.wf(),
            final(self)@.n() >= old(self)@.n(),
            final(self)@.ns() >= old(self)@.ns(),
            final(self)@.n() > old(self)@.n(),
    {
        proof {
            reveal(shape::emit_reference);
        }
        let seg = numbered_seg("refsub", num);
        let r: usize = self.new_explicit("ReferenceSubsetting", e, seg.as_str());
        self.set_ref_excluding(r, "referencedFeature", scope, t, Some(e));
        self.set_link(r, "subsettingFeature", e);
    }

    /// A cross subsetting (`=>`).
    pub fn emit_crossing(&mut self, t: &TargetRef, e: usize, scope: usize, num: usize)
        requires
            old(self)@.wf(),
            e < old(self)@.n(),
            scope < old(self)@.ns(),
        ensures
            final(self)@ == shape::emit_crossing(old(self)@, *t, e, scope, num),
            final(self)@.wf(),
            final(self)@.n() >= old(self)@.n(),
            final(self)@.ns() >= old(self)@.ns(),
            final(self)@.n() > old(self)@.n(),
    {
        proof {
            reveal(shape::emit_crossing);
        }
        let seg = numbered_seg("cross", num);
        let r: usize = self.new_explicit("CrossSubsetting", e, seg.as_str());
        self.set_ref_excluding(r, "crossedFeature", scope, t, Some(e));
        self.set_link(r, "subsettingFeature", e);
    }

    /// The typings of one clause, numbered from `base`.
    pub fn emit_typings(&mut self, types: &Vec<TypeRef>, e: usize, scope: usize, base: usize)
        requires
            old(self)@.wf(),
            e < old(self)@.n(),
            scope < old(self)@.ns(),
            base <= old(self)@.n(),
        ensures
            final(self)@ == shape::emit_typings(old(self)@, *types, e, scope, base),
            final(self)@.wf(),
            final(self)@.n() >= old(self)@.n(),
            final(self)@.ns() >= old(self)@.ns(),
            base + types@.len() <= final(self)@.n(),
        decreases types, types@.len() + 1,
    {
        proof {
            reveal(shape::emit_typings);
            reveal(shape::emit_typings_from);
        }
        let mut i: usize = 0;
        while i < types.len()
            invariant
                i <= types@.len(),
                self@.wf(),
                self@.n() >= old(self)@.n(),
                self@.ns() >= old(self)@.ns(),
                base + i <= self@.n(),
                e < old(self)@.n(),
                scope < old(self)@.ns(),
                base <= old(self)@.n(),
                shape::emit_typings_from(self@, *types, e, scope, base, i as int) == shape::emit_typings(
                    old(self)@,
                    *types,
                    e,
                    scope,
                    base,
                ),
            decreases types@.len() - i,
        {
            proof {
                reveal(shape::emit_typings);
                reveal(shape::emit_typings_from);
            }
            let x = &types[i];
            proof {
                lemma_sizes(self@);
            }
            let num: usize = base + i;
            self.emit_typing(x, e, scope, num);
            i += 1;
        }
    }

    /// The subsettings of one clause, numbered from `base`.
    pub fn emit_subsettings(
        &mut self,
        targets: &Vec<TargetRef>,
        e: usize,
        scope: usize,
        base: usize,
    )
        requires
            old(self)@.wf(),
            e < old(self)@.n(),
            scope < old(self)@.ns(),
            base <= old(self)@.n(),
        ensures
            final(self)@ == shape::emit_subsettings(old(self)@, *targets, e, scope, base),
            final(self)@.wf(),
            final(self)@.n() >= old(self)@.n(),
            final(self)@.ns() >= old(self)@.ns(),
            base + targets@.len() <= final(self)@.n(),
        decreases targets, targets@.len() + 1,
    {
        proof {
            reveal(shape::emit_subsettings);
            reveal(shape::emit_subsettings_from);
        }
        let mut i: usize = 0;
        while i < targets.len()
            invariant
                i <= targets@.len(),
                self@.wf(),
                self@.n() >= old(self)@.n(),
                self@.ns() >= old(self)@.ns(),
                base + i <= self@.n(),
                e < old(self)@.n(),
                scope < old(self)@.ns(),
                base <= old(self)@.n(),
                shape::emit_subsettings_from(self@, *targets, e, scope, base, i as int) == shape::emit_subsettings(
                    old(self)@,
                    *targets,
                    e,
                    scope,
                    base,
                ),
            decreases targets@.len() - i,
        {
            proof {
                reveal(shape::emit_subsettings);
                reveal(shape::emit_subsettings_from);
            }
            let x = &targets[i];
            proof {
                lemma_sizes(self@);
            }
            let num: usize = base + i;
            self.emit_subsetting(x, e, scope, num);
            i += 1;
        }
    }

    /// The redefinitions of one clause, numbered from `base`.
    pub fn emit_redefinitions(
        &mut self,
        targets: &Vec<TargetRef>,
        e: usize,
        scope: usize,
        base: usize,
    )
        requires
            old(self)@.wf(),
            e < old(self)@.n(),
            scope < old(self)@.ns(),
            base <= old(self)@.n(),
        ensures
            final(self)@ == shape::emit_redefinitions(old(self)@, *targets, e, scope, base),
            final(self)@.wf(),
            final(self)@.n() >= old(self)@.n(),
            final(self)@.ns() >= old(self)@.ns(),
            base + targets@.len() <= final(self)@.n(),
        decreases targets, targets@.len() + 1,
    {
        proof {
            reveal(shape::emit_redefinitions);
            reveal(shape::emit_redefinitions_from);
        }
        let mut i: usize = 0;
        while i < targets.len()
            invariant
                i <= targets@.len(),
                self@.wf(),
                self@.n() >= old(self)@.n(),
                self@.ns() >= old(self)@.ns(),
                base + i <= self@.n(),
                e < old(self)@.n(),
                scope < old(self)@.ns(),
                base <= old(self)@.n(),
                shape::emit_redefinitions_from(self@, *targets, e, scope, base, i as int) == shape::emit_redefinitions(
                    old(self)@,
                    *targets,
                    e,
                    scope,
                    base,
                ),
            decreases targets@.len() - i,
        {
            proof {
                reveal(shape::emit_redefinitions);
                reveal(shape::emit_redefinitions_from);
            }
            let x = &targets[i];
            proof {
                lemma_sizes(self@);
            }
            let num: usize = base + i;
            self.emit_redefinition(x, e, scope, num);
            i += 1;
        }
    }

    /// One specialization clause, its relationships numbered from `base`.
    pub fn emit_clause(
        &mut self,
        clause: &FeatureSpecialization,
        e: usize,
        scope: usize,
        base: usize,
    )
        requires
            old(self)@.wf(),
            e < old(self)@.n(),
            scope < old(self)@.ns(),
            base <= old(self)@.n(),
        ensures
            final(self)@ == shape::emit_clause(old(self)@, *clause, e, scope, base),
            final(self)@.wf(),
            final(self)@.n() >= old(self)@.n(),
            final(self)@.ns() >= old(self)@.ns(),
            base + shape::clause_len(*clause) <= final(self)@.n(),
    {
        proof {
            reveal(shape::emit_clause);
        }
        match clause {
            FeatureSpecialization::TypedBy(types) => {
                self.emit_typings(types, e, scope, base);
            },
            FeatureSpecialization::Subsets(targets) => {
                self.emit_subsettings(targets, e, scope, base);
            },
            FeatureSpecialization::Redefines(targets) => {
                self.emit_redefinitions(targets, e, scope, base);
            },
            FeatureSpecialization::References(t) => {
                self.emit_reference(t, e, scope, base);
            },
            FeatureSpecialization::Crosses(t) => {
                self.emit_crossing(t, e, scope, base);
            },
        }
    }

    /// The targets of one type operation: a relationship of `kind` each.
    pub fn emit_type_operation(
        &mut self,
        targets: &Vec<TargetRef>,
        e: usize,
        scope: usize,
        kind: &'static str,
        key: &'static str,
    )
        requires
            old(self)@.wf(),
            e < old(self)@.n(),
            scope < old(self)@.ns(),
        ensures
            final(self)@ == shape::emit_type_operation(old(self)@, *targets, e, scope, kind@, key@),
            final(self)@.wf(),
            final(self)@.n() >= old(self)@.n(),
            final(self)@.ns() >= old(self)@.ns(),
        decreases targets, targets@.len() + 1,
    {
        proof {
            reveal(shape::emit_type_operation);
            reveal(shape::emit_type_operation_from);
        }
        let mut i: usize = 0;
        while i < targets.len()
            invariant
                i <= targets@.len(),
                self@.wf(),
                self@.n() >= old(self)@.n(),
                self@.ns() >= old(self)@.ns(),
                e < old(self)@.n(),
                scope < old(self)@.ns(),
                shape::emit_type_operation_from(self@, *targets, e, scope, kind@, key@, i as int) == shape::emit_type_operation(
                    old(self)@,
                    *targets,
                    e,
                    scope,
                    kind@,
                    key@,
                ),
            decreases targets@.len() - i,
        {
            proof {
                reveal(shape::emit_type_operation);
                reveal(shape::emit_type_operation_from);
            }
            let x = &targets[i];
            let seg = numbered_seg(key, i);
            let r: usize = self.new_explicit(kind, e, seg.as_str());
            self.set_ref(r, key, scope, x);
            i += 1;
        }
    }

    /// The links of a `chains` clause.
    pub fn emit_chaining(&mut self, links: &Vec<QualifiedName>, e: usize, scope: usize)
        requires
            old(self)@.wf(),
            e < old(self)@.n(),
            scope < old(self)@.ns(),
        ensures
            final(self)@ == shape::emit_chaining(old(self)@, *links, e, scope),
            final(self)@.wf(),
            final(self)@.n() >= old(self)@.n(),
            final(self)@.ns() >= old(self)@.ns(),
        decreases links, links@.len() + 1,
    {
        proof {
            reveal(shape::emit_chaining);
            reveal(shape::emit_chaining_from);
        }
        let mut i: usize = 0;
        while i < links.len()
            invariant
                i <= links@.len(),
                self@.wf(),
                self@.n() >= old(self)@.n(),
                self@.ns() >= old(self)@.ns(),
                e < old(self)@.n(),
                scope < old(self)@.ns(),
                shape::emit_chaining_from(
                    self@,
                    *links,
                    e,
                    scope,
                    i as int,
                ) == shape::emit_chaining(old(self)@, *links, e, scope),
            decreases links@.len() - i,
        {
            proof {
                reveal(shape::emit_chaining);
                reveal(shape::emit_chaining_from);
            }
            let x = &links[i];
            let seg = numbered_seg("chain", i);
            let fc: usize = self.new_explicit("FeatureChaining", e, seg.as_str());
            self.ref_name(fc, "chainingFeature", None, scope, x, None);
            i += 1;
        }
    }

    /// `featured by` targets: a TypeFeaturing each.
    pub fn emit_featuring(&mut self, targets: &Vec<TargetRef>, e: usize, scope: usize)
        requires
            old(self)@.wf(),
            e < old(self)@.n(),
            scope < old(self)@.ns(),
        ensures
            final(self)@ == shape::emit_featuring(old(self)@, *targets, e, scope),
            final(self)@.wf(),
            final(self)@.n() >= old(self)@.n(),
            final(self)@.ns() >= old(self)@.ns(),
        decreases targets, targets@.len() + 1,
    {
        proof {
            reveal(shape::emit_featuring);
            reveal(shape::emit_featuring_from);
        }
        let mut i: usize = 0;
        while i < targets.len()
            invariant
                i <= targets@.len(),
                self@.wf(),
                self@.n() >= old(self)@.n(),
                self@.ns() >= old(self)@.ns(),
                e < old(self)@.n(),
                scope < old(self)@.ns(),
                shape::emit_featuring_from(self@, *targets, e, scope, i as int) == shape::emit_featuring(
                    old(self)@,
                    *targets,
                    e,
                    scope,
                ),
            decreases targets@.len() - i,
        {
            proof {
                reveal(shape::emit_featuring);
                reveal(shape::emit_featuring_from);
            }
            let x = &targets[i];
            let seg = numbered_seg("featuring", i);
            let tf: usize = self.new_explicit("TypeFeaturing", e, seg.as_str());
            self.set_ref(tf, "featuringType", scope, x);
            i += 1;
        }
    }

    /// The type operations of a declaration.
    pub fn emit_type_operations(
        &mut self,
        e: usize,
        scope: usize,
        disjoint: &Vec<TargetRef>,
        unions: &Vec<TargetRef>,
        intersects: &Vec<TargetRef>,
        differences: &Vec<TargetRef>,
    )
        requires
            old(self)@.wf(),
            e < old(self)@.n(),
            scope < old(self)@.ns(),
        ensures
            final(self)@ == shape::emit_type_operations(
                old(self)@,
                e,
                scope,
                *disjoint,
                *unions,
                *intersects,
                *differences,
            ),
            final(self)@.wf(),
            final(self)@.n() >= old(self)@.n(),
            final(self)@.ns() >= old(self)@.ns(),
    {
        proof {
            reveal(shape::emit_type_operations);
        }
        self.emit_type_operation(disjoint, e, scope, "Disjoining", "disjoiningType");
        self.emit_type_operation(unions, e, scope, "Unioning", "unioningType");
        self.emit_type_operation(intersects, e, scope, "Intersecting", "intersectingType");
        self.emit_type_operation(differences, e, scope, "Differencing", "differencingType");
    }

    /// Set a truth value only where a condition holds.
    pub fn set_bool_if(&mut self, cond: bool, e: usize, key: &'static str, v: bool)
        requires
            old(self)@.wf(),
            e < old(self)@.n(),
        ensures
            final(self)@ == shape::set_bool_if(old(self)@, cond, e, key@, v),
            final(self)@.wf(),
            final(self)@.n() >= old(self)@.n(),
            final(self)@.ns() >= old(self)@.ns(),
    {
        proof {
            reveal(shape::set_bool_if);
        }
        if cond {
            self.set_bool(e, key, v);
        }
    }

    /// An optional conjugation.
    pub fn emit_opt_conjugation(&mut self, t: &Option<TargetRef>, e: usize, scope: usize)
        requires
            old(self)@.wf(),
            e < old(self)@.n(),
            scope < old(self)@.ns(),
        ensures
            final(self)@ == shape::emit_opt_conjugation(old(self)@, *t, e, scope),
            final(self)@.wf(),
            final(self)@.n() >= old(self)@.n(),
            final(self)@.ns() >= old(self)@.ns(),
    {
        proof {
            reveal(shape::emit_opt_conjugation);
        }
        if let Some(x) = t {
            let c: usize = self.new_explicit("Conjugation", e, "conjugation");
            self.set_ref(c, "originalType", scope, x);
        }
    }

    /// An optional `chains` clause.
    pub fn emit_opt_chaining(&mut self, t: &Option<TargetRef>, e: usize, scope: usize)
        requires
            old(self)@.wf(),
            e < old(self)@.n(),
            scope < old(self)@.ns(),
        ensures
            final(self)@ == shape::emit_opt_chaining(old(self)@, *t, e, scope),
            final(self)@.wf(),
            final(self)@.n() >= old(self)@.n(),
            final(self)@.ns() >= old(self)@.ns(),
    {
        proof {
            reveal(shape::emit_opt_chaining);
        }
        if let Some(x) = t {
            match x {
                TargetRef::Chain(links) => {
                    self.emit_chaining(links, e, scope);
                },
                TargetRef::Name(qn) => {
                    let fc: usize = self.new_explicit("FeatureChaining", e, "chain0");
                    self.set_ref(fc, "chainingFeature", scope, x);
                },
            }
        }
    }

    /// An optional inversion.
    pub fn emit_opt_inverting(&mut self, t: &Option<TargetRef>, e: usize, scope: usize)
        requires
            old(self)@.wf(),
            e < old(self)@.n(),
            scope < old(self)@.ns(),
        ensures
            final(self)@ == shape::emit_opt_inverting(old(self)@, *t, e, scope),
            final(self)@.wf(),
            final(self)@.n() >= old(self)@.n(),
            final(self)@.ns() >= old(self)@.ns(),
    {
        proof {
            reveal(shape::emit_opt_inverting);
        }
        if let Some(x) = t {
            let fi: usize = self.new_explicit("FeatureInverting", e, "inverting");
            self.set_ref(fi, "invertingFeature", scope, x);
        }
    }

    /// The specialization clauses of a feature declaration, and its KerML
    /// feature relationships, as relationships owned by `e`.
    pub fn emit_specializations(&mut self, e: usize, decl: &FeatureDeclaration, scope: usize)
        requires
            old(self)@.wf(),
            e < old(self)@.n(),
            scope < old(self)@.ns(),
        ensures
            final(self)@ == shape::emit_specializations(old(self)@, e, *decl, scope),
            final(self)@.wf(),
            final(self)@.n() >= old(self)@.n(),
            final(self)@.ns() >= old(self)@.ns(),
    {
        proof {
            reveal(shape::emit_specializations);
        }
        self.emit_clauses(&decl.specializations, e, scope);
        self.emit_opt_conjugation(&decl.conjugates, e, scope);
        self.emit_opt_chaining(&decl.chains, e, scope);
        self.emit_opt_inverting(&decl.inverse_of, e, scope);
        self.emit_featuring(&decl.featured_by, e, scope);
        self.emit_type_operations(
            e,
            scope,
            &decl.disjoint_from,
            &decl.unions,
            &decl.intersects,
            &decl.differences,
        );
    }

    /// SysML usages spell `isVariation` even when synthesized; a KerML Feature
    /// has no such property.
    pub fn set_synth_usage_flags(&mut self, e: usize)
        requires
            old(self)@.wf(),
            e < old(self)@.n(),
        ensures
            final(self)@ == shape::set_synth_usage_flags(old(self)@, e),
            final(self)@.wf(),
            final(self)@.n() >= old(self)@.n(),
            final(self)@.ns() >= old(self)@.ns(),
    {
        proof {
            reveal(shape::set_synth_usage_flags);
        }
        if !str_eq(self.ty(e), "Feature") {
            self.set_bool(e, "isVariation", false);
        }
    }

    /// An anonymous reference feature: a ReferenceUsage in SysML, a Feature in
    /// KerML.
    pub fn new_ref_feature(&mut self, rel: usize, seg: &str) -> (r: usize)
        requires
            old(self)@.wf(),
            rel < old(self)@.n(),
        ensures
            (final(self)@, r) == shape::new_ref_feature(old(self)@, rel, seg@),
            final(self)@.wf(),
            final(self)@.n() >= old(self)@.n(),
            final(self)@.ns() >= old(self)@.ns(),
            r < final(self)@.n(),
    {
        proof {
            reveal(shape::new_ref_feature);
        }
        let ty = if self.read_dialect() == Dialect::Sysml { "ReferenceUsage" } else { "Feature" };
        let e: usize = self.new_owned_element(ty, rel, seg);
        e
    }

    /// Set a property to the name's text, where there is a name.
    pub fn set_opt_name(&mut self, e: usize, key: &'static str, name: &Option<Name>)
        requires
            old(self)@.wf(),
            e < old(self)@.n(),
        ensures
            final(self)@ == shape::set_opt_name(old(self)@, e, key@, *name),
            final(self)@.wf(),
            final(self)@.n() >= old(self)@.n(),
            final(self)@.ns() >= old(self)@.ns(),
    {
        proof {
            reveal(shape::set_opt_name);
        }
        if let Some(n) = name {
            self.set_str(e, key, n.value.as_str());
        }
    }

    /// The feature of a connector end: referential, a PortUsage in interfaces.
    pub fn open_end(&mut self, parent: usize, i: usize, name: &Option<Name>) -> (r: usize)
        requires
            old(self)@.wf(),
            parent < old(self)@.n(),
        ensures
            (final(self)@, r) == shape::open_end(old(self)@, parent, i, *name),
            final(self)@.wf(),
            final(self)@.n() >= old(self)@.n(),
            final(self)@.ns() >= old(self)@.ns(),
            r < final(self)@.n(),
    {
        proof {
            reveal(shape::open_end);
        }
        let seg = numbered_seg("end", i);
        let rel: usize = self.new_public("EndFeatureMembership", parent, seg.as_str());
        let in_interface = str_eq(self.ty(parent), "InterfaceUsage") || str_eq(
            self.ty(parent),
            "InterfaceDefinition",
        );
        let ty = if in_interface { "PortUsage" } else if self.read_dialect() == Dialect::Sysml { "ReferenceUsage" } else { "Feature" };
        let ru: usize = self.new_owned_element(ty, rel, seg.as_str());
        self.set_bool(ru, "isEnd", true);
        self.set_bool(ru, "isComposite", false);
        self.set_bool_if(!str_eq(ty, "Feature"), ru, "isVariation", false);
        self.set_opt_name(ru, "declaredName", name);
        ru
    }

    /// What a connector end connects: a ReferenceSubsetting, unless the target
    /// is unwritten.
    pub fn close_end(&mut self, parent: usize, ru: usize, target: &TargetRef, scope: usize)
        requires
            old(self)@.wf(),
            parent < old(self)@.n(),
            ru < old(self)@.n(),
            scope < old(self)@.ns(),
        ensures
            final(self)@ == shape::close_end(old(self)@, parent, ru, *target, scope),
            final(self)@.wf(),
            final(self)@.n() >= old(self)@.n(),
            final(self)@.ns() >= old(self)@.ns(),
    {
        proof {
            reveal(shape::close_end);
        }
        if !is_empty_target(target) {
            self.push_connector_end(parent, ru, target_span(target));
            let rs: usize = self.new_explicit("ReferenceSubsetting", ru, "refsub");
            self.set_ref(rs, "referencedFeature", scope, target);
            self.set_link(rs, "subsettingFeature", ru);
        }
    }

    /// An end the text leaves unwritten.
    pub fn emit_empty_end(&mut self, parent: usize, i: usize) -> (r: usize)
        requires
            old(self)@.wf(),
            parent < old(self)@.n(),
        ensures
            (final(self)@, r) == shape::emit_empty_end(old(self)@, parent, i),
            final(self)@.wf(),
            final(self)@.n() >= old(self)@.n(),
            final(self)@.ns() >= old(self)@.ns(),
            r < final(self)@.n(),
    {
        proof {
            reveal(shape::emit_empty_end);
        }
        let ru: usize = self.open_end(parent, i, &None);
        ru
    }

    /// The names of a typing clause as bases of a scope.
    pub fn typing_bases(&mut self, types: &Vec<TypeRef>, s: usize)
        requires
            old(self)@.wf(),
            s < old(self)@.ns(),
        ensures
            final(self)@ == shape::typing_bases(old(self)@, *types, s),
            final(self)@.wf(),
            final(self)@.n() >= old(self)@.n(),
            final(self)@.ns() >= old(self)@.ns(),
        decreases types, types@.len() + 1,
    {
        proof {
            reveal(shape::typing_bases);
            reveal(shape::typing_bases_from);
        }
        let mut i: usize = 0;
        while i < types.len()
            invariant
                i <= types@.len(),
                self@.wf(),
                self@.n() >= old(self)@.n(),
                self@.ns() >= old(self)@.ns(),
                s < old(self)@.ns(),
                shape::typing_bases_from(self@, *types, s, i as int) == shape::typing_bases(old(self)@, *types, s),
            decreases types@.len() - i,
        {
            proof {
                reveal(shape::typing_bases);
                reveal(shape::typing_bases_from);
            }
            let x = &types[i];
            if let TargetRef::Name(qn) = &x.target {
                self.push_base(s, qn.duplicate());
            }
            i += 1;
        }
    }

    /// The typing names of specialization clauses as bases of a scope.
    pub fn typed_bases(&mut self, specs: &Vec<FeatureSpecialization>, s: usize)
        requires
            old(self)@.wf(),
            s < old(self)@.ns(),
        ensures
            final(self)@ == shape::typed_bases(old(self)@, *specs, s),
            final(self)@.wf(),
            final(self)@.n() >= old(self)@.n(),
            final(self)@.ns() >= old(self)@.ns(),
        decreases specs, specs@.len() + 1,
    {
        proof {
            reveal(shape::typed_bases);
            reveal(shape::typed_bases_from);
        }
        let mut i: usize = 0;
        while i < specs.len()
            invariant
                i <= specs@.len(),
                self@.wf(),
                self@.n() >= old(self)@.n(),
                self@.ns() >= old(self)@.ns(),
                s < old(self)@.ns(),
                shape::typed_bases_from(self@, *specs, s, i as int) == shape::typed_bases(old(self)@, *specs, s),
            decreases specs@.len() - i,
        {
            proof {
                reveal(shape::typed_bases);
                reveal(shape::typed_bases_from);
            }
            let x = &specs[i];
            if let FeatureSpecialization::TypedBy(types) = x {
                self.typing_bases(types, s);
            }
            i += 1;
        }
    }

    /// One specialization target as a base: a name resolves as it is, a chain
    /// through its last link; chains that subset are recorded.
    pub fn target_base(&mut self, t: &TargetRef, s: usize, subsets: bool, e: usize, scope: usize)
        requires
            old(self)@.wf(),
            s < old(self)@.ns(),
            e < old(self)@.n(),
            scope < old(self)@.ns(),
        ensures
            final(self)@ == shape::target_base(old(self)@, *t, s, subsets, e, scope),
            final(self)@.wf(),
            final(self)@.n() >= old(self)@.n(),
            final(self)@.ns() >= old(self)@.ns(),
    {
        proof {
            reveal(shape::target_base);
        }
        match t {
            TargetRef::Name(qn) => {
                self.push_base(s, qn.duplicate());
            },
            TargetRef::Chain(links) => {
                if links.len() > 0 {
                    self.push_chain_base(s, duplicate_prefix(links, links.len()));
                    if subsets {
                        self.push_chain_subsetting(
                            e,
                            scope,
                            duplicate_prefix(links, links.len()),
                            links[0].span,
                        );
                    }
                }
            },
        }
    }

    /// Several specialization targets as bases.
    pub fn target_bases(
        &mut self,
        targets: &Vec<TargetRef>,
        s: usize,
        subsets: bool,
        e: usize,
        scope: usize,
    )
        requires
            old(self)@.wf(),
            s < old(self)@.ns(),
            e < old(self)@.n(),
            scope < old(self)@.ns(),
        ensures
            final(self)@ == shape::target_bases(old(self)@, *targets, s, subsets, e, scope),
            final(self)@.wf(),
            final(self)@.n() >= old(self)@.n(),
            final(self)@.ns() >= old(self)@.ns(),
        decreases targets, targets@.len() + 1,
    {
        proof {
            reveal(shape::target_bases);
            reveal(shape::target_bases_from);
        }
        let mut i: usize = 0;
        while i < targets.len()
            invariant
                i <= targets@.len(),
                self@.wf(),
                self@.n() >= old(self)@.n(),
                self@.ns() >= old(self)@.ns(),
                s < old(self)@.ns(),
                e < old(self)@.n(),
                scope < old(self)@.ns(),
                shape::target_bases_from(self@, *targets, s, subsets, e, scope, i as int) == shape::target_bases(
                    old(self)@,
                    *targets,
                    s,
                    subsets,
                    e,
                    scope,
                ),
            decreases targets@.len() - i,
        {
            proof {
                reveal(shape::target_bases);
                reveal(shape::target_bases_from);
            }
            let x = &targets[i];
            self.target_base(x, s, subsets, e, scope);
            i += 1;
        }
    }

    /// The types of a clause as bases.
    pub fn type_bases(&mut self, types: &Vec<TypeRef>, s: usize, e: usize, scope: usize)
        requires
            old(self)@.wf(),
            s < old(self)@.ns(),
            e < old(self)@.n(),
            scope < old(self)@.ns(),
        ensures
            final(self)@ == shape::type_bases(old(self)@, *types, s, e, scope),
            final(self)@.wf(),
            final(self)@.n() >= old(self)@.n(),
            final(self)@.ns() >= old(self)@.ns(),
        decreases types, types@.len() + 1,
    {
        proof {
            reveal(shape::type_bases);
            reveal(shape::type_bases_from);
        }
        let mut i: usize = 0;
        while i < types.len()
            invariant
                i <= types@.len(),
                self@.wf(),
                self@.n() >= old(self)@.n(),
                self@.ns() >= old(self)@.ns(),
                s < old(self)@.ns(),
                e < old(self)@.n(),
                scope < old(self)@.ns(),
                shape::type_bases_from(self@, *types, s, e, scope, i as int) == shape::type_bases(
                    old(self)@,
                    *types,
                    s,
                    e,
                    scope,
                ),
            decreases types@.len() - i,
        {
            proof {
                reveal(shape::type_bases);
                reveal(shape::type_bases_from);
            }
            let x = &types[i];
            self.target_base(&x.target, s, false, e, scope);
            i += 1;
        }
    }

    /// Every specialization target of a feature as a base of its body: its
    /// members are inherited.
    pub fn feature_bases(
        &mut self,
        specs: &Vec<FeatureSpecialization>,
        s: usize,
        e: usize,
        scope: usize,
    )
        requires
            old(self)@.wf(),
            s < old(self)@.ns(),
            e < old(self)@.n(),
            scope < old(self)@.ns(),
        ensures
            final(self)@ == shape::feature_bases(old(self)@, *specs, s, e, scope),
            final(self)@.wf(),
            final(self)@.n() >= old(self)@.n(),
            final(self)@.ns() >= old(self)@.ns(),
        decreases specs, specs@.len() + 1,
    {
        proof {
            reveal(shape::feature_bases);
            reveal(shape::feature_bases_from);
        }
        let mut i: usize = 0;
        while i < specs.len()
            invariant
                i <= specs@.len(),
                self@.wf(),
                self@.n() >= old(self)@.n(),
                self@.ns() >= old(self)@.ns(),
                s < old(self)@.ns(),
                e < old(self)@.n(),
                scope < old(self)@.ns(),
                shape::feature_bases_from(self@, *specs, s, e, scope, i as int) == shape::feature_bases(
                    old(self)@,
                    *specs,
                    s,
                    e,
                    scope,
                ),
            decreases specs@.len() - i,
        {
            proof {
                reveal(shape::feature_bases);
                reveal(shape::feature_bases_from);
            }
            let x = &specs[i];
            match x {
                FeatureSpecialization::TypedBy(types) => {
                    self.type_bases(types, s, e, scope);
                },
                FeatureSpecialization::Subsets(targets) => {
                    self.target_bases(targets, s, true, e, scope);
                },
                FeatureSpecialization::Redefines(targets) => {
                    self.target_bases(targets, s, false, e, scope);
                },
                FeatureSpecialization::References(t) => {
                    self.target_base(t, s, false, e, scope);
                },
                FeatureSpecialization::Crosses(t) => {
                    self.target_base(t, s, false, e, scope);
                },
            }
            i += 1;
        }
    }

    /// The plain-name targets as bases.
    pub fn name_bases(&mut self, targets: &Vec<TargetRef>, s: usize)
        requires
            old(self)@.wf(),
            s < old(self)@.ns(),
        ensures
            final(self)@ == shape::name_bases(old(self)@, *targets, s),
            final(self)@.wf(),
            final(self)@.n() >= old(self)@.n(),
            final(self)@.ns() >= old(self)@.ns(),
        decreases targets, targets@.len() + 1,
    {
        proof {
            reveal(shape::name_bases);
            reveal(shape::name_bases_from);
        }
        let mut i: usize = 0;
        while i < targets.len()
            invariant
                i <= targets@.len(),
                self@.wf(),
                self@.n() >= old(self)@.n(),
                self@.ns() >= old(self)@.ns(),
                s < old(self)@.ns(),
                shape::name_bases_from(self@, *targets, s, i as int) == shape::name_bases(old(self)@, *targets, s),
            decreases targets@.len() - i,
        {
            proof {
                reveal(shape::name_bases);
                reveal(shape::name_bases_from);
            }
            let x = &targets[i];
            if let TargetRef::Name(qn) = x {
                self.push_base(s, qn.duplicate());
            }
            i += 1;
        }
    }

    /// The identification of an element that also names its scope entry: the
    /// body scope opened for it.
    pub fn open_body(&mut self, scope: usize, id: &Identification, e: usize) -> (r: usize)
        requires
            old(self)@.wf(),
            scope < old(self)@.ns(),
            e < old(self)@.n(),
        ensures
            (final(self)@, r) == shape::open_body(old(self)@, scope, *id, e),
            final(self)@.wf(),
            final(self)@.n() >= old(self)@.n(),
            final(self)@.ns() >= old(self)@.ns(),
            r < final(self)@.ns(),
    {
        proof {
            reveal(shape::open_body);
        }
        let body: usize = self.push_scope(Some(scope));
        self.register(scope, id, e, body);
        body
    }

    pub fn set_chain_prefix(
        &mut self,
        e: usize,
        key: &'static str,
        scope: usize,
        links: &Vec<QualifiedName>,
        m: usize,
    )
        requires
            old(self)@.wf(),
            e < old(self)@.n(),
            scope < old(self)@.ns(),
            m <= links@.len(),
        ensures
            final(self)@ == shape::set_chain_prefix(old(self)@, e, key@, scope, *links, m),
            final(self)@.wf(),
            final(self)@.n() >= old(self)@.n(),
            final(self)@.ns() >= old(self)@.ns(),
    {
        proof {
            reveal(shape::set_chain_prefix);
        }
        self.set_chain(e, key, scope, links, m, None);
    }

    pub fn push_link(
        &mut self,
        e: usize,
        key: &'static str,
        scope: usize,
        qn: &QualifiedName,
        chain: Option<Vec<QualifiedName>>,
    )
        requires
            old(self)@.wf(),
            e < old(self)@.n(),
            scope < old(self)@.ns(),
        ensures
            final(self)@ == old(self)@.push_pending(
                shape::link_pending(old(self)@, e, key@, scope, qn@, opt_chain(chain)),
            ),
            final(self)@.wf(),
            final(self)@.n() == old(self)@.n(),
            final(self)@.ns() == old(self)@.ns(),
    {
        proof {
            reveal(shape::link_pending);
        }
        proof {
            reveal(shape::link_pending);
        }
        let global = qn.is_global;
        let p = PendingRef {
            elem: e,
            key,
            index: None,
            scope,
            qn: qn.duplicate(),
            exclude: if global {
                None
            } else {
                self.read_pending_exclude()
            },
            declared_only: !global,
            chain: if global {
                None
            } else {
                chain
            },
            spec_idx: None,
        };
        self.push_pending(p);
    }

    pub fn record_scope_filter(&mut self, expr: &Rc<Expr>, scope: usize)
        requires
            old(self)@.wf(),
            scope < old(self)@.ns(),
        ensures
            final(self)@ == shape::record_scope_filter(old(self)@, *expr, scope),
            final(self)@.wf(),
            final(self)@.n() >= old(self)@.n(),
            final(self)@.ns() >= old(self)@.ns(),
    {
        proof {
            reveal(shape::record_scope_filter);
        }
        let f: usize = self.filter_count();
        self.push_filter_expr(scope, expr);
        self.push_scope_filter(scope, f);
    }

    /// What an import makes visible in a scope.
    pub fn open_import(&mut self, imp: &Import, scope: usize, rel: usize, is_public: bool)
        requires
            old(self)@.wf(),
            scope < old(self)@.ns(),
            rel < old(self)@.n(),
        ensures
            final(self)@ == shape::open_import(old(self)@, *imp, scope, rel, is_public),
            final(self)@.wf(),
            final(self)@.n() >= old(self)@.n(),
            final(self)@.ns() >= old(self)@.ns(),
    {
        proof {
            reveal(shape::open_import);
            reveal(shape::record_filters_from);
        }
        let first: usize = self.filter_count();
        let ghost fids = Seq::new(imp.filters@.len(), |k: int| (first + k) as usize);
        let mut ids: Vec<usize> = Vec::new();
        let mut again: Vec<usize> = Vec::new();
        let mut k: usize = 0;
        while k < imp.filters.len()
            invariant
                k <= imp.filters@.len(),
                self@.wf(),
                scope < self@.ns(),
                rel < self@.n(),
                self@.n() >= old(self)@.n(),
                self@.ns() >= old(self)@.ns(),
                self@.filter_exprs.len() == first + k,
                fids == Seq::new(imp.filters@.len(), |k: int| (first + k) as usize),
                ids@ =~= fids.subrange(0, k as int),
                again@ =~= fids.subrange(0, k as int),
                all_below(ids@, self@.filter_exprs.len()),
                shape::record_filters_from(self@, imp.filters@, scope, k as int)
                    == shape::record_filters_from(old(self)@, imp.filters@, scope, 0),
            decreases imp.filters@.len() - k,
        {
            proof {
                reveal(shape::open_import);
                reveal(shape::record_filters_from);
            }
            let id: usize = self.filter_count();
            assert(id == first + k);
            self.push_filter_expr(scope, &imp.filters[k]);
            ids.push(id);
            again.push(id);
            k += 1;
            assert(fids.subrange(0, k as int) =~= fids.subrange(0, k - 1).push(fids[k - 1]));
        }
        assert(fids.subrange(0, fids.len() as int) =~= fids);
        if imp.is_namespace {
            let x = ScopeImport {
                target: imp.target.duplicate(),
                recursive: imp.is_recursive,
                is_import_all: imp.is_import_all,
                filters: ids,
                relationship: rel,
                is_public,
            };
            self.push_import(scope, x);
        } else {
            let x = ScopeImport {
                target: imp.target.duplicate(),
                recursive: false,
                is_import_all: imp.is_import_all,
                filters: ids,
                relationship: rel,
                is_public,
            };
            self.push_member_import(scope, x);
            if imp.is_recursive {
                let y = ScopeImport {
                    target: imp.target.duplicate(),
                    recursive: true,
                    is_import_all: imp.is_import_all,
                    filters: again,
                    relationship: rel,
                    is_public,
                };
                self.push_import(scope, y);
            }
        }
    }
}

} // verus!
