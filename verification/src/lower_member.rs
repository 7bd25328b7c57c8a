//! Lowering of members.

use crate::ast::{
    Span, QualifiedName, TargetRef, Identification, Visibility, StateSubactionKind, Expr,
    Multiplicity, Usage, Definition, Package, Import, Alias, Comment, Documentation,
    TextualRepresentation, Dependency, RelationshipDecl, MultiplicityDecl, MemberKind, Member,
};
use crate::comment::process_comment_body;
use crate::lower_util::import_class;
use crate::shape;
use crate::state::{below, opt_str, Builder};
use crate::syntax::name_or;
use crate::tables::{
    requirement_kind, subaction_kind, visibility, relationship_metaclass, relationship_source_key,
    relationship_target_key,
};
use crate::text::{concat, numbered_seg};
use std::rc::Rc;
use vstd::prelude::*;

verus! {

impl Builder {
    /// The succession a bare leading `then` implies: two ends, the first with
    /// the written multiplicity.
    pub fn emit_leading_then(
        &mut self,
        mult: &Option<Multiplicity>,
        owner: usize,
        scope: usize,
        index: usize,
    )
        requires
            old(self)@.wf(),
            owner < old(self)@.n(),
            scope < old(self)@.ns(),
        ensures
            final(self)@ == shape::emit_leading_then(old(self)@, *mult, owner, scope, index),
            final(self)@.wf(),
            final(self)@.n() >= old(self)@.n(),
            final(self)@.ns() >= old(self)@.ns(),
        decreases mult, 2int,
    {
        proof {
            reveal(shape::emit_leading_then_step);
            assert(
                shape::emit_leading_then(old(self)@, *mult, owner, scope, index) == shape::emit_leading_then_step(
                    old(self)@,
                    *mult,
                    owner,
                    scope,
                    index,
                )
            );
        }
        let seg0 = numbered_seg("m", index);
        let seg = concat(seg0.as_str(), "then");
        let rel: usize = self.new_public("FeatureMembership", owner, seg.as_str());
        let succ: usize = self.new_owned_element("SuccessionAsUsage", rel, "emptySuccession");
        self.set_bool(succ, "isComposite", false);
        self.set_bool(succ, "isVariation", false);
        let source: usize = self.emit_empty_end(succ, 0);
        self.emit_opt_multiplicity(source, mult, scope);
        self.emit_empty_end(succ, 1);
    }

    /// The filter conditions of a bracket-filtered import.
    pub fn emit_filters(&mut self, filters: &Vec<Rc<Expr>>, pkg: usize, scope: usize)
        requires
            old(self)@.wf(),
            pkg < old(self)@.n(),
            scope < old(self)@.ns(),
        ensures
            final(self)@ == shape::emit_filters(old(self)@, *filters, pkg, scope),
            final(self)@.wf(),
            final(self)@.n() >= old(self)@.n(),
            final(self)@.ns() >= old(self)@.ns(),
        decreases filters, filters@.len() + 1,
    {
        let mut i: usize = 0;
        while i < filters.len()
            invariant
                i <= filters@.len(),
                self@.wf(),
                self@.n() >= old(self)@.n(),
                self@.ns() >= old(self)@.ns(),
                pkg < old(self)@.n(),
                scope < old(self)@.ns(),
                shape::emit_filters_from(self@, *filters, pkg, scope, i as int) == shape::emit_filters(
                    old(self)@,
                    *filters,
                    pkg,
                    scope,
                ),
            decreases filters@.len() - i,
        {
            let x = &filters[i];
            let seg = numbered_seg("filter", i);
            let efm: usize = self.new_relationship("ElementFilterMembership", pkg, seg.as_str());
            self.set_str(efm, "visibility", "private");
            self.set_bool(efm, "isImplied", false);
            self.build_expr(x, efm, scope, "condition");
            i += 1;
        }
    }

    /// The spelled flags of an import relationship.
    pub fn import_flags(&mut self, rel: usize, vis: &str, import_all: bool, recursive: bool)
        requires
            old(self)@.wf(),
            rel < old(self)@.n(),
        ensures
            final(self)@ == shape::import_flags(old(self)@, rel, vis@, import_all, recursive),
            final(self)@.wf(),
            final(self)@.n() >= old(self)@.n(),
            final(self)@.ns() >= old(self)@.ns(),
    {
        proof {
            reveal(shape::import_flags);
        }
        self.set_str(rel, "visibility", vis);
        self.set_bool(rel, "isImplied", false);
        self.set_bool(rel, "isImportAll", import_all);
        self.set_bool(rel, "isRecursive", recursive);
    }

    /// An import or expose relationship. A bracket-filtered one imports an
    /// anonymous owned package that holds the import and its filters.
    pub fn emit_import_rel(
        &mut self,
        imp: &Import,
        owner: usize,
        scope: usize,
        seg: &str,
        vis: &str,
        expose: bool,
    ) -> (r: usize)
        requires
            old(self)@.wf(),
            owner < old(self)@.n(),
            scope < old(self)@.ns(),
        ensures
            (final(self)@, r) == shape::emit_import_rel(old(self)@, *imp, owner, scope, seg@, vis@, expose),
            final(self)@.wf(),
            final(self)@.n() >= old(self)@.n(),
            final(self)@.ns() >= old(self)@.ns(),
            r < final(self)@.n(),
        decreases imp, 1int,
    {
        proof {
            reveal(shape::emit_import_rel_step);
            assert(
                shape::emit_import_rel(old(self)@, *imp, owner, scope, seg@, vis@, expose) == shape::emit_import_rel_step(
                    old(self)@,
                    *imp,
                    owner,
                    scope,
                    seg@,
                    vis@,
                    expose,
                )
            );
        }
        let key = if imp.is_namespace { "importedNamespace" } else { "importedMembership" };
        if imp.filters.len() == 0 {
            let rel: usize = self.new_relationship(import_class(expose, imp.is_namespace), owner, seg);
            self.import_flags(rel, vis, imp.is_import_all || expose, imp.is_recursive);
            self.ref_name(rel, key, None, scope, &imp.target, None);
            rel
        } else {
            let rel: usize = self.new_relationship(import_class(expose, true), owner, seg);
            self.import_flags(rel, vis, imp.is_import_all || expose, false);
            let pkg: usize = self.new_owned_element("Package", rel, "filter");
            self.set_null(pkg, "declaredName");
            self.set_null(pkg, "declaredShortName");
            self.set_link(rel, "importedNamespace", pkg);
            let inner: usize = self.new_relationship(import_class(false, imp.is_namespace), pkg, "import0");
            self.import_flags(inner, "public", false, imp.is_recursive);
            self.ref_name(inner, key, None, scope, &imp.target, None);
            self.emit_filters(&imp.filters, pkg, scope);
            rel
        }
    }

    /// A textual import.
    pub fn build_import(
        &mut self,
        imp: &Import,
        vis: Option<Visibility>,
        span: Span,
        owner: usize,
        scope: usize,
        index: usize,
    )
        requires
            old(self)@.wf(),
            owner < old(self)@.n(),
            scope < old(self)@.ns(),
        ensures
            final(self)@ == shape::build_import(old(self)@, *imp, vis, span, owner, scope, index),
            final(self)@.wf(),
            final(self)@.n() >= old(self)@.n(),
            final(self)@.ns() >= old(self)@.ns(),
        decreases imp, 2int,
    {
        proof {
            reveal(shape::build_import_step);
            assert(
                shape::build_import(old(self)@, *imp, vis, span, owner, scope, index) == shape::build_import_step(
                    old(self)@,
                    *imp,
                    vis,
                    span,
                    owner,
                    scope,
                    index,
                )
            );
        }
        let seg = numbered_seg("import", index);
        let rel: usize = self.emit_import_rel(imp, owner, scope, seg.as_str(), visibility(vis), false);
        self.push_user_import(rel, span, vis == Some(Visibility::Private));
        let is_public = vis.is_none() || vis == Some(Visibility::Public);
        self.open_import(imp, scope, rel, is_public);
    }

    /// An expose of a view: an import for name resolution, protected.
    pub fn build_expose(&mut self, imp: &Import, owner: usize, scope: usize, index: usize)
        requires
            old(self)@.wf(),
            owner < old(self)@.n(),
            scope < old(self)@.ns(),
        ensures
            final(self)@ == shape::build_expose(old(self)@, *imp, owner, scope, index),
            final(self)@.wf(),
            final(self)@.n() >= old(self)@.n(),
            final(self)@.ns() >= old(self)@.ns(),
        decreases imp, 2int,
    {
        proof {
            reveal(shape::build_expose_step);
            assert(
                shape::build_expose(old(self)@, *imp, owner, scope, index) == shape::build_expose_step(
                    old(self)@,
                    *imp,
                    owner,
                    scope,
                    index,
                )
            );
        }
        let seg = numbered_seg("expose", index);
        let rel: usize = self.emit_import_rel(imp, owner, scope, seg.as_str(), "protected", true);
        self.open_import(imp, scope, rel, false);
    }

    /// An alias member.
    pub fn build_alias(
        &mut self,
        a: &Alias,
        vis: Option<Visibility>,
        owner: usize,
        scope: usize,
        index: usize,
    )
        requires
            old(self)@.wf(),
            owner < old(self)@.n(),
            scope < old(self)@.ns(),
        ensures
            final(self)@ == shape::build_alias(old(self)@, *a, vis, owner, scope, index),
            final(self)@.wf(),
            final(self)@.n() >= old(self)@.n(),
            final(self)@.ns() >= old(self)@.ns(),
    {
        proof {
            reveal(shape::build_alias);
        }
        let seg = numbered_seg("alias", index);
        let rel: usize = self.new_membership("Membership", owner, seg.as_str(), vis);
        self.set_name(rel, "memberName", &a.id.name);
        self.set_name(rel, "memberShortName", &a.id.short_name);
        self.ref_name(rel, "memberElement", None, scope, &a.target, None);
        if let Some(name) = &a.id.name {
            self.push_alias(
                scope,
                name.value.as_str(),
                a.target.duplicate(),
                vis.is_none() || vis == Some(Visibility::Public),
            );
        }
    }

    /// The element of an annotating member, under its owning membership.
    pub fn new_annotating(
        &mut self,
        ty: &'static str,
        word: &str,
        id: &Identification,
        vis: Option<Visibility>,
        owner: usize,
        index: usize,
    ) -> (r: usize)
        requires
            old(self)@.wf(),
            owner < old(self)@.n(),
        ensures
            (final(self)@, r) == shape::new_annotating(old(self)@, ty@, word@, *id, vis, owner, index),
            final(self)@.wf(),
            final(self)@.n() >= old(self)@.n(),
            final(self)@.ns() >= old(self)@.ns(),
            r < final(self)@.n(),
    {
        proof {
            reveal(shape::new_annotating);
        }
        let seg0 = numbered_seg("m", index);
        let rel: usize = self.new_membership("OwningMembership", owner, seg0.as_str(), vis);
        let seg = numbered_seg(word, index);
        let e: usize = self.new_owned_element(ty, rel, seg.as_str());
        self.set_identification(e, id);
        e
    }

    /// A comment with the elements it is about.
    pub fn build_comment(
        &mut self,
        c: &Comment,
        vis: Option<Visibility>,
        owner: usize,
        scope: usize,
        index: usize,
    )
        requires
            old(self)@.wf(),
            owner < old(self)@.n(),
            scope < old(self)@.ns(),
        ensures
            final(self)@ == shape::build_comment(old(self)@, *c, vis, owner, scope, index),
            final(self)@.wf(),
            final(self)@.n() >= old(self)@.n(),
            final(self)@.ns() >= old(self)@.ns(),
    {
        proof {
            reveal(shape::build_comment);
        }
        let e: usize = self.new_annotating("Comment", "comment", &c.id, vis, owner, index);
        let body = process_comment_body(c.body.as_str());
        self.set_str(e, "body", body.as_str());
        self.set_opt_str(e, "locale", &c.locale);
        self.emit_about(&c.about, e, scope);
    }

    /// A documentation member.
    pub fn build_doc(
        &mut self,
        d: &Documentation,
        vis: Option<Visibility>,
        owner: usize,
        index: usize,
    )
        requires
            old(self)@.wf(),
            owner < old(self)@.n(),
        ensures
            final(self)@ == shape::build_doc(old(self)@, *d, vis, owner, index),
            final(self)@.wf(),
            final(self)@.n() >= old(self)@.n(),
            final(self)@.ns() >= old(self)@.ns(),
    {
        proof {
            reveal(shape::build_doc);
        }
        let e: usize = self.new_annotating("Documentation", "doc", &d.id, vis, owner, index);
        let body = process_comment_body(d.body.as_str());
        self.set_str(e, "body", body.as_str());
        self.set_opt_str(e, "locale", &d.locale);
    }

    /// A textual representation.
    pub fn build_textual_rep(
        &mut self,
        t: &TextualRepresentation,
        vis: Option<Visibility>,
        owner: usize,
        index: usize,
    )
        requires
            old(self)@.wf(),
            owner < old(self)@.n(),
        ensures
            final(self)@ == shape::build_textual_rep(old(self)@, *t, vis, owner, index),
            final(self)@.wf(),
            final(self)@.n() >= old(self)@.n(),
            final(self)@.ns() >= old(self)@.ns(),
    {
        proof {
            reveal(shape::build_textual_rep);
        }
        let e: usize = self.new_annotating("TextualRepresentation", "rep", &t.id, vis, owner, index);
        self.set_str(e, "language", t.language.as_str());
        self.set_str(e, "body", t.body.as_str());
    }

    /// A filter member: its condition holds for everything the namespace
    /// imports.
    pub fn build_filter(
        &mut self,
        expr: &Rc<Expr>,
        vis: Option<Visibility>,
        owner: usize,
        scope: usize,
        index: usize,
    )
        requires
            old(self)@.wf(),
            owner < old(self)@.n(),
            scope < old(self)@.ns(),
        ensures
            final(self)@ == shape::build_filter(old(self)@, *expr, vis, owner, scope, index),
            final(self)@.wf(),
            final(self)@.n() >= old(self)@.n(),
            final(self)@.ns() >= old(self)@.ns(),
        decreases expr, 10int,
    {
        proof {
            reveal(shape::build_filter_step);
            assert(
                shape::build_filter(old(self)@, *expr, vis, owner, scope, index) == shape::build_filter_step(
                    old(self)@,
                    *expr,
                    vis,
                    owner,
                    scope,
                    index,
                )
            );
        }
        let seg = numbered_seg("filter", index);
        let rel: usize = self.new_membership("ElementFilterMembership", owner, seg.as_str(), vis);
        self.build_expr(expr, rel, scope, "condition");
        self.record_scope_filter(expr, scope);
    }

    /// A dependency between clients and suppliers.
    pub fn build_dependency(
        &mut self,
        d: &Dependency,
        vis: Option<Visibility>,
        owner: usize,
        scope: usize,
        index: usize,
    )
        requires
            old(self)@.wf(),
            owner < old(self)@.n(),
            scope < old(self)@.ns(),
        ensures
            final(self)@ == shape::build_dependency(old(self)@, *d, vis, owner, scope, index),
            final(self)@.wf(),
            final(self)@.n() >= old(self)@.n(),
            final(self)@.ns() >= old(self)@.ns(),
    {
        proof {
            reveal(shape::build_dependency);
        }
        let e: usize = self.new_annotating("Dependency", "dependency", &d.id, vis, owner, index);
        self.set_bool(e, "isImplied", false);
        self.emit_prefix_metadata(&d.metadata, e, scope);
        self.set_ref_list(&d.clients, e, "client", scope);
        self.set_ref_list(&d.suppliers, e, "supplier", scope);
    }

    /// An initial-node marker.
    pub fn build_initial_node(
        &mut self,
        qn: &QualifiedName,
        vis: Option<Visibility>,
        owner: usize,
        scope: usize,
        index: usize,
    )
        requires
            old(self)@.wf(),
            owner < old(self)@.n(),
            scope < old(self)@.ns(),
        ensures
            final(self)@ == shape::build_initial_node(old(self)@, *qn, vis, owner, scope, index),
            final(self)@.wf(),
            final(self)@.n() >= old(self)@.n(),
            final(self)@.ns() >= old(self)@.ns(),
    {
        proof {
            reveal(shape::build_initial_node);
        }
        let seg0 = numbered_seg("m", index);
        let seg = concat(seg0.as_str(), "first");
        let rel: usize = self.new_membership("Membership", owner, seg.as_str(), vis);
        self.ref_name(rel, "memberElement", None, scope, qn, None);
    }

    /// A member whose membership carries a kind.
    pub fn build_kind_member(
        &mut self,
        u: &Usage,
        vis: Option<Visibility>,
        owner: usize,
        scope: usize,
        index: usize,
        rel_ty: &'static str,
        class_override: Option<&'static str>,
        kind: &str,
    )
        requires
            old(self)@.wf(),
            owner < old(self)@.n(),
            scope < old(self)@.ns(),
        ensures
            final(self)@ == shape::build_kind_member(
                old(self)@,
                *u,
                vis,
                owner,
                scope,
                index,
                rel_ty@,
                opt_str(class_override),
                kind@,
            ),
            final(self)@.wf(),
            final(self)@.n() >= old(self)@.n(),
            final(self)@.ns() >= old(self)@.ns(),
        decreases u, 6int,
    {
        proof {
            reveal(shape::build_kind_member_step);
            assert(
                shape::build_kind_member(old(self)@, *u, vis, owner, scope, index, rel_ty@, opt_str(class_override), kind@) == shape::build_kind_member_step(
                    old(self)@,
                    *u,
                    vis,
                    owner,
                    scope,
                    index,
                    rel_ty@,
                    opt_str(class_override),
                    kind@,
                )
            );
        }
        let (rel, e) = self.build_usage_with(u, vis, owner, scope, index, rel_ty, class_override);
        self.set_str(rel, "kind", kind);
    }

    /// An entry, do or exit action; an unwritten one is an empty action.
    pub fn build_subaction(
        &mut self,
        kind: StateSubactionKind,
        action: &Option<Usage>,
        vis: Option<Visibility>,
        owner: usize,
        scope: usize,
        index: usize,
    )
        requires
            old(self)@.wf(),
            owner < old(self)@.n(),
            scope < old(self)@.ns(),
        ensures
            final(self)@ == shape::build_subaction(old(self)@, kind, *action, vis, owner, scope, index),
            final(self)@.wf(),
            final(self)@.n() >= old(self)@.n(),
            final(self)@.ns() >= old(self)@.ns(),
        decreases action, 1int,
    {
        proof {
            reveal(shape::build_subaction_step);
            assert(
                shape::build_subaction(old(self)@, kind, *action, vis, owner, scope, index) == shape::build_subaction_step(
                    old(self)@,
                    kind,
                    *action,
                    vis,
                    owner,
                    scope,
                    index,
                )
            );
        }
        if let Some(u) = action {
            self.build_kind_member(
                u,
                vis,
                owner,
                scope,
                index,
                "StateSubactionMembership",
                None,
                subaction_kind(kind),
            );
        } else {
            let seg = numbered_seg("m", index);
            let rel: usize = self.new_membership("StateSubactionMembership", owner, seg.as_str(), vis);
            self.set_str(rel, "kind", subaction_kind(kind));
            let a: usize = self.new_owned_element("ActionUsage", rel, subaction_kind(kind));
            self.set_bool(a, "isVariation", false);
        }
    }

    /// A return parameter.
    pub fn build_return(
        &mut self,
        u: &Usage,
        vis: Option<Visibility>,
        owner: usize,
        scope: usize,
        index: usize,
    )
        requires
            old(self)@.wf(),
            owner < old(self)@.n(),
            scope < old(self)@.ns(),
        ensures
            final(self)@ == shape::build_return(old(self)@, *u, vis, owner, scope, index),
            final(self)@.wf(),
            final(self)@.n() >= old(self)@.n(),
            final(self)@.ns() >= old(self)@.ns(),
        decreases u, 6int,
    {
        proof {
            reveal(shape::build_return_step);
            assert(
                shape::build_return(old(self)@, *u, vis, owner, scope, index) == shape::build_return_step(
                    old(self)@,
                    *u,
                    vis,
                    owner,
                    scope,
                    index,
                )
            );
        }
        let (rel, e) = self.build_usage_with(u, vis, owner, scope, index, "ReturnParameterMembership", None);
        self.set_return_param(owner, e);
    }

    /// A trailing result expression.
    pub fn build_result(
        &mut self,
        expr: &Rc<Expr>,
        vis: Option<Visibility>,
        owner: usize,
        scope: usize,
        index: usize,
    )
        requires
            old(self)@.wf(),
            owner < old(self)@.n(),
            scope < old(self)@.ns(),
        ensures
            final(self)@ == shape::build_result(old(self)@, *expr, vis, owner, scope, index),
            final(self)@.wf(),
            final(self)@.n() >= old(self)@.n(),
            final(self)@.ns() >= old(self)@.ns(),
        decreases expr, 10int,
    {
        proof {
            reveal(shape::build_result_step);
            assert(
                shape::build_result(old(self)@, *expr, vis, owner, scope, index) == shape::build_result_step(
                    old(self)@,
                    *expr,
                    vis,
                    owner,
                    scope,
                    index,
                )
            );
        }
        self.push_result_expr(owner, scope, expr);
        let seg0 = numbered_seg("m", index);
        let seg = concat(seg0.as_str(), "result");
        let rel: usize = self.new_membership("ResultExpressionMembership", owner, seg.as_str(), vis);
        self.build_expr(expr, rel, scope, "expr");
    }

    /// A standalone relationship declaration.
    pub fn build_relationship(
        &mut self,
        d: &RelationshipDecl,
        vis: Option<Visibility>,
        owner: usize,
        scope: usize,
        index: usize,
    )
        requires
            old(self)@.wf(),
            owner < old(self)@.n(),
            scope < old(self)@.ns(),
        ensures
            final(self)@ == shape::build_relationship(old(self)@, *d, vis, owner, scope, index),
            final(self)@.wf(),
            final(self)@.n() >= old(self)@.n(),
            final(self)@.ns() >= old(self)@.ns(),
    {
        proof {
            reveal(shape::build_relationship);
        }
        let e: usize = self.new_annotating(relationship_metaclass(d.kind), "rel", &d.id, vis, owner, index);
        self.set_bool(e, "isImplied", false);
        self.set_ref(e, relationship_source_key(d.kind), scope, &d.source);
        self.set_ref(e, relationship_target_key(d.kind), scope, &d.target);
    }

    /// The subsetting of a multiplicity declaration.
    pub fn emit_opt_subset(&mut self, subsets: &Option<TargetRef>, e: usize, scope: usize)
        requires
            old(self)@.wf(),
            e < old(self)@.n(),
            scope < old(self)@.ns(),
        ensures
            final(self)@ == shape::emit_opt_subset(old(self)@, *subsets, e, scope),
            final(self)@.wf(),
            final(self)@.n() >= old(self)@.n(),
            final(self)@.ns() >= old(self)@.ns(),
    {
        proof {
            reveal(shape::emit_opt_subset);
        }
        if let Some(t) = subsets {
            let s: usize = self.new_explicit("Subsetting", e, "subset");
            self.set_ref(s, "subsettedFeature", scope, t);
        }
    }

    /// The bounds of a multiplicity declaration.
    pub fn emit_opt_bounds(&mut self, e: usize, range: &Option<Multiplicity>, scope: usize)
        requires
            old(self)@.wf(),
            e < old(self)@.n(),
            scope < old(self)@.ns(),
        ensures
            final(self)@ == shape::emit_opt_bounds(old(self)@, e, *range, scope),
            final(self)@.wf(),
            final(self)@.n() >= old(self)@.n(),
            final(self)@.ns() >= old(self)@.ns(),
        decreases range, 1int,
    {
        proof {
            reveal(shape::emit_opt_bounds_step);
            assert(
                shape::emit_opt_bounds(old(self)@, e, *range, scope) == shape::emit_opt_bounds_step(old(self)@, e, *range, scope)
            );
        }
        if let Some(m) = range {
            self.emit_bounds(e, m, scope);
        }
    }

    /// A multiplicity declaration: it owns its bounds directly.
    pub fn build_multiplicity_decl(
        &mut self,
        m: &MultiplicityDecl,
        vis: Option<Visibility>,
        owner: usize,
        scope: usize,
        index: usize,
    )
        requires
            old(self)@.wf(),
            owner < old(self)@.n(),
            scope < old(self)@.ns(),
        ensures
            final(self)@ == shape::build_multiplicity_decl(old(self)@, *m, vis, owner, scope, index),
            final(self)@.wf(),
            final(self)@.n() >= old(self)@.n(),
            final(self)@.ns() >= old(self)@.ns(),
        decreases m, 2int,
    {
        proof {
            reveal(shape::build_multiplicity_decl_step);
            assert(
                shape::build_multiplicity_decl(old(self)@, *m, vis, owner, scope, index) == shape::build_multiplicity_decl_step(
                    old(self)@,
                    *m,
                    vis,
                    owner,
                    scope,
                    index,
                )
            );
        }
        let seg0 = numbered_seg("m", index);
        let rel: usize = self.new_membership("OwningMembership", owner, seg0.as_str(), vis);
        let ty = if m.range.is_some() { "MultiplicityRange" } else { "Multiplicity" };
        let seg1 = numbered_seg("mult", index);
        let seg = name_or(&m.id.name, seg1.as_str());
        let e: usize = self.new_owned_element(ty, rel, seg.as_str());
        self.set_identification(e, &m.id);
        self.emit_opt_subset(&m.subsets, e, scope);
        self.emit_opt_bounds(e, &m.range, scope);
        let body: usize = self.open_body(scope, &m.id, e);
        self.build_body(&m.body, e, body);
    }

    /// One member of a body, by its kind.
    pub fn build_member_inner(&mut self, member: &Member, owner: usize, scope: usize, index: usize)
        requires
            old(self)@.wf(),
            owner < old(self)@.n(),
            scope < old(self)@.ns(),
        ensures
            final(self)@ == shape::build_member_inner(old(self)@, *member, owner, scope, index),
            final(self)@.wf(),
            final(self)@.n() >= old(self)@.n(),
            final(self)@.ns() >= old(self)@.ns(),
        decreases member, 1int,
    {
        proof {
            reveal(shape::build_member_inner_step);
            assert(
                shape::build_member_inner(old(self)@, *member, owner, scope, index) == shape::build_member_inner_step(
                    old(self)@,
                    *member,
                    owner,
                    scope,
                    index,
                )
            );
        }
        if member.leading_then {
            self.emit_leading_then(&member.leading_then_multiplicity, owner, scope, index);
        }
        let vis = member.visibility;
        match &member.kind {
            MemberKind::Package(p) => {
                self.build_package(p, vis, owner, scope, index);
            },
            MemberKind::Import(imp) => {
                self.build_import(imp, vis, member.span, owner, scope, index);
            },
            MemberKind::Alias(a) => {
                self.build_alias(a, vis, owner, scope, index);
            },
            MemberKind::Comment(c) => {
                self.build_comment(c, vis, owner, scope, index);
            },
            MemberKind::Doc(d) => {
                self.build_doc(d, vis, owner, index);
            },
            MemberKind::TextualRep(t) => {
                self.build_textual_rep(t, vis, owner, index);
            },
            MemberKind::Filter(expr) => {
                self.build_filter(expr, vis, owner, scope, index);
            },
            MemberKind::Definition(d) => {
                self.build_definition(d, vis, owner, scope, index);
            },
            MemberKind::Usage(u) => {
                self.build_usage(u, vis, owner, scope, index);
            },
            MemberKind::Dependency(d) => {
                self.build_dependency(d, vis, owner, scope, index);
            },
            MemberKind::InitialNode(qn) => {
                self.build_initial_node(qn, vis, owner, scope, index);
            },
            MemberKind::Subject(u) => {
                self.build_usage_with(
                    u,
                    vis,
                    owner,
                    scope,
                    index,
                    "SubjectMembership",
                    Some("ReferenceUsage"),
                );
            },
            MemberKind::Actor(u) => {
                self.build_usage_with(u, vis, owner, scope, index, "ActorMembership", Some("PartUsage"));
            },
            MemberKind::Stakeholder(u) => {
                self.build_usage_with(
                    u,
                    vis,
                    owner,
                    scope,
                    index,
                    "StakeholderMembership",
                    Some("PartUsage"),
                );
            },
            MemberKind::Objective(u) => {
                self.build_usage_with(
                    u,
                    vis,
                    owner,
                    scope,
                    index,
                    "ObjectiveMembership",
                    Some("RequirementUsage"),
                );
            },
            MemberKind::RequirementConstraint { kind, usage } => {
                self.build_kind_member(
                    usage,
                    vis,
                    owner,
                    scope,
                    index,
                    "RequirementConstraintMembership",
                    Some("ConstraintUsage"),
                    requirement_kind(*kind),
                );
            },
            MemberKind::FramedConcern(u) => {
                self.build_kind_member(
                    u,
                    vis,
                    owner,
                    scope,
                    index,
                    "FramedConcernMembership",
                    Some("ConcernUsage"),
                    "requirement",
                );
            },
            MemberKind::RequirementVerification(u) => {
                self.build_kind_member(
                    u,
                    vis,
                    owner,
                    scope,
                    index,
                    "RequirementVerificationMembership",
                    Some("RequirementUsage"),
                    "requirement",
                );
            },
            MemberKind::StateSubaction { kind, action } => {
                self.build_subaction(*kind, action, vis, owner, scope, index);
            },
            MemberKind::Expose(imp) => {
                self.build_expose(imp, owner, scope, index);
            },
            MemberKind::Render(u) => {
                self.build_usage_with(
                    u,
                    vis,
                    owner,
                    scope,
                    index,
                    "ViewRenderingMembership",
                    Some("RenderingUsage"),
                );
            },
            MemberKind::Return(u) => {
                self.build_return(u, vis, owner, scope, index);
            },
            MemberKind::Result(expr) => {
                self.build_result(expr, vis, owner, scope, index);
            },
            MemberKind::Relationship(d) => {
                self.build_relationship(d, vis, owner, scope, index);
            },
            MemberKind::MultiplicityDecl(m) => {
                self.build_multiplicity_decl(m, vis, owner, scope, index);
            },
        }
    }

    pub fn first_owned(&self, mark: usize) -> (r: Option<usize>)
        ensures
            r == shape::first_owned_from(self@, mark as int, mark as int),
            below(r, self@.n()),
    {
        proof {
            reveal(shape::first_owned_from);
        }
        let mut k: usize = mark;
        while k < self.count()
            invariant
                shape::first_owned_from(self@, k as int, mark as int) == shape::first_owned_from(
                    self@,
                    mark as int,
                    mark as int,
                ),
            decreases self@.n() - k,
        {
            proof {
                reveal(shape::first_owned_from);
            }
            if let Some(r) = self.owning(k) {
                if r >= mark {
                    return Some(k);
                }
            }
            k += 1;
        }
        None
    }

    pub fn first_declared(&self, mark: usize, span: Span) -> (r: Option<usize>)
        ensures
            r == shape::first_declared_from(self@, mark as int, span, None),
            below(r, self@.n()),
    {
        proof {
            reveal(shape::first_declared_from);
        }
        let mut best: Option<usize> = None;
        let mut k: usize = mark;
        while k < self.count()
            invariant
                below(best, self@.n()),
                shape::first_declared_from(self@, k as int, span, best)
                    == shape::first_declared_from(self@, mark as int, span, None),
            decreases self@.n() - k,
        {
            proof {
                reveal(shape::first_declared_from);
            }
            if let Some(s) = self.decl_span(k) {
                if s.start >= span.start && s.end <= span.end {
                    let better = match best {
                        Some(i) => match self.decl_span(i) {
                            Some(t) => s.start < t.start,
                            None => true,
                        },
                        None => true,
                    };
                    if better {
                        best = Some(k);
                    }
                }
            }
            k += 1;
        }
        best
    }

    /// One member of a body, its source extent recorded on the element it
    /// declares.
    pub fn build_member(&mut self, member: &Member, owner: usize, scope: usize, index: usize)
        requires
            old(self)@.wf(),
            owner < old(self)@.n(),
            scope < old(self)@.ns(),
        ensures
            final(self)@ == shape::build_member(old(self)@, *member, owner, scope, index),
            final(self)@.wf(),
            final(self)@.n() >= old(self)@.n(),
            final(self)@.ns() >= old(self)@.ns(),
        decreases member, 2int,
    {
        proof {
            reveal(shape::build_member_step);
            assert(
                shape::build_member(old(self)@, *member, owner, scope, index) == shape::build_member_step(
                    old(self)@,
                    *member,
                    owner,
                    scope,
                    index,
                )
            );
        }
        let mark: usize = self.count();
        self.build_member_inner(member, owner, scope, index);
        let owned = self.first_owned(mark);
        if let Some(i) = owned {
            self.set_member_span(i, member.span);
        }
        if member.leading_then {
            let declared = self.first_declared(mark, member.span);
            if let Some(i) = declared {
                self.set_member_span(i, member.span);
            }
        }
    }
}

} // verus!
