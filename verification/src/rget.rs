//! What resolution reads of a graph: the names, imports, bases and
//! specializations of its scopes and elements.

use crate::ast::{Expr, QnV, QualifiedName};
use crate::names::{Binding, LookupAccess};
use crate::rstate::{opt_seq, LookupResult, OpenImport, RV, Resolver, Visit};
use crate::state::{all_below, below, implied_ends_view, lemma_elem_ok, lemma_scope_ok, BV, Builder};
use crate::tables::{metaclasses_overlap, overlap};
use crate::text::str_eq;
use std::rc::Rc;
use vstd::prelude::*;

verus! {

impl BV {
    /// Two hits of one name: the same element is one hit, distinguishable
    /// metaclasses leave the first one, anything else is ambiguous.
    pub open spec fn merge(self, l: LookupResult, r: LookupResult) -> LookupResult {
        if l is Ambiguous || r is Ambiguous {
            LookupResult::Ambiguous
        } else {
            match l {
                LookupResult::Found(a, sa) => match r {
                    LookupResult::Found(c, sc) => if a == c {
                        LookupResult::Found(a, if sa is Some { sa } else { sc })
                    } else if !overlap(self.ty(a), self.ty(c)) {
                        LookupResult::Found(a, sa)
                    } else {
                        LookupResult::Ambiguous
                    },
                    _ => l,
                },
                _ => r,
            }
        }
    }

    /// The bindings from `k` on that the access admits, merged after `acc`.
    pub open spec fn binding_result(
        self,
        bs: Seq<Binding>,
        access: LookupAccess,
        exclude: Option<usize>,
        k: int,
        acc: LookupResult,
    ) -> LookupResult
        decreases bs.len() - k,
    {
        if 0 <= k < bs.len() {
            self.binding_result(
                bs,
                access,
                exclude,
                k + 1,
                if exclude == Some(bs[k].elem) || !access.admits(bs[k].visibility) {
                    acc
                } else {
                    self.merge(acc, LookupResult::Found(bs[k].elem, bs[k].sub_scope))
                },
            )
        } else {
            acc
        }
    }

    /// The owned members of a scope under a name.
    pub open spec fn direct_hit(
        self,
        exclude: Option<usize>,
        s: usize,
        name: Seq<char>,
        access: LookupAccess,
    ) -> LookupResult {
        let m = self.scopes[s as int].names;
        if m.contains_key(name) {
            self.binding_result(m[name], access, exclude, 0, LookupResult::Missing)
        } else {
            LookupResult::Missing
        }
    }

    /// The unnamed members of a scope under their effective name.
    pub open spec fn effective_hit(
        self,
        exclude: Option<usize>,
        s: usize,
        name: Seq<char>,
        access: LookupAccess,
    ) -> LookupResult {
        let m = self.scopes[s as int].effective_names;
        if m.contains_key(name) {
            self.binding_result(m[name], access, exclude, 0, LookupResult::Missing)
        } else {
            LookupResult::Missing
        }
    }

    /// The implied ends of a scope from `k` on under a name.
    pub open spec fn implied_from(
        self,
        exclude: Option<usize>,
        s: usize,
        name: Seq<char>,
        k: int,
        acc: LookupResult,
    ) -> LookupResult
        decreases self.scopes[s as int].implied_ends.len() - k,
    {
        let ends = self.scopes[s as int].implied_ends;
        if 0 <= k < ends.len() {
            self.implied_from(
                exclude,
                s,
                name,
                k + 1,
                if ends[k].name == name && exclude != Some(ends[k].elem) {
                    self.merge(acc, LookupResult::Found(ends[k].elem, Some(ends[k].scope)))
                } else {
                    acc
                },
            )
        } else {
            acc
        }
    }

    pub open spec fn implied_hit(
        self,
        exclude: Option<usize>,
        s: usize,
        name: Seq<char>,
    ) -> LookupResult {
        self.implied_from(exclude, s, name, 0, LookupResult::Missing)
    }

    /// A hit of an alias or member import, its body scope looked up.
    pub open spec fn merge_elem(self, acc: LookupResult, hit: LookupResult) -> LookupResult {
        match hit {
            LookupResult::Found(e, _) => self.merge(acc, LookupResult::Found(e, self.elem_scope(e))),
            LookupResult::Ambiguous => LookupResult::Ambiguous,
            LookupResult::Missing => acc,
        }
    }

    pub open spec fn scope_parent(self, s: usize) -> Option<usize> {
        self.scopes[s as int].parent
    }

    pub open spec fn scope_owner(self, s: usize) -> Option<usize> {
        self.scopes[s as int].owner
    }

    pub open spec fn body_scope(self, e: usize) -> Option<usize> {
        self.elem_scope(e)
    }

    pub open spec fn alias_count(self, s: usize) -> nat {
        self.scopes[s as int].aliases.len()
    }

    /// Whether an alias answers to a name under an access.
    pub open spec fn alias_matches(
        self,
        s: usize,
        i: int,
        name: Seq<char>,
        access: LookupAccess,
    ) -> bool {
        self.scopes[s as int].aliases[i as int].name == name && !(
            access is Public && !self.scopes[s as int].aliases[i as int].is_public
        )
    }

    pub open spec fn alias_target(self, s: usize, i: int) -> QnV {
        self.scopes[s as int].aliases[i as int].target
    }

    pub open spec fn member_count(self, s: usize) -> nat {
        self.scopes[s as int].member_imports.len()
    }

    pub open spec fn member_target(self, s: usize, i: int) -> QnV {
        self.scopes[s as int].member_imports[i as int].target
    }

    pub open spec fn member_all(self, s: usize, i: int) -> bool {
        self.scopes[s as int].member_imports[i as int].is_import_all
    }

    pub open spec fn member_public(self, s: usize, i: int) -> bool {
        self.scopes[s as int].member_imports[i as int].is_public
    }

    pub open spec fn member_rel(self, s: usize, i: int) -> usize {
        self.scopes[s as int].member_imports[i as int].relationship
    }

    pub open spec fn member_filter_count(self, s: usize, i: int) -> nat {
        self.scopes[s as int].member_imports[i as int].filters.len()
    }

    pub open spec fn member_filter(self, s: usize, i: int, k: int) -> usize {
        self.scopes[s as int].member_imports[i as int].filters[k as int]
    }

    pub open spec fn import_count(self, s: usize) -> nat {
        self.scopes[s as int].imports.len()
    }

    pub open spec fn import_target(self, s: usize, i: int) -> QnV {
        self.scopes[s as int].imports[i as int].target
    }

    pub open spec fn import_all(self, s: usize, i: int) -> bool {
        self.scopes[s as int].imports[i as int].is_import_all
    }

    pub open spec fn import_public(self, s: usize, i: int) -> bool {
        self.scopes[s as int].imports[i as int].is_public
    }

    pub open spec fn import_rel(self, s: usize, i: int) -> usize {
        self.scopes[s as int].imports[i as int].relationship
    }

    pub open spec fn import_filter_count(self, s: usize, i: int) -> nat {
        self.scopes[s as int].imports[i as int].filters.len()
    }

    pub open spec fn import_filter(self, s: usize, i: int, k: int) -> usize {
        self.scopes[s as int].imports[i as int].filters[k as int]
    }

    pub open spec fn import_recursive(self, s: usize, i: int) -> bool {
        self.scopes[s as int].imports[i as int].recursive
    }

    /// Whether a member import answers to a name under an access.
    pub open spec fn member_matches(
        self,
        s: usize,
        i: int,
        name: Seq<char>,
        access: LookupAccess,
    ) -> bool {
        {
            let x = self.scopes[s as int].member_imports[i as int];
            &&& x.target.segments.len() > 0
            &&& x.target.segments.last().value == name
            &&& !(access is Public && !x.is_public)
        }
    }

    pub open spec fn scope_filter_count(self, s: usize) -> nat {
        self.scopes[s as int].filters.len()
    }

    pub open spec fn scope_filter(self, s: usize, k: int) -> usize {
        self.scopes[s as int].filters[k as int]
    }

    pub open spec fn base_count(self, s: usize) -> nat {
        self.scopes[s as int].bases.len()
    }

    pub open spec fn base_at(self, s: usize, i: int) -> QnV {
        self.scopes[s as int].bases[i as int]
    }

    pub open spec fn chain_base_count(self, s: usize) -> nat {
        self.scopes[s as int].chain_bases.len()
    }

    pub open spec fn chain_base(self, s: usize, i: int) -> Seq<QnV> {
        self.scopes[s as int].chain_bases[i as int]
    }

    pub open spec fn metadata_count(self, e: usize) -> nat {
        self.elements[e as int].notes.metadata.len()
    }

    pub open spec fn metadata_at(self, e: usize, k: int) -> usize {
        self.elements[e as int].notes.metadata[k as int]
    }

    pub open spec fn spec_count(self) -> nat {
        self.spec_targets.len()
    }

    pub open spec fn spec_elem(self, i: int) -> usize {
        self.spec_targets[i as int].elem
    }

    pub open spec fn spec_scope(self, i: int) -> usize {
        self.spec_targets[i as int].scope
    }

    pub open spec fn spec_qn(self, i: int) -> QnV {
        self.spec_targets[i as int].qn
    }

    pub open spec fn spec_is(self, i: int, kind: Seq<char>) -> bool {
        self.spec_targets[i as int].kind == kind
    }

    /// Whether a specialization record is a typing, subclassification,
    /// subsetting or redefinition.
    pub open spec fn spec_is_upward(self, i: int) -> bool {
        self.spec_is(i, "FeatureTyping"@) || self.spec_is(i, "Subclassification"@) || self.spec_is(i, "Subsetting"@)
            || self.spec_is(i, "Redefinition"@)
    }

    pub open spec fn filter_scope(self, f: usize) -> usize {
        {
            let (s, _) = self.filter_exprs[f as int];
            s
        }
    }

    pub open spec fn filter_expr(self, f: usize) -> Rc<Expr> {
        {
            let (_, x) = self.filter_exprs[f as int];
            x
        }
    }

    pub open spec fn value_scope(self, e: usize) -> Option<usize> {
        match self.elements[e as int].notes.value {
            Some((s, _)) => Some(s),
            None => None,
        }
    }

    pub open spec fn value_expr(self, e: usize) -> Option<Rc<Expr>> {
        match self.elements[e as int].notes.value {
            Some((_, x)) => Some(x),
            None => None,
        }
    }

    pub open spec fn is_ty(self, e: usize, t: Seq<char>) -> bool {
        self.ty(e) == t
    }
}

impl Resolver {

    pub fn scope_parent(&self, s: usize) -> (r: Option<usize>)
        requires
            self@.wf(),
            s < self@.ns(),
        ensures
            r == self@.g.scope_parent(s),
            below(r, s as nat),
            below(r, self@.ns()),
    {
        proof {
            reveal(Resolver::view);
            reveal(Builder::view);
            reveal(RV::wf);
            reveal(BV::wf);
        }
        proof {
            lemma_scope_ok(self@.g, s as int);
        }
        self.graph.scopes[s].parent
    }

    pub fn scope_owner(&self, s: usize) -> (r: Option<usize>)
        requires
            self@.wf(),
            s < self@.ns(),
        ensures
            r == self@.g.scope_owner(s),
            below(r, self@.n()),
    {
        proof {
            reveal(Resolver::view);
            reveal(Builder::view);
            reveal(RV::wf);
            reveal(BV::wf);
        }
        proof {
            lemma_scope_ok(self@.g, s as int);
        }
        self.graph.scopes[s].owner
    }

    pub fn body_scope(&self, e: usize) -> (r: Option<usize>)
        requires
            self@.wf(),
            e < self@.n(),
        ensures
            r == self@.g.body_scope(e),
            below(r, self@.ns()),
    {
        proof {
            reveal(Resolver::view);
            reveal(Builder::view);
            reveal(RV::wf);
            reveal(BV::wf);
        }
        self.graph.elem_scope(e)
    }

    pub fn alias_count(&self, s: usize) -> (r: usize)
        requires
            self@.wf(),
            s < self@.ns(),
        ensures
            r == self@.g.scopes[s as int].aliases.len(),
            r == self@.g.alias_count(s),
    {
        proof {
            reveal(Resolver::view);
            reveal(Builder::view);
            reveal(RV::wf);
            reveal(BV::wf);
        }
        self.graph.scopes[s].aliases.len()
    }

    /// Whether an alias answers to a name under an access.
    pub fn alias_matches(&self, s: usize, i: usize, name: &str, access: LookupAccess) -> (r: bool)
        requires
            self@.wf(),
            s < self@.ns(),
            i < self@.g.scopes[s as int].aliases.len(),
        ensures
            r == self@.g.alias_matches(s, i as int, name@, access),
    {
        proof {
            reveal(Resolver::view);
            reveal(Builder::view);
            reveal(RV::wf);
            reveal(BV::wf);
        }
        let a = &self.graph.scopes[s].aliases[i];
        str_eq(a.name.as_str(), name) && !(access == LookupAccess::Public && !a.is_public)
    }

    pub fn alias_target(&self, s: usize, i: usize) -> (r: QualifiedName)
        requires
            self@.wf(),
            s < self@.ns(),
            i < self@.g.scopes[s as int].aliases.len(),
        ensures
            r@ == self@.g.alias_target(s, i as int),
    {
        proof {
            reveal(Resolver::view);
            reveal(Builder::view);
            reveal(RV::wf);
            reveal(BV::wf);
        }
        self.graph.scopes[s].aliases[i].target.duplicate()
    }

    pub fn member_count(&self, s: usize) -> (r: usize)
        requires
            self@.wf(),
            s < self@.ns(),
        ensures
            r == self@.g.scopes[s as int].member_imports.len(),
            r == self@.g.member_count(s),
    {
        proof {
            reveal(Resolver::view);
            reveal(Builder::view);
            reveal(RV::wf);
            reveal(BV::wf);
        }
        self.graph.scopes[s].member_imports.len()
    }

    pub fn member_target(&self, s: usize, i: usize) -> (r: QualifiedName)
        requires
            self@.wf(),
            s < self@.ns(),
            i < self@.g.scopes[s as int].member_imports.len(),
        ensures
            r@ == self@.g.member_target(s, i as int),
    {
        proof {
            reveal(Resolver::view);
            reveal(Builder::view);
            reveal(RV::wf);
            reveal(BV::wf);
        }
        proof {
            lemma_scope_ok(self@.g, s as int);
            assert(
                self@.g.scopes[s as int].member_imports[i as int] == self.graph.scopes@[s as int].member_imports@[i as int]@
            );
        }
        self.graph.scopes[s].member_imports[i].target.duplicate()
    }

    pub fn member_all(&self, s: usize, i: usize) -> (r: bool)
        requires
            self@.wf(),
            s < self@.ns(),
            i < self@.g.scopes[s as int].member_imports.len(),
        ensures
            r == self@.g.member_all(s, i as int),
    {
        proof {
            reveal(Resolver::view);
            reveal(Builder::view);
            reveal(RV::wf);
            reveal(BV::wf);
        }
        proof {
            lemma_scope_ok(self@.g, s as int);
            assert(
                self@.g.scopes[s as int].member_imports[i as int] == self.graph.scopes@[s as int].member_imports@[i as int]@
            );
        }
        self.graph.scopes[s].member_imports[i].is_import_all
    }

    pub fn member_public(&self, s: usize, i: usize) -> (r: bool)
        requires
            self@.wf(),
            s < self@.ns(),
            i < self@.g.scopes[s as int].member_imports.len(),
        ensures
            r == self@.g.member_public(s, i as int),
    {
        proof {
            reveal(Resolver::view);
            reveal(Builder::view);
            reveal(RV::wf);
            reveal(BV::wf);
        }
        proof {
            lemma_scope_ok(self@.g, s as int);
            assert(
                self@.g.scopes[s as int].member_imports[i as int] == self.graph.scopes@[s as int].member_imports@[i as int]@
            );
        }
        self.graph.scopes[s].member_imports[i].is_public
    }

    pub fn member_rel(&self, s: usize, i: usize) -> (r: usize)
        requires
            self@.wf(),
            s < self@.ns(),
            i < self@.g.scopes[s as int].member_imports.len(),
        ensures
            r == self@.g.member_rel(s, i as int),
            r < self@.n(),
    {
        proof {
            reveal(Resolver::view);
            reveal(Builder::view);
            reveal(RV::wf);
            reveal(BV::wf);
        }
        proof {
            lemma_scope_ok(self@.g, s as int);
            assert(
                self@.g.scopes[s as int].member_imports[i as int] == self.graph.scopes@[s as int].member_imports@[i as int]@
            );
        }
        self.graph.scopes[s].member_imports[i].relationship
    }

    pub fn member_filter_count(&self, s: usize, i: usize) -> (r: usize)
        requires
            self@.wf(),
            s < self@.ns(),
            i < self@.g.scopes[s as int].member_imports.len(),
        ensures
            r == self@.g.scopes[s as int].member_imports[i as int].filters.len(),
            r == self@.g.member_filter_count(s, i as int),
    {
        proof {
            reveal(Resolver::view);
            reveal(Builder::view);
            reveal(RV::wf);
            reveal(BV::wf);
        }
        proof {
            lemma_scope_ok(self@.g, s as int);
            assert(
                self@.g.scopes[s as int].member_imports[i as int] == self.graph.scopes@[s as int].member_imports@[i as int]@
            );
        }
        self.graph.scopes[s].member_imports[i].filters.len()
    }

    pub fn member_filter(&self, s: usize, i: usize, k: usize) -> (r: usize)
        requires
            self@.wf(),
            s < self@.ns(),
            i < self@.g.scopes[s as int].member_imports.len(),
            k < self@.g.scopes[s as int].member_imports[i as int].filters.len(),
        ensures
            r == self@.g.member_filter(s, i as int, k as int),
            r < self@.g.filter_exprs.len(),
    {
        proof {
            reveal(Resolver::view);
            reveal(Builder::view);
            reveal(RV::wf);
            reveal(BV::wf);
        }
        proof {
            lemma_scope_ok(self@.g, s as int);
            assert(
                self@.g.scopes[s as int].member_imports[i as int] == self.graph.scopes@[s as int].member_imports@[i as int]@
            );
        }
        self.graph.scopes[s].member_imports[i].filters[k]
    }

    pub fn import_count(&self, s: usize) -> (r: usize)
        requires
            self@.wf(),
            s < self@.ns(),
        ensures
            r == self@.g.scopes[s as int].imports.len(),
            r == self@.g.import_count(s),
    {
        proof {
            reveal(Resolver::view);
            reveal(Builder::view);
            reveal(RV::wf);
            reveal(BV::wf);
        }
        self.graph.scopes[s].imports.len()
    }

    pub fn import_target(&self, s: usize, i: usize) -> (r: QualifiedName)
        requires
            self@.wf(),
            s < self@.ns(),
            i < self@.g.scopes[s as int].imports.len(),
        ensures
            r@ == self@.g.import_target(s, i as int),
    {
        proof {
            reveal(Resolver::view);
            reveal(Builder::view);
            reveal(RV::wf);
            reveal(BV::wf);
        }
        proof {
            lemma_scope_ok(self@.g, s as int);
            assert(
                self@.g.scopes[s as int].imports[i as int] == self.graph.scopes@[s as int].imports@[i as int]@
            );
        }
        self.graph.scopes[s].imports[i].target.duplicate()
    }

    pub fn import_all(&self, s: usize, i: usize) -> (r: bool)
        requires
            self@.wf(),
            s < self@.ns(),
            i < self@.g.scopes[s as int].imports.len(),
        ensures
            r == self@.g.import_all(s, i as int),
    {
        proof {
            reveal(Resolver::view);
            reveal(Builder::view);
            reveal(RV::wf);
            reveal(BV::wf);
        }
        proof {
            lemma_scope_ok(self@.g, s as int);
            assert(
                self@.g.scopes[s as int].imports[i as int] == self.graph.scopes@[s as int].imports@[i as int]@
            );
        }
        self.graph.scopes[s].imports[i].is_import_all
    }

    pub fn import_public(&self, s: usize, i: usize) -> (r: bool)
        requires
            self@.wf(),
            s < self@.ns(),
            i < self@.g.scopes[s as int].imports.len(),
        ensures
            r == self@.g.import_public(s, i as int),
    {
        proof {
            reveal(Resolver::view);
            reveal(Builder::view);
            reveal(RV::wf);
            reveal(BV::wf);
        }
        proof {
            lemma_scope_ok(self@.g, s as int);
            assert(
                self@.g.scopes[s as int].imports[i as int] == self.graph.scopes@[s as int].imports@[i as int]@
            );
        }
        self.graph.scopes[s].imports[i].is_public
    }

    pub fn import_rel(&self, s: usize, i: usize) -> (r: usize)
        requires
            self@.wf(),
            s < self@.ns(),
            i < self@.g.scopes[s as int].imports.len(),
        ensures
            r == self@.g.import_rel(s, i as int),
            r < self@.n(),
    {
        proof {
            reveal(Resolver::view);
            reveal(Builder::view);
            reveal(RV::wf);
            reveal(BV::wf);
        }
        proof {
            lemma_scope_ok(self@.g, s as int);
            assert(
                self@.g.scopes[s as int].imports[i as int] == self.graph.scopes@[s as int].imports@[i as int]@
            );
        }
        self.graph.scopes[s].imports[i].relationship
    }

    pub fn import_filter_count(&self, s: usize, i: usize) -> (r: usize)
        requires
            self@.wf(),
            s < self@.ns(),
            i < self@.g.scopes[s as int].imports.len(),
        ensures
            r == self@.g.scopes[s as int].imports[i as int].filters.len(),
            r == self@.g.import_filter_count(s, i as int),
    {
        proof {
            reveal(Resolver::view);
            reveal(Builder::view);
            reveal(RV::wf);
            reveal(BV::wf);
        }
        proof {
            lemma_scope_ok(self@.g, s as int);
            assert(
                self@.g.scopes[s as int].imports[i as int] == self.graph.scopes@[s as int].imports@[i as int]@
            );
        }
        self.graph.scopes[s].imports[i].filters.len()
    }

    pub fn import_filter(&self, s: usize, i: usize, k: usize) -> (r: usize)
        requires
            self@.wf(),
            s < self@.ns(),
            i < self@.g.scopes[s as int].imports.len(),
            k < self@.g.scopes[s as int].imports[i as int].filters.len(),
        ensures
            r == self@.g.import_filter(s, i as int, k as int),
            r < self@.g.filter_exprs.len(),
    {
        proof {
            reveal(Resolver::view);
            reveal(Builder::view);
            reveal(RV::wf);
            reveal(BV::wf);
        }
        proof {
            lemma_scope_ok(self@.g, s as int);
            assert(
                self@.g.scopes[s as int].imports[i as int] == self.graph.scopes@[s as int].imports@[i as int]@
            );
        }
        self.graph.scopes[s].imports[i].filters[k]
    }

    pub fn import_recursive(&self, s: usize, i: usize) -> (r: bool)
        requires
            self@.wf(),
            s < self@.ns(),
            i < self@.g.scopes[s as int].imports.len(),
        ensures
            r == self@.g.import_recursive(s, i as int),
    {
        proof {
            reveal(Resolver::view);
            reveal(Builder::view);
            reveal(RV::wf);
            reveal(BV::wf);
        }
        proof {
            assert(
                self@.g.scopes[s as int].imports[i as int] == self.graph.scopes@[s as int].imports@[i as int]@
            );
        }
        self.graph.scopes[s].imports[i].recursive
    }

    /// Whether a member import answers to a name under an access.
    pub fn member_matches(&self, s: usize, i: usize, name: &str, access: LookupAccess) -> (r: bool)
        requires
            self@.wf(),
            s < self@.ns(),
            i < self@.g.scopes[s as int].member_imports.len(),
        ensures
            r == self@.g.member_matches(s, i as int, name@, access),
    {
        proof {
            reveal(Resolver::view);
            reveal(Builder::view);
            reveal(RV::wf);
            reveal(BV::wf);
        }
        let x = &self.graph.scopes[s].member_imports[i];
        assert(self@.g.scopes[s as int].member_imports[i as int] == x@);
        let n: usize = x.target.segments.len();
        if n == 0 {
            return false;
        }
        assert(x@.target.segments.last() == x.target.segments@[n - 1]@);
        str_eq(x.target.segments[n - 1].value.as_str(), name) && !(
            access == LookupAccess::Public && !x.is_public
        )
    }

    pub fn scope_filter_count(&self, s: usize) -> (r: usize)
        requires
            self@.wf(),
            s < self@.ns(),
        ensures
            r == self@.g.scopes[s as int].filters.len(),
            r == self@.g.scope_filter_count(s),
    {
        proof {
            reveal(Resolver::view);
            reveal(Builder::view);
            reveal(RV::wf);
            reveal(BV::wf);
        }
        self.graph.scopes[s].filters.len()
    }

    pub fn scope_filter(&self, s: usize, k: usize) -> (r: usize)
        requires
            self@.wf(),
            s < self@.ns(),
            k < self@.g.scopes[s as int].filters.len(),
        ensures
            r == self@.g.scope_filter(s, k as int),
            r < self@.g.filter_exprs.len(),
    {
        proof {
            reveal(Resolver::view);
            reveal(Builder::view);
            reveal(RV::wf);
            reveal(BV::wf);
        }
        proof {
            lemma_scope_ok(self@.g, s as int);
        }
        self.graph.scopes[s].filters[k]
    }

    pub fn base_count(&self, s: usize) -> (r: usize)
        requires
            self@.wf(),
            s < self@.ns(),
        ensures
            r == self@.g.scopes[s as int].bases.len(),
            r == self@.g.base_count(s),
    {
        proof {
            reveal(Resolver::view);
            reveal(Builder::view);
            reveal(RV::wf);
            reveal(BV::wf);
        }
        self.graph.scopes[s].bases.len()
    }

    pub fn base_at(&self, s: usize, i: usize) -> (r: QualifiedName)
        requires
            self@.wf(),
            s < self@.ns(),
            i < self@.g.scopes[s as int].bases.len(),
        ensures
            r@ == self@.g.base_at(s, i as int),
    {
        proof {
            reveal(Resolver::view);
            reveal(Builder::view);
            reveal(RV::wf);
            reveal(BV::wf);
        }
        self.graph.scopes[s].bases[i].duplicate()
    }

    pub fn chain_base_count(&self, s: usize) -> (r: usize)
        requires
            self@.wf(),
            s < self@.ns(),
        ensures
            r == self@.g.scopes[s as int].chain_bases.len(),
            r == self@.g.chain_base_count(s),
    {
        proof {
            reveal(Resolver::view);
            reveal(Builder::view);
            reveal(RV::wf);
            reveal(BV::wf);
        }
        self.graph.scopes[s].chain_bases.len()
    }

    pub fn chain_base(&self, s: usize, i: usize) -> (r: Vec<QualifiedName>)
        requires
            self@.wf(),
            s < self@.ns(),
            i < self@.g.scopes[s as int].chain_bases.len(),
        ensures
            crate::ast::qns_view(r@) == self@.g.chain_base(s, i as int),
    {
        proof {
            reveal(Resolver::view);
            reveal(Builder::view);
            reveal(RV::wf);
            reveal(BV::wf);
        }
        let v = &self.graph.scopes[s].chain_bases[i];
        crate::ast::duplicate_prefix(v, v.len())
    }

    pub fn metadata_count(&self, e: usize) -> (r: usize)
        requires
            self@.wf(),
            e < self@.n(),
        ensures
            r == self@.g.elements[e as int].notes.metadata.len(),
            r == self@.g.metadata_count(e),
    {
        proof {
            reveal(Resolver::view);
            reveal(Builder::view);
            reveal(RV::wf);
            reveal(BV::wf);
        }
        self.graph.elements[e].notes.metadata.len()
    }

    pub fn metadata_at(&self, e: usize, k: usize) -> (r: usize)
        requires
            self@.wf(),
            e < self@.n(),
            k < self@.g.elements[e as int].notes.metadata.len(),
        ensures
            r == self@.g.metadata_at(e, k as int),
            r < self@.n(),
    {
        proof {
            reveal(Resolver::view);
            reveal(Builder::view);
            reveal(RV::wf);
            reveal(BV::wf);
        }
        proof {
            lemma_elem_ok(self@.g, e as int);
        }
        self.graph.elements[e].notes.metadata[k]
    }

    pub fn spec_count(&self) -> (r: usize)
        requires
            self@.wf(),
        ensures
            r == self@.g.spec_targets.len(),
            r == self@.g.spec_count(),
    {
        proof {
            reveal(Resolver::view);
            reveal(Builder::view);
            reveal(RV::wf);
            reveal(BV::wf);
        }
        self.graph.spec_targets.len()
    }

    pub fn spec_elem(&self, i: usize) -> (r: usize)
        requires
            self@.wf(),
            i < self@.g.spec_targets.len(),
        ensures
            r == self@.g.spec_elem(i as int),
            r < self@.n(),
    {
        proof {
            reveal(Resolver::view);
            reveal(Builder::view);
            reveal(RV::wf);
            reveal(BV::wf);
        }
        self.graph.spec_targets[i].elem
    }

    pub fn spec_scope(&self, i: usize) -> (r: usize)
        requires
            self@.wf(),
            i < self@.g.spec_targets.len(),
        ensures
            r == self@.g.spec_scope(i as int),
            r < self@.ns(),
    {
        proof {
            reveal(Resolver::view);
            reveal(Builder::view);
            reveal(RV::wf);
            reveal(BV::wf);
        }
        self.graph.spec_targets[i].scope
    }

    pub fn spec_qn(&self, i: usize) -> (r: QualifiedName)
        requires
            self@.wf(),
            i < self@.g.spec_targets.len(),
        ensures
            r@ == self@.g.spec_qn(i as int),
    {
        proof {
            reveal(Resolver::view);
            reveal(Builder::view);
            reveal(RV::wf);
            reveal(BV::wf);
        }
        self.graph.spec_targets[i].qn.duplicate()
    }

    pub fn spec_is(&self, i: usize, kind: &str) -> (r: bool)
        requires
            self@.wf(),
            i < self@.g.spec_targets.len(),
        ensures
            r == self@.g.spec_is(i as int, kind@),
    {
        proof {
            reveal(Resolver::view);
            reveal(Builder::view);
            reveal(RV::wf);
            reveal(BV::wf);
        }
        str_eq(self.graph.spec_targets[i].kind, kind)
    }

    /// Whether a specialization record is a typing, subclassification,
    /// subsetting or redefinition.
    pub fn spec_is_upward(&self, i: usize) -> (r: bool)
        requires
            self@.wf(),
            i < self@.g.spec_targets.len(),
        ensures
            r == self@.g.spec_is_upward(i as int),
    {
        proof {
            reveal(Resolver::view);
            reveal(Builder::view);
            reveal(RV::wf);
            reveal(BV::wf);
        }
        self.spec_is(i, "FeatureTyping") || self.spec_is(i, "Subclassification") || self.spec_is(i, "Subsetting")
            || self.spec_is(i, "Redefinition")
    }

    pub fn filter_scope(&self, f: usize) -> (r: usize)
        requires
            self@.wf(),
            f < self@.g.filter_exprs.len(),
        ensures
            r == self@.g.filter_scope(f),
            r < self@.ns(),
    {
        proof {
            reveal(Resolver::view);
            reveal(Builder::view);
            reveal(RV::wf);
            reveal(BV::wf);
        }
        self.graph.filter_exprs[f].0
    }

    pub fn filter_expr(&self, f: usize) -> (r: Rc<Expr>)
        requires
            self@.wf(),
            f < self@.g.filter_exprs.len(),
        ensures
            r == self@.g.filter_expr(f),
    {
        proof {
            reveal(Resolver::view);
            reveal(Builder::view);
            reveal(RV::wf);
            reveal(BV::wf);
        }
        Rc::clone(&self.graph.filter_exprs[f].1)
    }

    pub fn value_scope(&self, e: usize) -> (r: Option<usize>)
        requires
            self@.wf(),
            e < self@.n(),
        ensures
            r == self@.g.value_scope(e),
            below(r, self@.ns()),
    {
        proof {
            reveal(Resolver::view);
            reveal(Builder::view);
            reveal(RV::wf);
            reveal(BV::wf);
        }
        proof {
            lemma_elem_ok(self@.g, e as int);
        }
        match &self.graph.elements[e].notes.value {
            Some(v) => Some(v.0),
            None => None,
        }
    }

    pub fn value_expr(&self, e: usize) -> (r: Option<Rc<Expr>>)
        requires
            self@.wf(),
            e < self@.n(),
        ensures
            r == self@.g.value_expr(e),
    {
        proof {
            reveal(Resolver::view);
            reveal(Builder::view);
            reveal(RV::wf);
            reveal(BV::wf);
        }
        match &self.graph.elements[e].notes.value {
            Some(v) => Some(Rc::clone(&v.1)),
            None => None,
        }
    }

    pub fn is_ty(&self, e: usize, t: &str) -> (r: bool)
        requires
            self@.wf(),
            e < self@.n(),
        ensures
            r == self@.g.is_ty(e, t@),
    {
        proof {
            reveal(Resolver::view);
            reveal(Builder::view);
            reveal(RV::wf);
            reveal(BV::wf);
        }
        str_eq(self.graph.elements[e].ty, t)
    }

    /// Merge two hits of one name.
    pub fn merge(&self, l: LookupResult, r: LookupResult) -> (out: LookupResult)
        requires
            self@.wf(),
            l.ok(self@.n(), self@.ns()),
            r.ok(self@.n(), self@.ns()),
        ensures
            out == self@.g.merge(l, r),
            out.ok(self@.n(), self@.ns()),
    {
        proof {
            reveal(Resolver::view);
            reveal(RV::wf);
        }
        match (l, r) {
            (LookupResult::Ambiguous, _) => LookupResult::Ambiguous,
            (_, LookupResult::Ambiguous) => LookupResult::Ambiguous,
            (LookupResult::Missing, hit) => hit,
            (hit, LookupResult::Missing) => hit,
            (LookupResult::Found(a, sa), LookupResult::Found(c, sc)) => {
                if a == c {
                    LookupResult::Found(
                        a,
                        if sa.is_some() {
                            sa
                        } else {
                            sc
                        },
                    )
                } else if !metaclasses_overlap(self.graph.ty(a), self.graph.ty(c)) {
                    LookupResult::Found(a, sa)
                } else {
                    LookupResult::Ambiguous
                }
            },
        }
    }

    fn bound_hit(
        &self,
        bs: &Vec<Binding>,
        access: LookupAccess,
        exclude: Option<usize>,
    ) -> (r: LookupResult)
        requires
            self@.wf(),
            forall|k: int| 0 <= k < bs@.len() ==> (#[trigger] bs@[k]).elem < self@.n() && below(bs@[k].sub_scope, self@.ns()),
        ensures
            r == self@.g.binding_result(bs@, access, exclude, 0, LookupResult::Missing),
            r.ok(self@.n(), self@.ns()),
    {
        let mut acc = LookupResult::Missing;
        let mut k: usize = 0;
        while k < bs.len()
            invariant
                k <= bs@.len(),
                self@.wf(),
                acc.ok(self@.n(), self@.ns()),
                forall|k: int| 0 <= k < bs@.len() ==> (#[trigger] bs@[k]).elem < self@.n() && below(bs@[k].sub_scope, self@.ns()),
                self@.g.binding_result(bs@, access, exclude, k as int, acc) == self@.g.binding_result(
                    bs@,
                    access,
                    exclude,
                    0,
                    LookupResult::Missing,
                ),
            decreases bs@.len() - k,
        {
            let b = bs[k];
            let skip = match exclude {
                Some(e) => e == b.elem,
                None => false,
            };
            if !skip && access.admits(b.visibility) {
                acc = self.merge(acc, LookupResult::Found(b.elem, b.sub_scope));
            }
            k += 1;
        }
        acc
    }

    /// The owned members of a scope under a name.
    pub fn direct_hit(
        &self,
        exclude: Option<usize>,
        s: usize,
        name: &str,
        access: LookupAccess,
    ) -> (r: LookupResult)
        requires
            self@.wf(),
            s < self@.ns(),
        ensures
            r == self@.g.direct_hit(exclude, s, name@, access),
            r.ok(self@.n(), self@.ns()),
    {
        proof {
            reveal(Resolver::view);
            reveal(Builder::view);
            reveal(RV::wf);
            lemma_scope_ok(self@.g, s as int);
        }
        match self.graph.scopes[s].names.get(name) {
            Some(bs) => {
                assert forall|k: int| 0 <= k < bs@.len() implies (#[trigger] bs@[k]).elem < self@.n() && below(
                    bs@[k].sub_scope,
                    self@.ns(),
                ) by {
                    assert(self@.g.scopes[s as int].names[name@][k] == bs@[k]);
                }
                self.bound_hit(bs, access, exclude)
            },
            None => LookupResult::Missing,
        }
    }

    /// The unnamed members of a scope under their effective name.
    pub fn effective_hit(
        &self,
        exclude: Option<usize>,
        s: usize,
        name: &str,
        access: LookupAccess,
    ) -> (r: LookupResult)
        requires
            self@.wf(),
            s < self@.ns(),
        ensures
            r == self@.g.effective_hit(exclude, s, name@, access),
            r.ok(self@.n(), self@.ns()),
    {
        proof {
            reveal(Resolver::view);
            reveal(Builder::view);
            reveal(RV::wf);
            lemma_scope_ok(self@.g, s as int);
        }
        match self.graph.scopes[s].effective_names.get(name) {
            Some(bs) => {
                assert forall|k: int| 0 <= k < bs@.len() implies (#[trigger] bs@[k]).elem < self@.n() && below(
                    bs@[k].sub_scope,
                    self@.ns(),
                ) by {
                    assert(self@.g.scopes[s as int].effective_names[name@][k] == bs@[k]);
                }
                self.bound_hit(bs, access, exclude)
            },
            None => LookupResult::Missing,
        }
    }

    /// The implied ends of a scope under a name.
    pub fn implied_hit(&self, exclude: Option<usize>, s: usize, name: &str) -> (r: LookupResult)
        requires
            self@.wf(),
            s < self@.ns(),
        ensures
            r == self@.g.implied_hit(exclude, s, name@),
            r.ok(self@.n(), self@.ns()),
    {
        proof {
            reveal(Resolver::view);
            reveal(Builder::view);
            reveal(RV::wf);
            lemma_scope_ok(self@.g, s as int);
        }
        let ends = &self.graph.scopes[s].implied_ends;
        let ghost view = self@.g.scopes[s as int].implied_ends;
        assert(view =~= implied_ends_view(ends@));
        let mut acc = LookupResult::Missing;
        let mut k: usize = 0;
        while k < ends.len()
            invariant
                k <= ends@.len(),
                self@.wf(),
                s < self@.ns(),
                acc.ok(self@.n(), self@.ns()),
                view == self@.g.scopes[s as int].implied_ends,
                view == implied_ends_view(ends@),
                forall|k: int| 0 <= k < view.len() ==> (#[trigger] view[k]).elem < self@.n() && view[k].scope < self@.ns(),
                self@.g.implied_from(exclude, s, name@, k as int, acc) == self@.g.implied_hit(exclude, s, name@),
            decreases ends@.len() - k,
        {
            assert(view[k as int] == ends@[k as int]@);
            let hit = str_eq(ends[k].name, name);
            let skip = match exclude {
                Some(e) => e == ends[k].elem,
                None => false,
            };
            if hit && !skip {
                acc = self.merge(acc, LookupResult::Found(ends[k].elem, Some(ends[k].scope)));
            }
            k += 1;
        }
        acc
    }

    /// A hit of an alias or member import, its body scope looked up.
    pub fn merge_elem(&self, acc: LookupResult, hit: LookupResult) -> (r: LookupResult)
        requires
            self@.wf(),
            acc.ok(self@.n(), self@.ns()),
            hit.ok(self@.n(), self@.ns()),
        ensures
            r == self@.g.merge_elem(acc, hit),
            r.ok(self@.n(), self@.ns()),
    {
        match hit {
            LookupResult::Found(e, _) => {
                let sub = self.body_scope(e);
                self.merge(acc, LookupResult::Found(e, sub))
            },
            LookupResult::Ambiguous => LookupResult::Ambiguous,
            LookupResult::Missing => acc,
        }
    }

    pub fn visit(&self, s: usize, access: LookupAccess) -> (r: Visit)
        requires
            self@.wf(),
            s < self@.ns(),
        ensures
            r == self@.visits[s as int].at(access),
            r.result is Some ==> r.result->0.ok(self@.n(), self@.ns()),
    {
        proof {
            reveal(Resolver::view);
            reveal(RV::wf);
        }
        let row = self.visits[s];
        assert(self@.visits[s as int].ok(self@.n(), self@.ns()));
        match access {
            LookupAccess::Public => row.public,
            LookupAccess::Protected => row.protected,
            LookupAccess::All => row.all,
        }
    }

    pub fn read_exclude(&self) -> (r: Option<usize>)
        ensures
            r == self@.exclude,
    {
        proof {
            reveal(Resolver::view);
        }
        self.exclude
    }

    pub fn read_declared_only(&self) -> (r: bool)
        ensures
            r == self@.declared_only,
    {
        proof {
            reveal(Resolver::view);
        }
        self.declared_only
    }

    pub fn read_lib_boundary(&self) -> (r: usize)
        ensures
            r == self@.lib_boundary,
    {
        proof {
            reveal(Resolver::view);
        }
        self.lib_boundary
    }

    pub fn read_semantic(&self) -> (r: Option<Option<usize>>)
        requires
            self@.wf(),
        ensures
            r == self@.semantic,
            r is Some ==> below(r->0, self@.n()),
    {
        proof {
            reveal(Resolver::view);
            reveal(RV::wf);
        }
        self.semantic
    }

    pub fn filter_active(&self, f: usize) -> (r: bool)
        requires
            self@.wf(),
            f < self@.g.filter_exprs.len(),
        ensures
            r == self@.filters_active[f as int],
    {
        proof {
            reveal(Resolver::view);
            reveal(RV::wf);
        }
        self.filters_active[f]
    }

    pub fn read_resolved(&self, i: usize) -> (r: Option<usize>)
        requires
            self@.wf(),
            i < self@.g.spec_targets.len(),
        ensures
            r == self@.resolved[i as int],
            below(r, self@.n()),
    {
        proof {
            reveal(Resolver::view);
            reveal(RV::wf);
        }
        self.resolved[i]
    }

    /// Whether a member import is being resolved.
    pub fn is_active(&self, s: usize, i: usize) -> (r: bool)
        ensures
            r == self@.member_active(s, i),
    {
        proof {
            reveal(Resolver::view);
        }
        let mut k: usize = 0;
        while k < self.active.len()
            invariant
                k <= self.active@.len(),
                forall|j: int| 0 <= j < k ==> !((#[trigger] self.active@[j]).scope == s && self.active@[j].entry == i),
            decreases self.active@.len() - k,
        {
            proof {
                reveal(Resolver::view);
            }
            if self.active[k].scope == s && self.active[k].entry == i {
                assert(self@.active[k as int].scope == s);
                return true;
            }
            k += 1;
        }
        false
    }

    /// The imports in force in a scope, once computed.
    pub fn import_cache(&self, s: usize) -> (r: Option<Vec<OpenImport>>)
        requires
            self@.wf(),
            s < self@.ns(),
        ensures
            opt_seq(r) == self@.imports[s as int],
            self@.imports_ok(s as int, opt_seq(r)),
    {
        proof {
            reveal(Resolver::view);
            reveal(RV::wf);
            assert(self@.imports_ok(s as int, self@.imports[s as int]));
            assert(self@.imports[s as int] == opt_seq(self.imports@[s as int]));
        }
        match &self.imports[s] {
            Some(v) => {
                let mut out: Vec<OpenImport> = Vec::new();
                let mut k: usize = 0;
                while k < v.len()
                    invariant
                        k <= v@.len(),
                        out@ =~= v@.subrange(0, k as int),
                    decreases v@.len() - k,
                {
                    out.push(v[k]);
                    k += 1;
                    assert(v@.subrange(0, k as int) =~= v@.subrange(0, k - 1).push(v@[k - 1]));
                }
                assert(v@.subrange(0, v@.len() as int) =~= v@);
                Some(out)
            },
            None => None,
        }
    }

    /// The inherited scopes of a scope, once computed.
    pub fn base_cache(&self, s: usize) -> (r: Option<Vec<usize>>)
        requires
            self@.wf(),
            s < self@.ns(),
        ensures
            opt_seq(r) == self@.bases[s as int],
            opt_seq(r) is Some ==> all_below(opt_seq(r)->0, self@.ns()),
    {
        proof {
            reveal(Resolver::view);
            reveal(RV::wf);
            assert(self@.bases[s as int] == opt_seq(self.bases@[s as int]));
        }
        match &self.bases[s] {
            Some(v) => {
                let mut out: Vec<usize> = Vec::new();
                let mut k: usize = 0;
                while k < v.len()
                    invariant
                        k <= v@.len(),
                        out@ =~= v@.subrange(0, k as int),
                    decreases v@.len() - k,
                {
                    out.push(v[k]);
                    k += 1;
                    assert(v@.subrange(0, k as int) =~= v@.subrange(0, k - 1).push(v@[k - 1]));
                }
                assert(v@.subrange(0, v@.len() as int) =~= v@);
                Some(out)
            },
            None => None,
        }
    }
}

impl RV {
    pub open spec fn member_active(self, s: usize, i: usize) -> bool {
        exists|j: int| 0 <= j < self.active.len() && (#[trigger] self.active[j]).scope == s && self.active[j].entry == i
    }
}

/// Two candidates of one precedence are ambiguous in either order: neither
/// declaration nor import order breaks the tie between distinct elements that
/// a name cannot tell apart.
pub proof fn law_ambiguity_has_no_order(g: BV, l: LookupResult, r: LookupResult)
    ensures
        g.merge(l, r) is Ambiguous <==> g.merge(r, l) is Ambiguous,
        match (l, r) {
            (LookupResult::Found(a, _), LookupResult::Found(c, _)) => a != c && overlap(g.ty(a), g.ty(c))
                <==> g.merge(l, r) is Ambiguous,
            _ => true,
        },
{
    reveal(overlap);
}

} // verus!
