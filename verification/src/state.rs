//! The element graph under construction: elements, name-resolution scopes,
//! pending references and the records later passes read.

use crate::ast::{
    qns_view, Dialect, Expr, Identification, Name, QnV, QualifiedName, Span, TargetRef, TargetV,
};
use crate::ids::{id_of_path, path_id};
use crate::names::{bind, Binding, LookupAccess, Names};
use crate::props::{Link, LinkV, Props, Value, ValueV};
use crate::text::{numbered, numbered_seg, str_eq};
use std::rc::Rc;
use vstd::prelude::*;

verus! {

/// What lowering records about an element beside its properties.
pub struct Notes {
    /// Syntactic effective name of an unnamed feature.
    pub hint: Option<String>,
    /// Where the element's name is declared.
    pub decl_span: Option<Span>,
    /// Full source extent of the member the element was written as.
    pub member_span: Option<Span>,
    /// The element's body scope.
    pub scope: Option<usize>,
    /// A port definition's implicit conjugated definition.
    pub conjugated: Option<usize>,
    /// Of a usage: whether it has an expected featuring type.
    pub featuring: Option<bool>,
    /// Prefix-metadata segments handed out so far.
    pub meta_next: usize,
    /// Direct metadata annotations.
    pub metadata: Vec<usize>,
    /// The feature value: the scope it resolves from, and the expression.
    pub value: Option<(usize, Rc<Expr>)>,
    /// Whether the feature value is a default.
    pub default_value: bool,
    /// A transition's guard: its scope and expression.
    pub guard: Option<(usize, Rc<Expr>)>,
    /// Named `in` and `inout` parameters, in declaration order.
    pub in_params: Vec<String>,
    /// Named usage members with their elements, in declaration order.
    pub ctor_fields: Vec<(String, usize)>,
    /// The return parameter.
    pub return_param: Option<usize>,
}

#[verifier::ext_equal]
pub struct NotesV {
    pub hint: Option<Seq<char>>,
    pub decl_span: Option<Span>,
    pub member_span: Option<Span>,
    pub scope: Option<usize>,
    pub conjugated: Option<usize>,
    pub featuring: Option<bool>,
    pub meta_next: usize,
    pub metadata: Seq<usize>,
    pub value: Option<(usize, Rc<Expr>)>,
    pub default_value: bool,
    pub guard: Option<(usize, Rc<Expr>)>,
    pub in_params: Seq<Seq<char>>,
    pub ctor_fields: Seq<(Seq<char>, usize)>,
    pub return_param: Option<usize>,
}

pub open spec fn strings_view(s: Seq<String>) -> Seq<Seq<char>> {
    s.map_values(|x: String| x@)
}

pub open spec fn fields_view(s: Seq<(String, usize)>) -> Seq<(Seq<char>, usize)> {
    s.map_values(|x: (String, usize)| (x.0@, x.1))
}

pub open spec fn opt_text(s: Option<String>) -> Option<Seq<char>> {
    match s {
        Some(x) => Some(x@),
        None => None,
    }
}

impl Notes {
    pub open spec fn view(&self) -> NotesV {
        NotesV {
            hint: opt_text(self.hint),
            decl_span: self.decl_span,
            member_span: self.member_span,
            scope: self.scope,
            conjugated: self.conjugated,
            featuring: self.featuring,
            meta_next: self.meta_next,
            metadata: self.metadata@,
            value: self.value,
            default_value: self.default_value,
            guard: self.guard,
            in_params: strings_view(self.in_params@),
            ctor_fields: fields_view(self.ctor_fields@),
            return_param: self.return_param,
        }
    }

    pub fn new() -> (r: Notes)
        ensures
            r@ == no_notes(),
    {
        let r = Notes {
            hint: None,
            decl_span: None,
            member_span: None,
            scope: None,
            conjugated: None,
            featuring: None,
            meta_next: 0,
            metadata: Vec::new(),
            value: None,
            default_value: false,
            guard: None,
            in_params: Vec::new(),
            ctor_fields: Vec::new(),
            return_param: None,
        };
        assert(r@ =~= no_notes());
        r
    }
}

/// The notes of a fresh element.
pub open spec fn no_notes() -> NotesV {
    NotesV {
        hint: None,
        decl_span: None,
        member_span: None,
        scope: None,
        conjugated: None,
        featuring: None,
        meta_next: 0,
        metadata: Seq::empty(),
        value: None,
        default_value: false,
        guard: None,
        in_params: Seq::empty(),
        ctor_fields: Seq::empty(),
        return_param: None,
    }
}

/// One element of the graph.
pub struct Elem {
    /// The abstract-syntax metaclass.
    pub ty: &'static str,
    pub id: u128,
    /// The ownership path identifiers derive from.
    pub path: String,
    pub props: Props,
    /// `ownedRelationship`: relationship elements this element owns.
    pub owned: Vec<usize>,
    /// `ownedRelatedElement`: elements this relationship owns.
    pub children: Vec<usize>,
    /// `owningRelationship`: the relationship that owns this element.
    pub owning: Option<usize>,
    /// `owningRelatedElement`: the element whose `owned` lists this
    /// relationship.
    pub carrier: Option<usize>,
    pub notes: Notes,
}

#[verifier::ext_equal]
pub struct ElemV {
    pub ty: Seq<char>,
    pub id: u128,
    pub path: Seq<char>,
    pub props: Map<Seq<char>, ValueV>,
    pub owned: Seq<usize>,
    pub children: Seq<usize>,
    pub owning: Option<usize>,
    pub carrier: Option<usize>,
    pub notes: NotesV,
}

impl Elem {
    pub open spec fn view(&self) -> ElemV {
        ElemV {
            ty: self.ty@,
            id: self.id,
            path: self.path@,
            props: self.props@,
            owned: self.owned@,
            children: self.children@,
            owning: self.owning,
            carrier: self.carrier,
            notes: self.notes@,
        }
    }
}

pub open spec fn elems_view(s: Seq<Elem>) -> Seq<ElemV> {
    s.map_values(|e: Elem| e@)
}

/// A namespace or membership import of a scope.
pub struct ScopeImport {
    pub target: QualifiedName,
    pub recursive: bool,
    pub is_import_all: bool,
    /// Bracket filters, as indices of the recorded filter expressions.
    pub filters: Vec<usize>,
    pub relationship: usize,
    pub is_public: bool,
}

#[verifier::ext_equal]
pub struct ImportV {
    pub target: QnV,
    pub recursive: bool,
    pub is_import_all: bool,
    pub filters: Seq<usize>,
    pub relationship: usize,
    pub is_public: bool,
}

impl ScopeImport {
    pub open spec fn view(&self) -> ImportV {
        ImportV {
            target: self.target@,
            recursive: self.recursive,
            is_import_all: self.is_import_all,
            filters: self.filters@,
            relationship: self.relationship,
            is_public: self.is_public,
        }
    }
}

pub open spec fn imports_view(s: Seq<ScopeImport>) -> Seq<ImportV> {
    s.map_values(|x: ScopeImport| x@)
}

/// An `alias a for X` member of a scope.
pub struct ScopeAlias {
    pub name: String,
    pub target: QualifiedName,
    pub is_public: bool,
}

#[verifier::ext_equal]
pub struct AliasV {
    pub name: Seq<char>,
    pub target: QnV,
    pub is_public: bool,
}

impl ScopeAlias {
    pub open spec fn view(&self) -> AliasV {
        AliasV { name: self.name@, target: self.target@, is_public: self.is_public }
    }
}

pub open spec fn aliases_view(s: Seq<ScopeAlias>) -> Seq<AliasV> {
    s.map_values(|x: ScopeAlias| x@)
}

/// An end feature a binary connector's body names `source` or `target`.
pub struct ImpliedEnd {
    pub name: &'static str,
    pub elem: usize,
    pub scope: usize,
}

#[verifier::ext_equal]
pub struct ImpliedEndV {
    pub name: Seq<char>,
    pub elem: usize,
    pub scope: usize,
}

impl ImpliedEnd {
    pub open spec fn view(&self) -> ImpliedEndV {
        ImpliedEndV { name: self.name@, elem: self.elem, scope: self.scope }
    }
}

pub open spec fn implied_ends_view(s: Seq<ImpliedEnd>) -> Seq<ImpliedEndV> {
    s.map_values(|x: ImpliedEnd| x@)
}

pub open spec fn chains_view(s: Seq<Vec<QualifiedName>>) -> Seq<Seq<QnV>> {
    s.map_values(|x: Vec<QualifiedName>| qns_view(x@))
}

/// One namespace body names resolve in.
pub struct Scope {
    pub parent: Option<usize>,
    pub owner: Option<usize>,
    pub names: Names,
    /// Effective names of unnamed features.
    pub effective_names: Names,
    pub imports: Vec<ScopeImport>,
    pub member_imports: Vec<ScopeImport>,
    /// `filter` members, as indices of the recorded filter expressions.
    pub filters: Vec<usize>,
    pub aliases: Vec<ScopeAlias>,
    pub implied_ends: Vec<ImpliedEnd>,
    /// Specialization targets whose members the scope inherits.
    pub bases: Vec<QualifiedName>,
    /// Specialization targets written as feature chains.
    pub chain_bases: Vec<Vec<QualifiedName>>,
}

#[verifier::ext_equal]
pub struct ScopeV {
    pub parent: Option<usize>,
    pub owner: Option<usize>,
    pub names: Map<Seq<char>, Seq<Binding>>,
    pub effective_names: Map<Seq<char>, Seq<Binding>>,
    pub imports: Seq<ImportV>,
    pub member_imports: Seq<ImportV>,
    pub filters: Seq<usize>,
    pub aliases: Seq<AliasV>,
    pub implied_ends: Seq<ImpliedEndV>,
    pub bases: Seq<QnV>,
    pub chain_bases: Seq<Seq<QnV>>,
}

impl Scope {
    pub open spec fn view(&self) -> ScopeV {
        ScopeV {
            parent: self.parent,
            owner: self.owner,
            names: self.names@,
            effective_names: self.effective_names@,
            imports: imports_view(self.imports@),
            member_imports: imports_view(self.member_imports@),
            filters: self.filters@,
            aliases: aliases_view(self.aliases@),
            implied_ends: implied_ends_view(self.implied_ends@),
            bases: qns_view(self.bases@),
            chain_bases: chains_view(self.chain_bases@),
        }
    }
}

pub open spec fn scopes_view(s: Seq<Scope>) -> Seq<ScopeV> {
    s.map_values(|x: Scope| x@)
}

/// The scope a body starts with.
pub open spec fn empty_scope(parent: Option<usize>) -> ScopeV {
    ScopeV {
        parent,
        owner: None,
        names: Map::empty(),
        effective_names: Map::empty(),
        imports: Seq::empty(),
        member_imports: Seq::empty(),
        filters: Seq::empty(),
        aliases: Seq::empty(),
        implied_ends: Seq::empty(),
        bases: Seq::empty(),
        chain_bases: Seq::empty(),
    }
}

/// A reference recorded for the pass that resolves names.
pub struct PendingRef {
    /// Element the resolved value is set on.
    pub elem: usize,
    /// Property the value is set under.
    pub key: &'static str,
    /// Position in a list property; `None` for a single value.
    pub index: Option<usize>,
    pub scope: usize,
    pub qn: QualifiedName,
    /// Element that must not be the resolution result.
    pub exclude: Option<usize>,
    /// Resolve against declared names only.
    pub declared_only: bool,
    /// The links a feature-chain step follows.
    pub chain: Option<Vec<QualifiedName>>,
    /// Specialization record the outcome is reported into.
    pub spec_idx: Option<usize>,
}

#[verifier::ext_equal]
pub struct PendingV {
    pub elem: usize,
    pub key: Seq<char>,
    pub index: Option<usize>,
    pub scope: usize,
    pub qn: QnV,
    pub exclude: Option<usize>,
    pub declared_only: bool,
    pub chain: Option<Seq<QnV>>,
    pub spec_idx: Option<usize>,
}

impl PendingRef {
    pub open spec fn view(&self) -> PendingV {
        PendingV {
            elem: self.elem,
            key: self.key@,
            index: self.index,
            scope: self.scope,
            qn: self.qn@,
            exclude: self.exclude,
            declared_only: self.declared_only,
            chain: opt_chain(self.chain),
            spec_idx: self.spec_idx,
        }
    }
}

pub open spec fn opt_chain(c: Option<Vec<QualifiedName>>) -> Option<Seq<QnV>> {
    match c {
        Some(v) => Some(qns_view(v@)),
        None => None,
    }
}

pub open spec fn pendings_view(s: Seq<PendingRef>) -> Seq<PendingV> {
    s.map_values(|x: PendingRef| x@)
}

/// An explicit specialization as written: its owner, relationship
/// metaclass, scope and target.
pub struct SpecTarget {
    pub elem: usize,
    pub kind: &'static str,
    pub scope: usize,
    pub qn: QualifiedName,
}

#[verifier::ext_equal]
pub struct SpecTargetV {
    pub elem: usize,
    pub kind: Seq<char>,
    pub scope: usize,
    pub qn: QnV,
}

impl SpecTarget {
    pub open spec fn view(&self) -> SpecTargetV {
        SpecTargetV { elem: self.elem, kind: self.kind@, scope: self.scope, qn: self.qn@ }
    }
}

pub open spec fn spec_targets_view(s: Seq<SpecTarget>) -> Seq<SpecTargetV> {
    s.map_values(|x: SpecTarget| x@)
}

/// A subsetting target written as a feature chain.
pub struct ChainSubsetting {
    pub elem: usize,
    pub scope: usize,
    pub links: Vec<QualifiedName>,
    pub span: Span,
}

#[verifier::ext_equal]
pub struct ChainSubsettingV {
    pub elem: usize,
    pub scope: usize,
    pub links: Seq<QnV>,
    pub span: Span,
}

impl ChainSubsetting {
    pub open spec fn view(&self) -> ChainSubsettingV {
        ChainSubsettingV {
            elem: self.elem,
            scope: self.scope,
            links: qns_view(self.links@),
            span: self.span,
        }
    }
}

pub open spec fn chain_subsettings_view(s: Seq<ChainSubsetting>) -> Seq<ChainSubsettingV> {
    s.map_values(|x: ChainSubsetting| x@)
}

/// A `satisfy R by x` claim.
pub struct SatisfyBy {
    pub elem: usize,
    pub scope: usize,
    pub by: TargetRef,
}

#[verifier::ext_equal]
pub struct SatisfyByV {
    pub elem: usize,
    pub scope: usize,
    pub by: TargetV,
}

impl SatisfyBy {
    pub open spec fn view(&self) -> SatisfyByV {
        SatisfyByV { elem: self.elem, scope: self.scope, by: self.by@ }
    }
}

pub open spec fn satisfy_by_view(s: Seq<SatisfyBy>) -> Seq<SatisfyByV> {
    s.map_values(|x: SatisfyBy| x@)
}

/// A recorded multiplicity clause.
pub struct MultiplicityRecord {
    pub owner: usize,
    pub scope: usize,
    pub lower: Option<Rc<Expr>>,
    pub upper: Rc<Expr>,
}

/// A textual import member.
#[derive(Clone, Copy, PartialEq, Eq, Structural)]
pub struct UserImport {
    pub relationship: usize,
    pub span: Span,
    pub private: bool,
}

/// A connector end with a reference target.
#[derive(Clone, Copy, PartialEq, Eq, Structural)]
pub struct ConnectorEndRecord {
    pub connector: usize,
    pub end: usize,
    pub span: Span,
}

/// The graph under construction.
pub struct Builder {
    pub dialect: Dialect,
    pub elements: Vec<Elem>,
    pub scopes: Vec<Scope>,
    pub pending: Vec<PendingRef>,
    pub spec_targets: Vec<SpecTarget>,
    /// Specialization record the next created reference reports into.
    pub pending_spec_idx: Option<usize>,
    /// Exclusion of the references being created.
    pub pending_exclude: Option<usize>,
    /// Set while an enumeration's direct members are built.
    pub in_enum_body: bool,
    /// Featuring of the usage element about to be created.
    pub pending_featuring: bool,
    /// Direction its membership implies.
    pub pending_direction: Option<&'static str>,
    /// Metaclass of its owner.
    pub pending_owner_ty: Option<&'static str>,
    pub filter_exprs: Vec<(usize, Rc<Expr>)>,
    pub result_exprs: Vec<(usize, usize, Rc<Expr>)>,
    pub multiplicities: Vec<MultiplicityRecord>,
    pub connector_ends: Vec<ConnectorEndRecord>,
    pub chain_subsettings: Vec<ChainSubsetting>,
    pub satisfy_by: Vec<SatisfyBy>,
    pub user_imports: Vec<UserImport>,
}

#[verifier::ext_equal]
pub struct BV {
    pub dialect: Dialect,
    pub elements: Seq<ElemV>,
    pub scopes: Seq<ScopeV>,
    pub pending: Seq<PendingV>,
    pub spec_targets: Seq<SpecTargetV>,
    pub pending_spec_idx: Option<usize>,
    pub pending_exclude: Option<usize>,
    pub in_enum_body: bool,
    pub pending_featuring: bool,
    pub pending_direction: Option<Seq<char>>,
    pub pending_owner_ty: Option<Seq<char>>,
    pub filter_exprs: Seq<(usize, Rc<Expr>)>,
    pub result_exprs: Seq<(usize, usize, Rc<Expr>)>,
    pub multiplicities: Seq<MultiplicityRecord>,
    pub connector_ends: Seq<ConnectorEndRecord>,
    pub chain_subsettings: Seq<ChainSubsettingV>,
    pub satisfy_by: Seq<SatisfyByV>,
    pub user_imports: Seq<UserImport>,
}

pub open spec fn opt_str(s: Option<&'static str>) -> Option<Seq<char>> {
    match s {
        Some(x) => Some(x@),
        None => None,
    }
}

/// Whether the option holds the index `i`.
pub open spec fn is_at(o: Option<usize>, i: int) -> bool {
    o is Some && o->0 == i
}

/// Whether the list holds the index `i`.
pub open spec fn lists(s: Seq<usize>, i: int) -> bool {
    exists|k: int| 0 <= k < s.len() && #[trigger] s[k] == i
}

/// Whether an optional index, if there is one, is below `n`.
pub open spec fn below(o: Option<usize>, n: nat) -> bool {
    o is Some ==> o->0 < n
}

pub open spec fn all_below(s: Seq<usize>, n: nat) -> bool {
    forall|k: int| 0 <= k < s.len() ==> #[trigger] s[k] < n
}

pub open spec fn increasing(s: Seq<usize>) -> bool {
    forall|k: int, l: int| 0 <= k < l < s.len() ==> #[trigger] s[k] < #[trigger] s[l]
}

impl NotesV {
    /// Every index the notes hold is one of an element or scope.
    pub open spec fn ok(self, n: nat, ns: nat) -> bool {
        &&& below(self.scope, ns)
        &&& below(self.conjugated, n)
        &&& below(self.return_param, n)
        &&& all_below(self.metadata, n)
        &&& forall|k: int| 0 <= k < self.ctor_fields.len() ==> (#[trigger] self.ctor_fields[k]).1 < n
        &&& match self.value {
            Some((s, _)) => s < ns,
            None => true,
        }
        &&& match self.guard {
            Some((s, _)) => s < ns,
            None => true,
        }
    }
}

pub open spec fn bindings_ok(m: Map<Seq<char>, Seq<Binding>>, n: nat, ns: nat) -> bool {
    forall|name: Seq<char>, k: int| #![trigger m[name][k]]
        m.contains_key(name) && 0 <= k < m[name].len() ==> m[name][k].elem < n && below(
            m[name][k].sub_scope,
            ns,
        )
}

pub open spec fn imports_ok(s: Seq<ImportV>, n: nat, nf: nat) -> bool {
    forall|k: int| 0 <= k < s.len() ==> (#[trigger] s[k]).relationship < n && all_below(s[k].filters, nf)
}

impl ScopeV {
    /// Every index the scope holds is one of an element, scope or filter,
    /// and its parent was made before it.
    pub open spec fn ok(self, s: int, n: nat, ns: nat, nf: nat) -> bool {
        &&& (self.parent is Some ==> self.parent->0 < s)
        &&& below(self.owner, n)
        &&& bindings_ok(self.names, n, ns)
        &&& bindings_ok(self.effective_names, n, ns)
        &&& imports_ok(self.imports, n, nf)
        &&& imports_ok(self.member_imports, n, nf)
        &&& all_below(self.filters, nf)
        &&& forall|k: int| 0 <= k < self.implied_ends.len() ==> (#[trigger] self.implied_ends[k]).elem < n
            && self.implied_ends[k].scope < ns
    }
}

impl PendingV {
    pub open spec fn ok(self, n: nat, ns: nat, nt: nat) -> bool {
        self.elem < n && self.scope < ns && below(self.spec_idx, nt)
    }
}

impl BV {
    /// Number of elements.
    pub open spec fn n(self) -> nat {
        self.elements.len()
    }

    /// Number of scopes.
    pub open spec fn ns(self) -> nat {
        self.scopes.len()
    }

    /// The element's place in the ownership tree: it was made after what
    /// owns it, both directions of each ownership agree, and nothing is
    /// owned twice.
    pub open spec fn elem_ok(self, i: int) -> bool {
        let e = self.elements[i];
        &&& (e.owning is Some ==> e.owning->0 < i && lists(
            self.elements[e.owning->0 as int].children,
            i,
        ))
        &&& (e.carrier is Some ==> e.carrier->0 < i && lists(
            self.elements[e.carrier->0 as int].owned,
            i,
        ))
        &&& forall|k: int|
            0 <= k < e.owned.len() ==> i < #[trigger] e.owned[k] < self.n() && is_at(
                self.elements[e.owned[k] as int].carrier,
                i,
            )
        &&& forall|k: int|
            0 <= k < e.children.len() ==> i < #[trigger] e.children[k] < self.n() && is_at(
                self.elements[e.children[k] as int].owning,
                i,
            )
        &&& increasing(e.owned)
        &&& increasing(e.children)
        &&& e.notes.meta_next <= e.owned.len()
        &&& e.notes.ok(self.n(), self.ns())
    }

    /// The graph is a forest of owned elements in creation order, and every
    /// recorded index is valid.
    #[verifier::opaque]
    pub open spec fn wf(self) -> bool {
        &&& self.n() <= usize::MAX
        &&& self.ns() <= usize::MAX
        &&& forall|i: int| 0 <= i < self.n() ==> #[trigger] self.elem_ok(i)
        &&& forall|s: int|
            0 <= s < self.ns() ==> (#[trigger] self.scopes[s]).ok(
                s,
                self.n(),
                self.ns(),
                self.filter_exprs.len(),
            )
        &&& forall|k: int|
            0 <= k < self.pending.len() ==> (#[trigger] self.pending[k]).ok(
                self.n(),
                self.ns(),
                self.spec_targets.len(),
            )
        &&& forall|k: int|
            0 <= k < self.spec_targets.len() ==> (#[trigger] self.spec_targets[k]).elem < self.n()
                && self.spec_targets[k].scope < self.ns()
        &&& below(self.pending_spec_idx, self.spec_targets.len())
        &&& forall|k: int|
            0 <= k < self.filter_exprs.len() ==> (#[trigger] self.filter_exprs[k]).0 < self.ns()
        &&& forall|k: int|
            0 <= k < self.result_exprs.len() ==> (#[trigger] self.result_exprs[k]).0 < self.n()
                && self.result_exprs[k].1 < self.ns()
        &&& forall|k: int|
            0 <= k < self.multiplicities.len() ==> (#[trigger] self.multiplicities[k]).owner < self.n()
                && self.multiplicities[k].scope < self.ns()
        &&& forall|k: int|
            0 <= k < self.connector_ends.len() ==> (#[trigger] self.connector_ends[k]).connector < self.n()
                && self.connector_ends[k].end < self.n()
        &&& forall|k: int|
            0 <= k < self.chain_subsettings.len() ==> (#[trigger] self.chain_subsettings[k]).elem < self.n()
                && self.chain_subsettings[k].scope < self.ns()
        &&& forall|k: int|
            0 <= k < self.satisfy_by.len() ==> (#[trigger] self.satisfy_by[k]).elem < self.n()
                && self.satisfy_by[k].scope < self.ns()
        &&& forall|k: int|
            0 <= k < self.user_imports.len() ==> (#[trigger] self.user_imports[k]).relationship < self.n()
    }

    pub open spec fn with_elem(self, i: usize, e: ElemV) -> BV {
        BV { elements: self.elements.update(i as int, e), ..self }
    }

    pub open spec fn with_scope(self, s: usize, x: ScopeV) -> BV {
        BV { scopes: self.scopes.update(s as int, x), ..self }
    }

    /// The metaclass of an element.
    pub open spec fn ty(self, e: usize) -> Seq<char> {
        self.elements[e as int].ty
    }

    pub open spec fn elem_featuring(self, e: usize) -> bool {
        self.elements[e as int].notes.featuring == Some(true)
    }

    pub open spec fn elem_scope(self, e: usize) -> Option<usize> {
        self.elements[e as int].notes.scope
    }

    /// Set a property of an element.
    #[verifier::opaque]
    pub open spec fn set(self, e: usize, key: Seq<char>, v: ValueV) -> BV {
        self.with_elem(
            e,
            ElemV {
                props: self.elements[e as int].props.insert(key, v),
                ..self.elements[e as int]
            },
        )
    }

    #[verifier::opaque]
    pub open spec fn set_null(self, e: usize, key: Seq<char>) -> BV {
        self.set(e, key, ValueV::Null)
    }

    #[verifier::opaque]
    pub open spec fn set_bool(self, e: usize, key: Seq<char>, v: bool) -> BV {
        self.set(e, key, ValueV::Bool(v))
    }

    #[verifier::opaque]
    pub open spec fn set_str(self, e: usize, key: Seq<char>, v: Seq<char>) -> BV {
        self.set(e, key, ValueV::Str(v))
    }

    /// Set a property to the name's text, or to null without one.
    #[verifier::opaque]
    pub open spec fn set_name(self, e: usize, key: Seq<char>, v: Option<Name>) -> BV {
        self.set(e, key, match v { Some(n) => ValueV::Str(n.value@), None => ValueV::Null })
    }

    #[verifier::opaque]
    pub open spec fn set_opt_str(self, e: usize, key: Seq<char>, v: Option<String>) -> BV {
        self.set(e, key, match v { Some(n) => ValueV::Str(n@), None => ValueV::Null })
    }

    /// Point a property at another element.
    #[verifier::opaque]
    pub open spec fn set_link(self, e: usize, key: Seq<char>, target: usize) -> BV {
        self.set(e, key, ValueV::Ref(LinkV::Id(self.elements[target as int].id)))
    }

    /// Append a reference to a list property.
    #[verifier::opaque]
    pub open spec fn append_link(self, e: usize, key: Seq<char>, link: LinkV) -> BV {
        self.with_elem(e, ElemV {
            props: self.elements[e as int].props.insert(key, crate::props::appended(self.elements[e as int].props, key, link)),
            ..self.elements[e as int]
        })
    }

    /// Change an element's metaclass.
    #[verifier::opaque]
    pub open spec fn retype(self, e: usize, ty: Seq<char>) -> BV {
        self.with_elem(e, ElemV { ty, ..self.elements[e as int] })
    }

    pub open spec fn note(self, e: usize, notes: NotesV) -> BV {
        self.with_elem(e, ElemV { notes, ..self.elements[e as int] })
    }

    pub open spec fn notes(self, e: usize) -> NotesV {
        self.elements[e as int].notes
    }

    #[verifier::opaque]
    pub open spec fn set_hint(self, e: usize, hint: Seq<char>) -> BV {
        self.note(e, NotesV { hint: Some(hint), ..self.notes(e) })
    }

    #[verifier::opaque]
    pub open spec fn set_decl_span(self, e: usize, span: Span) -> BV {
        self.note(e, NotesV { decl_span: Some(span), ..self.notes(e) })
    }

    /// Record a member's extent on its element, unless one is recorded.
    #[verifier::opaque]
    pub open spec fn set_member_span(self, e: usize, span: Span) -> BV {
        if self.notes(e).member_span is Some { self } else { self.note(e, NotesV { member_span: Some(span), ..self.notes(e) }) }
    }

    #[verifier::opaque]
    pub open spec fn set_elem_scope(self, e: usize, scope: usize) -> BV {
        self.note(e, NotesV { scope: Some(scope), ..self.notes(e) })
    }

    #[verifier::opaque]
    pub open spec fn set_conjugated(self, e: usize, c: usize) -> BV {
        self.note(e, NotesV { conjugated: Some(c), ..self.notes(e) })
    }

    #[verifier::opaque]
    pub open spec fn set_featuring(self, e: usize, featuring: bool) -> BV {
        self.note(e, NotesV { featuring: Some(featuring), ..self.notes(e) })
    }

    #[verifier::opaque]
    pub open spec fn add_metadata(self, e: usize, m: usize) -> BV {
        self.note(e, NotesV { metadata: self.notes(e).metadata.push(m), ..self.notes(e) })
    }

    #[verifier::opaque]
    pub open spec fn set_value(self, e: usize, scope: usize, expr: Rc<Expr>) -> BV {
        self.note(e, NotesV { value: Some((scope, expr)), ..self.notes(e) })
    }

    #[verifier::opaque]
    pub open spec fn mark_default(self, e: usize) -> BV {
        self.note(e, NotesV { default_value: true, ..self.notes(e) })
    }

    #[verifier::opaque]
    pub open spec fn set_guard(self, e: usize, scope: usize, expr: Rc<Expr>) -> BV {
        self.note(e, NotesV { guard: Some((scope, expr)), ..self.notes(e) })
    }

    #[verifier::opaque]
    pub open spec fn add_in_param(self, e: usize, name: Seq<char>) -> BV {
        self.note(e, NotesV { in_params: self.notes(e).in_params.push(name), ..self.notes(e) })
    }

    #[verifier::opaque]
    pub open spec fn add_ctor_field(self, e: usize, name: Seq<char>, field: usize) -> BV {
        self.note(e, NotesV { ctor_fields: self.notes(e).ctor_fields.push((name, field)), ..self.notes(e) })
    }

    #[verifier::opaque]
    pub open spec fn set_return_param(self, e: usize, p: usize) -> BV {
        self.note(e, NotesV { return_param: Some(p), ..self.notes(e) })
    }

    #[verifier::opaque]
    pub open spec fn set_identification(self, e: usize, id: Identification) -> BV {
        let b = match id.name {
            Some(n) => self.set_decl_span(e, n.span),
            None => match id.short_name {
                Some(n) => self.set_decl_span(e, n.span),
                None => self,
            },
        };
        b.set_name(e, "declaredName"@, id.name).set_name(e, "declaredShortName"@, id.short_name)
    }

    /// Create a document root.
    #[verifier::opaque]
    pub open spec fn new_root(self, ty: Seq<char>, path: Seq<char>) -> (BV, usize) {
        (BV {
            elements: self.elements.push(ElemV {
                ty, id: path_id(path), path, props: Map::empty(), owned: Seq::empty(),
                children: Seq::empty(), owning: None, carrier: None, notes: no_notes(),
            }),
            ..self
        }, self.n() as usize)
    }

    /// Create a relationship owned by `owner`.
    #[verifier::opaque]
    pub open spec fn new_relationship(
        self,
        ty: Seq<char>,
        owner: usize,
        seg: Seq<char>,
    ) -> (BV, usize) {
        let o = self.elements[owner as int];
        let path = o.path + "/"@ + seg;
        let idx = self.n() as usize;
        (BV {
            elements: self.elements.update(owner as int, ElemV { owned: o.owned.push(idx), ..o }).push(ElemV {
                ty, id: path_id(path), path,
                props: Map::<Seq<char>, ValueV>::empty().insert("owningRelatedElement"@, ValueV::Ref(LinkV::Id(o.id))),
                owned: Seq::empty(), children: Seq::empty(), owning: None, carrier: Some(owner), notes: no_notes(),
            }),
            ..self
        }, idx)
    }

    /// Create an element owned through the relationship `rel`.
    #[verifier::opaque]
    pub open spec fn new_owned_element(
        self,
        ty: Seq<char>,
        rel: usize,
        seg: Seq<char>,
    ) -> (BV, usize) {
        let r = self.elements[rel as int];
        let path = r.path + "/"@ + seg;
        let idx = self.n() as usize;
        (BV {
            elements: self.elements.update(rel as int, ElemV { children: r.children.push(idx), ..r }).push(ElemV {
                ty, id: path_id(path), path, props: Map::empty(),
                owned: Seq::empty(), children: Seq::empty(), owning: Some(rel), carrier: None, notes: no_notes(),
            }),
            ..self
        }, idx)
    }

    /// Create the next prefix-metadata membership of `owner`; also answers
    /// its number.
    #[verifier::opaque]
    pub open spec fn new_prefix_membership(self, owner: usize) -> (BV, usize, usize) {
        let i = self.notes(owner).meta_next;
        let (b, rel) = self.new_relationship("OwningMembership"@, owner, numbered("prefixmeta"@, i));
        (b.note(owner, NotesV { meta_next: (i + 1) as usize, ..b.notes(owner) }), rel, i)
    }

    #[verifier::opaque]
    pub open spec fn push_scope(self, parent: Option<usize>) -> (BV, usize) {
        (BV { scopes: self.scopes.push(empty_scope(parent)), ..self }, self.ns() as usize)
    }

    pub open spec fn edit_scope(self, s: usize, x: ScopeV) -> BV {
        self.with_scope(s, x)
    }

    pub open spec fn scope(self, s: usize) -> ScopeV {
        self.scopes[s as int]
    }

    #[verifier::opaque]
    pub open spec fn set_scope_owner(self, s: usize, owner: usize) -> BV {
        self.edit_scope(s, ScopeV { owner: Some(owner), ..self.scope(s) })
    }

    #[verifier::opaque]
    pub open spec fn push_base(self, s: usize, qn: QnV) -> BV {
        self.edit_scope(s, ScopeV { bases: self.scope(s).bases.push(qn), ..self.scope(s) })
    }

    #[verifier::opaque]
    pub open spec fn push_chain_base(self, s: usize, links: Seq<QnV>) -> BV {
        self.edit_scope(s, ScopeV { chain_bases: self.scope(s).chain_bases.push(links), ..self.scope(s) })
    }

    #[verifier::opaque]
    pub open spec fn push_import(self, s: usize, x: ImportV) -> BV {
        self.edit_scope(s, ScopeV { imports: self.scope(s).imports.push(x), ..self.scope(s) })
    }

    #[verifier::opaque]
    pub open spec fn push_member_import(self, s: usize, x: ImportV) -> BV {
        self.edit_scope(s, ScopeV { member_imports: self.scope(s).member_imports.push(x), ..self.scope(s) })
    }

    #[verifier::opaque]
    pub open spec fn push_alias(
        self,
        s: usize,
        name: Seq<char>,
        target: QnV,
        is_public: bool,
    ) -> BV {
        self.edit_scope(
            s,
            ScopeV {
                aliases: self.scope(s).aliases.push(AliasV { name, target, is_public }),
                ..self.scope(s)
            },
        )
    }

    #[verifier::opaque]
    pub open spec fn push_implied_end(
        self,
        s: usize,
        name: Seq<char>,
        elem: usize,
        scope: usize,
    ) -> BV {
        self.edit_scope(
            s,
            ScopeV {
                implied_ends: self.scope(s).implied_ends.push(ImpliedEndV { name, elem, scope }),
                ..self.scope(s)
            },
        )
    }

    #[verifier::opaque]
    pub open spec fn add_name(self, s: usize, name: Seq<char>, binding: Binding) -> BV {
        self.edit_scope(s, ScopeV { names: bind(self.scope(s).names, name, binding), ..self.scope(s) })
    }

    #[verifier::opaque]
    pub open spec fn add_effective_name(self, s: usize, name: Seq<char>, binding: Binding) -> BV {
        self.edit_scope(
            s,
            ScopeV {
                effective_names: bind(self.scope(s).effective_names, name, binding),
                ..self.scope(s)
            },
        )
    }

    /// The visibility a membership spells; public unless it spells one.
    #[verifier::opaque]
    pub open spec fn spelled_visibility(self, rel: usize) -> LookupAccess {
        let m = self.elements[rel as int].props;
        if m.contains_key("visibility"@) && m["visibility"@].as_str() == Some("private"@) {
            LookupAccess::All
        } else if m.contains_key("visibility"@) && m["visibility"@].as_str() == Some("protected"@) {
            LookupAccess::Protected
        } else {
            LookupAccess::Public
        }
    }

    /// The visibility of the membership that owns an element.
    #[verifier::opaque]
    pub open spec fn member_visibility(self, e: usize) -> LookupAccess {
        match self.elements[e as int].owning {
            Some(r) => self.spelled_visibility(r),
            None => LookupAccess::Public,
        }
    }

    /// Register an element's names in `scope`, with its body scope.
    #[verifier::opaque]
    pub open spec fn register(self, scope: usize, id: Identification, e: usize, sub: usize) -> BV {
        let binding = Binding { elem: e, sub_scope: Some(sub), visibility: self.member_visibility(e) };
        let b = match id.name { Some(n) => self.add_name(scope, n.value@, binding), None => self };
        let b = match id.short_name { Some(n) => b.add_name(scope, n.value@, binding), None => b };
        b.set_elem_scope(e, sub).set_scope_owner(sub, e)
    }

    #[verifier::opaque]
    pub open spec fn push_pending(self, p: PendingV) -> BV {
        BV { pending: self.pending.push(p), ..self }
    }

    /// Record a reference by name: the specialization record in force, if
    /// any, is used up.
    #[verifier::opaque]
    pub open spec fn ref_name(
        self,
        e: usize,
        key: Seq<char>,
        index: Option<usize>,
        scope: usize,
        qn: QnV,
        exclude: Option<usize>,
    ) -> BV {
        self.set_spec_idx(None).push_pending(PendingV {
            elem: e, key, index, scope, qn,
            exclude: if exclude is Some { exclude } else { self.pending_exclude },
            declared_only: false, chain: None, spec_idx: self.pending_spec_idx,
        })
    }

    #[verifier::opaque]
    pub open spec fn set_spec_idx(self, i: Option<usize>) -> BV {
        BV { pending_spec_idx: i, ..self }
    }

    #[verifier::opaque]
    pub open spec fn add_spec_target(self, e: usize, kind: Seq<char>, scope: usize, qn: QnV) -> BV {
        BV { spec_targets: self.spec_targets.push(SpecTargetV { elem: e, kind, scope, qn }), ..self }
    }

    /// Record a specialization whose reference comes next.
    #[verifier::opaque]
    pub open spec fn announce_spec_target(
        self,
        e: usize,
        kind: Seq<char>,
        scope: usize,
        qn: QnV,
    ) -> BV {
        BV {
            spec_targets: self.spec_targets.push(SpecTargetV { elem: e, kind, scope, qn }),
            pending_spec_idx: Some(self.spec_targets.len() as usize),
            ..self
        }
    }

    #[verifier::opaque]
    pub open spec fn set_exclude(self, v: Option<usize>) -> BV {
        BV { pending_exclude: v, ..self }
    }

    #[verifier::opaque]
    pub open spec fn set_in_enum_body(self, v: bool) -> BV {
        BV { in_enum_body: v, ..self }
    }

    #[verifier::opaque]
    pub open spec fn set_pending_featuring(self, v: bool) -> BV {
        BV { pending_featuring: v, ..self }
    }

    #[verifier::opaque]
    pub open spec fn set_dialect(self, v: Dialect) -> BV {
        BV { dialect: v, ..self }
    }

    #[verifier::opaque]
    pub open spec fn set_pending_direction(self, v: Option<Seq<char>>) -> BV {
        BV { pending_direction: v, ..self }
    }

    #[verifier::opaque]
    pub open spec fn set_pending_owner_ty(self, v: Option<Seq<char>>) -> BV {
        BV { pending_owner_ty: v, ..self }
    }

    #[verifier::opaque]
    pub open spec fn push_filter_expr(self, scope: usize, expr: Rc<Expr>) -> BV {
        BV { filter_exprs: self.filter_exprs.push((scope, expr)), ..self }
    }

    /// Make a recorded filter expression a condition of `s`.
    #[verifier::opaque]
    pub open spec fn push_scope_filter(self, s: usize, f: usize) -> BV {
        self.with_scope(s, ScopeV { filters: self.scope(s).filters.push(f), ..self.scope(s) })
    }

    #[verifier::opaque]
    pub open spec fn push_result_expr(self, e: usize, scope: usize, expr: Rc<Expr>) -> BV {
        BV { result_exprs: self.result_exprs.push((e, scope, expr)), ..self }
    }

    #[verifier::opaque]
    pub open spec fn push_multiplicity(
        self,
        owner: usize,
        scope: usize,
        lower: Option<Rc<Expr>>,
        upper: Rc<Expr>,
    ) -> BV {
        BV { multiplicities: self.multiplicities.push(MultiplicityRecord { owner, scope, lower, upper }), ..self }
    }

    #[verifier::opaque]
    pub open spec fn push_connector_end(self, connector: usize, end: usize, span: Span) -> BV {
        BV { connector_ends: self.connector_ends.push(ConnectorEndRecord { connector, end, span }), ..self }
    }

    #[verifier::opaque]
    pub open spec fn push_chain_subsetting(
        self,
        e: usize,
        scope: usize,
        links: Seq<QnV>,
        span: Span,
    ) -> BV {
        BV { chain_subsettings: self.chain_subsettings.push(ChainSubsettingV { elem: e, scope, links, span }), ..self }
    }

    #[verifier::opaque]
    pub open spec fn push_satisfy_by(self, e: usize, scope: usize, by: TargetV) -> BV {
        BV { satisfy_by: self.satisfy_by.push(SatisfyByV { elem: e, scope, by }), ..self }
    }

    #[verifier::opaque]
    pub open spec fn push_user_import(self, relationship: usize, span: Span, private: bool) -> BV {
        BV { user_imports: self.user_imports.push(UserImport { relationship, span, private }), ..self }
    }
}

/// Changing an element outside its place in the ownership tree keeps the
/// graph well formed.
proof fn lemma_elem_change(a: BV, i: usize, x: ElemV)
    requires
        a.wf(),
        i < a.n(),
        x.owned == a.elements[i as int].owned,
        x.children == a.elements[i as int].children,
        x.owning == a.elements[i as int].owning,
        x.carrier == a.elements[i as int].carrier,
        x.notes.ok(a.n(), a.ns()),
        x.notes.meta_next <= x.owned.len(),
    ensures
        a.with_elem(i, x).wf(),
{
    reveal(BV::wf);
    let b = a.with_elem(i, x);
    assert forall|j: int| 0 <= j < b.n() implies #[trigger] b.elem_ok(j) by {
        assert(a.elem_ok(j));
        let e = b.elements[j];
        assert(e.owned == a.elements[j].owned && e.children == a.elements[j].children);
        assert forall|k: int| 0 <= k < e.owned.len() implies j < #[trigger] e.owned[k] < b.n() && is_at(
            b.elements[e.owned[k] as int].carrier,
            j,
        ) by {
            assert(j < a.elements[j].owned[k] < a.n());
        }
        assert forall|k: int| 0 <= k < e.children.len() implies j < #[trigger] e.children[k] < b.n() && is_at(
            b.elements[e.children[k] as int].owning,
            j,
        ) by {
            assert(j < a.elements[j].children[k] < a.n());
        }
    }
}

/// Changing a scope's contents keeps the graph well formed where the scope
/// stays so.
proof fn lemma_scope_change(a: BV, s: usize, x: ScopeV)
    requires
        a.wf(),
        s < a.ns(),
        x.ok(s as int, a.n(), a.ns(), a.filter_exprs.len()),
    ensures
        a.with_scope(s, x).wf(),
{
    reveal(BV::wf);
    let b = a.with_scope(s, x);
    assert forall|j: int| 0 <= j < b.n() implies #[trigger] b.elem_ok(j) by {
        assert(a.elem_ok(j));
    }
}

/// The graph with a fresh element `x` whose place is `x.owning` or
/// `x.carrier` is well formed.
pub proof fn lemma_new_element(a: BV, b: BV, x: ElemV)
    requires
        a.wf(),
        a.n() < usize::MAX,
        x.owned.len() == 0,
        x.children.len() == 0,
        x.notes == no_notes(),
        b == (BV { elements: b.elements, ..a }),
        b.elements.len() == a.n() + 1,
        b.elements[a.n() as int] == x,
        forall|j: int|
            0 <= j < a.n() ==> (#[trigger] b.elements[j]) == (ElemV {
                owned: b.elements[j].owned,
                children: b.elements[j].children,
                ..a.elements[j]
            }),
        forall|j: int|
            0 <= j < a.n() ==> if is_at(x.carrier, j) {
                (#[trigger] b.elements[j]).owned == a.elements[j].owned.push(a.n() as usize)
            } else {
                b.elements[j].owned == a.elements[j].owned
            },
        forall|j: int|
            0 <= j < a.n() ==> if is_at(x.owning, j) {
                (#[trigger] b.elements[j]).children == a.elements[j].children.push(a.n() as usize)
            } else {
                b.elements[j].children == a.elements[j].children
            },
        below(x.owning, a.n()),
        below(x.carrier, a.n()),
    ensures
        b.wf(),
{
    reveal(BV::wf);
    let n = a.n() as int;
    assert forall|j: int| 0 <= j < b.n() implies #[trigger] b.elem_ok(j) by {
        if j < n {
            assert(a.elem_ok(j));
            let e = b.elements[j];
            let o = a.elements[j];
            assert forall|k: int| 0 <= k < e.owned.len() implies j < #[trigger] e.owned[k] < b.n() && is_at(
                b.elements[e.owned[k] as int].carrier,
                j,
            ) by {
                if k < o.owned.len() {
                    assert(e.owned[k] == o.owned[k]);
                    assert(j < o.owned[k] < n);
                    assert(b.elements[o.owned[k] as int].carrier == a.elements[o.owned[k] as int].carrier);
                }
            }
            assert forall|k: int| 0 <= k < e.children.len() implies j < #[trigger] e.children[k] < b.n() && is_at(
                b.elements[e.children[k] as int].owning,
                j,
            ) by {
                if k < o.children.len() {
                    assert(e.children[k] == o.children[k]);
                    assert(j < o.children[k] < n);
                    assert(
                        b.elements[o.children[k] as int].owning == a.elements[o.children[k] as int].owning
                    );
                }
            }
            assert(increasing(e.owned)) by {
                assert forall|k: int, l: int| 0 <= k < l < e.owned.len() implies #[trigger] e.owned[k] < #[trigger] e.owned[l] by {
                    assert(e.owned[k] == o.owned[k]);
                    assert(o.owned[k] < n);
                    if l < o.owned.len() {
                        assert(e.owned[l] == o.owned[l]);
                    }
                }
            }
            assert(increasing(e.children)) by {
                assert forall|k: int, l: int| 0 <= k < l < e.children.len() implies #[trigger] e.children[k] < #[trigger] e.children[l] by {
                    assert(e.children[k] == o.children[k]);
                    assert(o.children[k] < n);
                    if l < o.children.len() {
                        assert(e.children[l] == o.children[l]);
                    }
                }
            }
            if o.owning is Some {
                let p = o.owning->0 as int;
                let k = choose|k: int| 0 <= k < a.elements[p].children.len() && #[trigger] a.elements[p].children[k] == j;
                assert(b.elements[p].children[k] == j);
                assert(lists(b.elements[p].children, j));
            }
            if o.carrier is Some {
                let p = o.carrier->0 as int;
                let k = choose|k: int| 0 <= k < a.elements[p].owned.len() && #[trigger] a.elements[p].owned[k] == j;
                assert(b.elements[p].owned[k] == j);
                assert(lists(b.elements[p].owned, j));
            }
            assert(e.notes.ok(b.n(), b.ns()));
        } else {
            if x.owning is Some {
                let p = x.owning->0 as int;
                assert(b.elements[p].children[a.elements[p].children.len() as int] == n);
                assert(lists(b.elements[p].children, n));
            }
            if x.carrier is Some {
                let p = x.carrier->0 as int;
                assert(b.elements[p].owned[a.elements[p].owned.len() as int] == n);
                assert(lists(b.elements[p].owned, n));
            }
        }
    }
    assert forall|s: int| 0 <= s < b.ns() implies (#[trigger] b.scopes[s]).ok(
        s,
        b.n(),
        b.ns(),
        b.filter_exprs.len(),
    ) by {
        assert(a.scopes[s].ok(s, a.n(), a.ns(), a.filter_exprs.len()));
    }
    assert forall|k: int| 0 <= k < b.pending.len() implies (#[trigger] b.pending[k]).ok(
        b.n(),
        b.ns(),
        b.spec_targets.len(),
    ) by {
        assert(a.pending[k].ok(a.n(), a.ns(), a.spec_targets.len()));
    }
}

/// Opening a scope inside an existing one keeps the graph well formed.
proof fn lemma_new_scope(a: BV, b: BV, parent: Option<usize>)
    requires
        a.wf(),
        below(parent, a.ns()),
        b == (BV { scopes: a.scopes.push(empty_scope(parent)), ..a }),
        b.ns() <= usize::MAX,
    ensures
        b.wf(),
{
    reveal(BV::wf);
    assert forall|j: int| 0 <= j < b.n() implies #[trigger] b.elem_ok(j) by {
        assert(a.elem_ok(j));
    }
    assert forall|s: int| 0 <= s < b.ns() implies (#[trigger] b.scopes[s]).ok(
        s,
        b.n(),
        b.ns(),
        b.filter_exprs.len(),
    ) by {
        if s < a.ns() {
            assert(a.scopes[s].ok(s, a.n(), a.ns(), a.filter_exprs.len()));
            assert(b.scopes[s] == a.scopes[s]);
        } else {
            assert(b.scopes[s] == empty_scope(parent));
        }
    }
    assert forall|k: int| 0 <= k < b.pending.len() implies (#[trigger] b.pending[k]).ok(
        b.n(),
        b.ns(),
        b.spec_targets.len(),
    ) by {
        assert(a.pending[k].ok(a.n(), a.ns(), a.spec_targets.len()));
    }
}

/// Adding records leaves the elements, scopes and earlier references in
/// order.
pub proof fn lemma_records(a: BV, b: BV)
    requires
        a.wf(),
        b.elements == a.elements,
        b.scopes == a.scopes,
        b.spec_targets.len() >= a.spec_targets.len(),
        b.filter_exprs.len() >= a.filter_exprs.len(),
    ensures
        forall|j: int| 0 <= j < b.n() ==> #[trigger] b.elem_ok(j),
        forall|s: int|
            0 <= s < b.ns() ==> (#[trigger] b.scopes[s]).ok(s, b.n(), b.ns(), b.filter_exprs.len()),
        forall|k: int|
            0 <= k < a.pending.len() ==> (#[trigger] a.pending[k]).ok(
                b.n(),
                b.ns(),
                b.spec_targets.len(),
            ),
{
    reveal(BV::wf);
    assert forall|j: int| 0 <= j < b.n() implies #[trigger] b.elem_ok(j) by {
        assert(a.elem_ok(j));
    }
    assert forall|s: int| 0 <= s < b.ns() implies (#[trigger] b.scopes[s]).ok(
        s,
        b.n(),
        b.ns(),
        b.filter_exprs.len(),
    ) by {
        assert(a.scopes[s].ok(s, a.n(), a.ns(), a.filter_exprs.len()));
    }
}

/// Facts of one element of a well-formed graph.
pub proof fn lemma_elem_ok(b: BV, i: int)
    requires
        b.wf(),
        0 <= i < b.n(),
    ensures
        b.elem_ok(i),
        b.n() <= usize::MAX,
{
    reveal(BV::wf);
}

/// Facts of one scope of a well-formed graph.
pub proof fn lemma_scope_ok(b: BV, s: int)
    requires
        b.wf(),
        0 <= s < b.ns(),
    ensures
        b.scopes[s].ok(s, b.n(), b.ns(), b.filter_exprs.len()),
{
    reveal(BV::wf);
}

impl Builder {
    #[verifier::opaque]
    pub open spec fn view(&self) -> BV {
        BV {
            dialect: self.dialect,
            elements: elems_view(self.elements@),
            scopes: scopes_view(self.scopes@),
            pending: pendings_view(self.pending@),
            spec_targets: spec_targets_view(self.spec_targets@),
            pending_spec_idx: self.pending_spec_idx,
            pending_exclude: self.pending_exclude,
            in_enum_body: self.in_enum_body,
            pending_featuring: self.pending_featuring,
            pending_direction: opt_str(self.pending_direction),
            pending_owner_ty: opt_str(self.pending_owner_ty),
            filter_exprs: self.filter_exprs@,
            result_exprs: self.result_exprs@,
            multiplicities: self.multiplicities@,
            connector_ends: self.connector_ends@,
            chain_subsettings: chain_subsettings_view(self.chain_subsettings@),
            satisfy_by: satisfy_by_view(self.satisfy_by@),
            user_imports: self.user_imports@,
        }
    }

    /// An empty graph.
    pub fn new(dialect: Dialect) -> (r: Builder)
        ensures
            r@ == empty_graph(dialect),
            r@.wf(),
            r@.n() == 0,
            r@.ns() == 0,
    {
        proof {
            reveal(Builder::view);
        }
        let r = Builder {
            dialect,
            elements: Vec::new(),
            scopes: Vec::new(),
            pending: Vec::new(),
            spec_targets: Vec::new(),
            pending_spec_idx: None,
            pending_exclude: None,
            in_enum_body: false,
            pending_featuring: false,
            pending_direction: None,
            pending_owner_ty: None,
            filter_exprs: Vec::new(),
            result_exprs: Vec::new(),
            multiplicities: Vec::new(),
            connector_ends: Vec::new(),
            chain_subsettings: Vec::new(),
            satisfy_by: Vec::new(),
            user_imports: Vec::new(),
        };
        assert(r@ =~= empty_graph(dialect));
        proof {
            reveal(BV::wf);
        }
        r
    }

    pub fn read_dialect(&self) -> (r: Dialect)
        ensures
            r == self@.dialect,
    {
        proof {
            reveal(Builder::view);
        }
        self.dialect
    }

    pub fn read_in_enum_body(&self) -> (r: bool)
        ensures
            r == self@.in_enum_body,
    {
        proof {
            reveal(Builder::view);
        }
        self.in_enum_body
    }

    pub fn read_pending_exclude(&self) -> (r: Option<usize>)
        ensures
            r == self@.pending_exclude,
    {
        proof {
            reveal(Builder::view);
        }
        self.pending_exclude
    }

    pub fn read_pending_featuring(&self) -> (r: bool)
        ensures
            r == self@.pending_featuring,
    {
        proof {
            reveal(Builder::view);
        }
        self.pending_featuring
    }

    pub fn read_pending_direction(&self) -> (r: Option<&'static str>)
        ensures
            opt_str(r) == self@.pending_direction,
    {
        proof {
            reveal(Builder::view);
        }
        self.pending_direction
    }

    pub fn read_pending_owner_ty(&self) -> (r: Option<&'static str>)
        ensures
            opt_str(r) == self@.pending_owner_ty,
    {
        proof {
            reveal(Builder::view);
        }
        self.pending_owner_ty
    }

    /// How many filter expressions are recorded.
    pub fn filter_count(&self) -> (r: usize)
        ensures
            r == self@.filter_exprs.len(),
    {
        proof {
            reveal(Builder::view);
        }
        self.filter_exprs.len()
    }

    /// How many elements there are.
    pub fn count(&self) -> (r: usize)
        ensures
            r == self@.n(),
    {
        proof {
            reveal(Builder::view);
        }
        self.elements.len()
    }

    /// How many scopes there are.
    pub fn scope_count(&self) -> (r: usize)
        ensures
            r == self@.ns(),
    {
        proof {
            reveal(Builder::view);
        }
        self.scopes.len()
    }

    /// The relationship that owns an element.
    pub fn owning(&self, e: usize) -> (r: Option<usize>)
        requires
            e < self@.n(),
        ensures
            r == self@.elements[e as int].owning,
    {
        proof {
            reveal(Builder::view);
        }
        self.elements[e].owning
    }

    pub fn decl_span(&self, e: usize) -> (r: Option<Span>)
        requires
            e < self@.n(),
        ensures
            r == self@.elements[e as int].notes.decl_span,
    {
        proof {
            reveal(Builder::view);
        }
        self.elements[e].notes.decl_span
    }

    /// The metaclass of an element.
    pub fn ty(&self, e: usize) -> (r: &'static str)
        requires
            e < self@.n(),
        ensures
            r@ == self@.ty(e),
    {
        proof {
            reveal(Builder::view);
        }
        self.elements[e].ty
    }

    /// An element's body scope.
    pub fn elem_scope(&self, e: usize) -> (r: Option<usize>)
        requires
            e < self@.n(),
        ensures
            r == self@.elem_scope(e),
            self@.wf() ==> below(r, self@.ns()),
    {
        proof {
            reveal(Builder::view);
        }
        proof {
            if self@.wf() {
                lemma_elem_ok(self@, e as int);
            }
        }
        self.elements[e].notes.scope
    }

    pub fn elem_featuring(&self, e: usize) -> (r: bool)
        requires
            e < self@.n(),
        ensures
            r == self@.elem_featuring(e),
    {
        proof {
            reveal(Builder::view);
        }
        match self.elements[e].notes.featuring {
            Some(b) => b,
            None => false,
        }
    }

    pub fn set(&mut self, e: usize, key: &'static str, v: Value)
        requires
            old(self)@.wf(),
            e < old(self)@.n(),
        ensures
            final(self)@ == old(self)@.set(e, key@, v@),
            final(self)@.wf(),
            final(self)@.n() == old(self)@.n(),
            final(self)@.ns() == old(self)@.ns(),
    {
        proof {
            reveal(BV::set);
            reveal(Builder::view);
        }
        let ghost x = ElemV {
            props: self@.elements[e as int].props.insert(key@, v@),
            ..self@.elements[e as int]
        };
        proof {
            lemma_elem_ok(self@, e as int);
            lemma_elem_change(self@, e, x);
        }
        self.elements[e].props.insert(key, v);
        assert(elems_view(self.elements@) =~= elems_view(old(self).elements@).update(e as int, x));
    }

    pub fn append_link(&mut self, e: usize, key: &'static str, link: Link)
        requires
            old(self)@.wf(),
            e < old(self)@.n(),
        ensures
            final(self)@ == old(self)@.append_link(e, key@, link@),
            final(self)@.wf(),
            final(self)@.n() == old(self)@.n(),
            final(self)@.ns() == old(self)@.ns(),
    {
        proof {
            reveal(BV::append_link);
            reveal(Builder::view);
        }
        let ghost x = ElemV {
            props: self@.elements[e as int].props.insert(
                key@,
                crate::props::appended(self@.elements[e as int].props, key@, link@),
            ),
            ..self@.elements[e as int]
        };
        proof {
            lemma_elem_ok(self@, e as int);
            lemma_elem_change(self@, e, x);
        }
        self.elements[e].props.append(key, link);
        assert(elems_view(self.elements@) =~= elems_view(old(self).elements@).update(e as int, x));
    }

    pub fn retype(&mut self, e: usize, ty: &'static str)
        requires
            old(self)@.wf(),
            e < old(self)@.n(),
        ensures
            final(self)@ == old(self)@.retype(e, ty@),
            final(self)@.wf(),
            final(self)@.n() == old(self)@.n(),
            final(self)@.ns() == old(self)@.ns(),
    {
        proof {
            reveal(BV::retype);
            reveal(Builder::view);
        }
        let ghost x = ElemV { ty: ty@, ..self@.elements[e as int] };
        proof {
            lemma_elem_ok(self@, e as int);
            lemma_elem_change(self@, e, x);
        }
        self.elements[e].ty = ty;
        assert(elems_view(self.elements@) =~= elems_view(old(self).elements@).update(e as int, x));
    }

    pub fn set_null(&mut self, e: usize, key: &'static str)
        requires
            old(self)@.wf(),
            e < old(self)@.n(),
        ensures
            final(self)@ == old(self)@.set_null(e, key@),
            final(self)@.wf(),
            final(self)@.n() == old(self)@.n(),
            final(self)@.ns() == old(self)@.ns(),
    {
        proof {
            reveal(BV::set_null);
            reveal(Builder::view);
        }
        self.set(e, key, Value::Null);
    }

    pub fn set_bool(&mut self, e: usize, key: &'static str, v: bool)
        requires
            old(self)@.wf(),
            e < old(self)@.n(),
        ensures
            final(self)@ == old(self)@.set_bool(e, key@, v),
            final(self)@.wf(),
            final(self)@.n() == old(self)@.n(),
            final(self)@.ns() == old(self)@.ns(),
    {
        proof {
            reveal(BV::set_bool);
            reveal(Builder::view);
        }
        self.set(e, key, Value::Bool(v));
    }

    pub fn set_str(&mut self, e: usize, key: &'static str, v: &str)
        requires
            old(self)@.wf(),
            e < old(self)@.n(),
        ensures
            final(self)@ == old(self)@.set_str(e, key@, v@),
            final(self)@.wf(),
            final(self)@.n() == old(self)@.n(),
            final(self)@.ns() == old(self)@.ns(),
    {
        proof {
            reveal(BV::set_str);
            reveal(Builder::view);
        }
        self.set(e, key, Value::Str(v.to_owned()));
    }

    pub fn set_name(&mut self, e: usize, key: &'static str, v: &Option<Name>)
        requires
            old(self)@.wf(),
            e < old(self)@.n(),
        ensures
            final(self)@ == old(self)@.set_name(e, key@, *v),
            final(self)@.wf(),
            final(self)@.n() == old(self)@.n(),
            final(self)@.ns() == old(self)@.ns(),
    {
        proof {
            reveal(BV::set_name);
            reveal(Builder::view);
        }
        match v {
            Some(n) => self.set(e, key, Value::Str(n.value.clone())),
            None => self.set(e, key, Value::Null),
        }
    }

    pub fn set_opt_str(&mut self, e: usize, key: &'static str, v: &Option<String>)
        requires
            old(self)@.wf(),
            e < old(self)@.n(),
        ensures
            final(self)@ == old(self)@.set_opt_str(e, key@, *v),
            final(self)@.wf(),
            final(self)@.n() == old(self)@.n(),
            final(self)@.ns() == old(self)@.ns(),
    {
        proof {
            reveal(BV::set_opt_str);
            reveal(Builder::view);
        }
        match v {
            Some(n) => self.set(e, key, Value::Str(n.clone())),
            None => self.set(e, key, Value::Null),
        }
    }

    pub fn set_link(&mut self, e: usize, key: &'static str, target: usize)
        requires
            old(self)@.wf(),
            e < old(self)@.n(),
            target < old(self)@.n(),
        ensures
            final(self)@ == old(self)@.set_link(e, key@, target),
            final(self)@.wf(),
            final(self)@.n() == old(self)@.n(),
            final(self)@.ns() == old(self)@.ns(),
    {
        proof {
            reveal(BV::set_link);
            reveal(Builder::view);
        }
        let id: u128 = self.elements[target].id;
        self.set(e, key, Value::Ref(Link::Id(id)));
    }

    pub fn set_hint(&mut self, e: usize, hint: &str)
        requires
            old(self)@.wf(),
            e < old(self)@.n(),
        ensures
            final(self)@ == old(self)@.set_hint(e, hint@),
            final(self)@.wf(),
            final(self)@.n() == old(self)@.n(),
            final(self)@.ns() == old(self)@.ns(),
    {
        proof {
            reveal(BV::set_hint);
            reveal(Builder::view);
        }
        let ghost y = NotesV { hint: Some(hint@), ..self@.notes(e) };
        let ghost x = ElemV { notes: y, ..self@.elements[e as int] };
        proof {
            lemma_elem_ok(self@, e as int);
            lemma_elem_change(self@, e, x);
        }
        self.elements[e].notes.hint = Some(hint.to_owned());
        assert(self.elements@[e as int].notes@ =~= y);
        assert(elems_view(self.elements@) =~= elems_view(old(self).elements@).update(e as int, x));
    }

    pub fn set_decl_span(&mut self, e: usize, span: Span)
        requires
            old(self)@.wf(),
            e < old(self)@.n(),
        ensures
            final(self)@ == old(self)@.set_decl_span(e, span),
            final(self)@.wf(),
            final(self)@.n() == old(self)@.n(),
            final(self)@.ns() == old(self)@.ns(),
    {
        proof {
            reveal(BV::set_decl_span);
            reveal(Builder::view);
        }
        let ghost y = NotesV { decl_span: Some(span), ..self@.notes(e) };
        let ghost x = ElemV { notes: y, ..self@.elements[e as int] };
        proof {
            lemma_elem_ok(self@, e as int);
            lemma_elem_change(self@, e, x);
        }
        self.elements[e].notes.decl_span = Some(span);
        assert(self.elements@[e as int].notes@ =~= y);
        assert(elems_view(self.elements@) =~= elems_view(old(self).elements@).update(e as int, x));
    }

    pub fn set_member_span(&mut self, e: usize, span: Span)
        requires
            old(self)@.wf(),
            e < old(self)@.n(),
        ensures
            final(self)@ == old(self)@.set_member_span(e, span),
            final(self)@.wf(),
            final(self)@.n() == old(self)@.n(),
            final(self)@.ns() == old(self)@.ns(),
    {
        proof {
            reveal(BV::set_member_span);
            reveal(Builder::view);
        }
        if self.elements[e].notes.member_span.is_some() {
            return;
        }
        let ghost y = NotesV { member_span: Some(span), ..self@.notes(e) };
        let ghost x = ElemV { notes: y, ..self@.elements[e as int] };
        proof {
            lemma_elem_ok(self@, e as int);
            lemma_elem_change(self@, e, x);
        }
        self.elements[e].notes.member_span = Some(span);
        assert(self.elements@[e as int].notes@ =~= y);
        assert(elems_view(self.elements@) =~= elems_view(old(self).elements@).update(e as int, x));
    }

    pub fn set_elem_scope(&mut self, e: usize, scope: usize)
        requires
            old(self)@.wf(),
            e < old(self)@.n(),
            scope < old(self)@.ns(),
        ensures
            final(self)@ == old(self)@.set_elem_scope(e, scope),
            final(self)@.wf(),
            final(self)@.n() == old(self)@.n(),
            final(self)@.ns() == old(self)@.ns(),
    {
        proof {
            reveal(BV::set_elem_scope);
            reveal(Builder::view);
        }
        let ghost y = NotesV { scope: Some(scope), ..self@.notes(e) };
        let ghost x = ElemV { notes: y, ..self@.elements[e as int] };
        proof {
            lemma_elem_ok(self@, e as int);
            lemma_elem_change(self@, e, x);
        }
        self.elements[e].notes.scope = Some(scope);
        assert(self.elements@[e as int].notes@ =~= y);
        assert(elems_view(self.elements@) =~= elems_view(old(self).elements@).update(e as int, x));
    }

    pub fn set_conjugated(&mut self, e: usize, c: usize)
        requires
            old(self)@.wf(),
            e < old(self)@.n(),
            c < old(self)@.n(),
        ensures
            final(self)@ == old(self)@.set_conjugated(e, c),
            final(self)@.wf(),
            final(self)@.n() == old(self)@.n(),
            final(self)@.ns() == old(self)@.ns(),
    {
        proof {
            reveal(BV::set_conjugated);
            reveal(Builder::view);
        }
        let ghost y = NotesV { conjugated: Some(c), ..self@.notes(e) };
        let ghost x = ElemV { notes: y, ..self@.elements[e as int] };
        proof {
            lemma_elem_ok(self@, e as int);
            lemma_elem_change(self@, e, x);
        }
        self.elements[e].notes.conjugated = Some(c);
        assert(self.elements@[e as int].notes@ =~= y);
        assert(elems_view(self.elements@) =~= elems_view(old(self).elements@).update(e as int, x));
    }

    pub fn set_featuring(&mut self, e: usize, featuring: bool)
        requires
            old(self)@.wf(),
            e < old(self)@.n(),
        ensures
            final(self)@ == old(self)@.set_featuring(e, featuring),
            final(self)@.wf(),
            final(self)@.n() == old(self)@.n(),
            final(self)@.ns() == old(self)@.ns(),
    {
        proof {
            reveal(BV::set_featuring);
            reveal(Builder::view);
        }
        let ghost y = NotesV { featuring: Some(featuring), ..self@.notes(e) };
        let ghost x = ElemV { notes: y, ..self@.elements[e as int] };
        proof {
            lemma_elem_ok(self@, e as int);
            lemma_elem_change(self@, e, x);
        }
        self.elements[e].notes.featuring = Some(featuring);
        assert(self.elements@[e as int].notes@ =~= y);
        assert(elems_view(self.elements@) =~= elems_view(old(self).elements@).update(e as int, x));
    }

    pub fn add_metadata(&mut self, e: usize, m: usize)
        requires
            old(self)@.wf(),
            e < old(self)@.n(),
            m < old(self)@.n(),
        ensures
            final(self)@ == old(self)@.add_metadata(e, m),
            final(self)@.wf(),
            final(self)@.n() == old(self)@.n(),
            final(self)@.ns() == old(self)@.ns(),
    {
        proof {
            reveal(BV::add_metadata);
            reveal(Builder::view);
        }
        let ghost y = NotesV { metadata: self@.notes(e).metadata.push(m), ..self@.notes(e) };
        let ghost x = ElemV { notes: y, ..self@.elements[e as int] };
        proof {
            lemma_elem_ok(self@, e as int);
            lemma_elem_change(self@, e, x);
        }
        self.elements[e].notes.metadata.push(m);
        assert(self.elements@[e as int].notes@ =~= y);
        assert(elems_view(self.elements@) =~= elems_view(old(self).elements@).update(e as int, x));
    }

    pub fn set_value(&mut self, e: usize, scope: usize, expr: &Rc<Expr>)
        requires
            old(self)@.wf(),
            e < old(self)@.n(),
            scope < old(self)@.ns(),
        ensures
            final(self)@ == old(self)@.set_value(e, scope, *expr),
            final(self)@.wf(),
            final(self)@.n() == old(self)@.n(),
            final(self)@.ns() == old(self)@.ns(),
    {
        proof {
            reveal(BV::set_value);
            reveal(Builder::view);
        }
        let ghost y = NotesV { value: Some((scope, *expr)), ..self@.notes(e) };
        let ghost x = ElemV { notes: y, ..self@.elements[e as int] };
        proof {
            lemma_elem_ok(self@, e as int);
            lemma_elem_change(self@, e, x);
        }
        self.elements[e].notes.value = Some((scope, Rc::clone(expr)));
        assert(self.elements@[e as int].notes@ =~= y);
        assert(elems_view(self.elements@) =~= elems_view(old(self).elements@).update(e as int, x));
    }

    pub fn mark_default(&mut self, e: usize)
        requires
            old(self)@.wf(),
            e < old(self)@.n(),
        ensures
            final(self)@ == old(self)@.mark_default(e),
            final(self)@.wf(),
            final(self)@.n() == old(self)@.n(),
            final(self)@.ns() == old(self)@.ns(),
    {
        proof {
            reveal(BV::mark_default);
            reveal(Builder::view);
        }
        let ghost y = NotesV { default_value: true, ..self@.notes(e) };
        let ghost x = ElemV { notes: y, ..self@.elements[e as int] };
        proof {
            lemma_elem_ok(self@, e as int);
            lemma_elem_change(self@, e, x);
        }
        self.elements[e].notes.default_value = true;
        assert(self.elements@[e as int].notes@ =~= y);
        assert(elems_view(self.elements@) =~= elems_view(old(self).elements@).update(e as int, x));
    }

    pub fn set_guard(&mut self, e: usize, scope: usize, expr: &Rc<Expr>)
        requires
            old(self)@.wf(),
            e < old(self)@.n(),
            scope < old(self)@.ns(),
        ensures
            final(self)@ == old(self)@.set_guard(e, scope, *expr),
            final(self)@.wf(),
            final(self)@.n() == old(self)@.n(),
            final(self)@.ns() == old(self)@.ns(),
    {
        proof {
            reveal(BV::set_guard);
            reveal(Builder::view);
        }
        let ghost y = NotesV { guard: Some((scope, *expr)), ..self@.notes(e) };
        let ghost x = ElemV { notes: y, ..self@.elements[e as int] };
        proof {
            lemma_elem_ok(self@, e as int);
            lemma_elem_change(self@, e, x);
        }
        self.elements[e].notes.guard = Some((scope, Rc::clone(expr)));
        assert(self.elements@[e as int].notes@ =~= y);
        assert(elems_view(self.elements@) =~= elems_view(old(self).elements@).update(e as int, x));
    }

    pub fn add_in_param(&mut self, e: usize, name: &str)
        requires
            old(self)@.wf(),
            e < old(self)@.n(),
        ensures
            final(self)@ == old(self)@.add_in_param(e, name@),
            final(self)@.wf(),
            final(self)@.n() == old(self)@.n(),
            final(self)@.ns() == old(self)@.ns(),
    {
        proof {
            reveal(BV::add_in_param);
            reveal(Builder::view);
        }
        let ghost y = NotesV { in_params: self@.notes(e).in_params.push(name@), ..self@.notes(e) };
        let ghost x = ElemV { notes: y, ..self@.elements[e as int] };
        proof {
            lemma_elem_ok(self@, e as int);
            lemma_elem_change(self@, e, x);
        }
        self.elements[e].notes.in_params.push(name.to_owned());
        assert(self.elements@[e as int].notes@ =~= y);
        assert(elems_view(self.elements@) =~= elems_view(old(self).elements@).update(e as int, x));
    }

    pub fn add_ctor_field(&mut self, e: usize, name: &str, field: usize)
        requires
            old(self)@.wf(),
            e < old(self)@.n(),
            field < old(self)@.n(),
        ensures
            final(self)@ == old(self)@.add_ctor_field(e, name@, field),
            final(self)@.wf(),
            final(self)@.n() == old(self)@.n(),
            final(self)@.ns() == old(self)@.ns(),
    {
        proof {
            reveal(BV::add_ctor_field);
            reveal(Builder::view);
        }
        let ghost y = NotesV {
            ctor_fields: self@.notes(e).ctor_fields.push((name@, field)),
            ..self@.notes(e)
        };
        let ghost x = ElemV { notes: y, ..self@.elements[e as int] };
        proof {
            lemma_elem_ok(self@, e as int);
            lemma_elem_change(self@, e, x);
        }
        self.elements[e].notes.ctor_fields.push((name.to_owned(), field));
        assert(self.elements@[e as int].notes@ =~= y);
        assert(elems_view(self.elements@) =~= elems_view(old(self).elements@).update(e as int, x));
    }

    pub fn set_return_param(&mut self, e: usize, p: usize)
        requires
            old(self)@.wf(),
            e < old(self)@.n(),
            p < old(self)@.n(),
        ensures
            final(self)@ == old(self)@.set_return_param(e, p),
            final(self)@.wf(),
            final(self)@.n() == old(self)@.n(),
            final(self)@.ns() == old(self)@.ns(),
    {
        proof {
            reveal(BV::set_return_param);
            reveal(Builder::view);
        }
        let ghost y = NotesV { return_param: Some(p), ..self@.notes(e) };
        let ghost x = ElemV { notes: y, ..self@.elements[e as int] };
        proof {
            lemma_elem_ok(self@, e as int);
            lemma_elem_change(self@, e, x);
        }
        self.elements[e].notes.return_param = Some(p);
        assert(self.elements@[e as int].notes@ =~= y);
        assert(elems_view(self.elements@) =~= elems_view(old(self).elements@).update(e as int, x));
    }

    pub fn set_identification(&mut self, e: usize, id: &Identification)
        requires
            old(self)@.wf(),
            e < old(self)@.n(),
        ensures
            final(self)@ == old(self)@.set_identification(e, *id),
            final(self)@.wf(),
            final(self)@.n() == old(self)@.n(),
            final(self)@.ns() == old(self)@.ns(),
    {
        proof {
            reveal(BV::set_identification);
            reveal(Builder::view);
        }
        if let Some(n) = &id.name {
            self.set_decl_span(e, n.span);
        } else if let Some(n) = &id.short_name {
            self.set_decl_span(e, n.span);
        }
        self.set_name(e, "declaredName", &id.name);
        self.set_name(e, "declaredShortName", &id.short_name);
    }

    /// Create a document root.
    pub fn new_root(&mut self, ty: &'static str, path: &str) -> (r: usize)
        requires
            old(self)@.wf(),
        ensures
            (final(self)@, r) == old(self)@.new_root(ty@, path@),
            final(self)@.wf(),
            r == old(self)@.n(),
            final(self)@.n() == old(self)@.n() + 1,
            final(self)@.ns() == old(self)@.ns(),
    {
        proof {
            reveal(BV::new_root);
            reveal(Builder::view);
        }
        let id: u128 = id_of_path(path);
        let idx: usize = self.elements.len();
        let ghost x = ElemV {
            ty: ty@,
            id,
            path: path@,
            props: Map::empty(),
            owned: Seq::empty(),
            children: Seq::empty(),
            owning: None,
            carrier: None,
            notes: no_notes(),
        };
        let fresh = Elem {
            ty,
            id,
            path: path.to_owned(),
            props: Props::new(),
            owned: Vec::new(),
            children: Vec::new(),
            owning: None,
            carrier: None,
            notes: Notes::new(),
        };
        assert(fresh@ =~= x);
        let ghost before = self@;
        self.elements.push(fresh);
        assert(self.elements.len() == self.elements@.len());
        assert(self@.elements =~= before.elements.push(x));
        proof {
            lemma_new_element(before, self@, x);
        }
        idx
    }

    /// Create a relationship owned by `owner`, last in its list.
    pub fn new_relationship(&mut self, ty: &'static str, owner: usize, seg: &str) -> (r: usize)
        requires
            old(self)@.wf(),
            owner < old(self)@.n(),
        ensures
            (final(self)@, r) == old(self)@.new_relationship(ty@, owner, seg@),
            final(self)@.wf(),
            r == old(self)@.n(),
            final(self)@.n() == old(self)@.n() + 1,
            final(self)@.ns() == old(self)@.ns(),
            final(self)@.notes(owner) == old(self)@.notes(owner),
            final(self)@.elements[owner as int].owned.len() == old(self)@.elements[owner as int].owned.len() + 1,
    {
        proof {
            reveal(BV::new_relationship);
            reveal(Builder::view);
        }
        let mut path: String = self.elements[owner].path.clone();
        path.append("/");
        path.append(seg);
        assert(path@ =~= old(self)@.elements[owner as int].path + "/"@ + seg@);
        let id: u128 = id_of_path(path.as_str());
        let idx: usize = self.elements.len();
        let owner_id: u128 = self.elements[owner].id;
        let ghost ghost_path = path@;
        let mut props = Props::new();
        props.insert("owningRelatedElement", Value::Ref(Link::Id(owner_id)));
        let ghost x = ElemV {
            ty: ty@,
            id,
            path: path@,
            props: Map::<Seq<char>, ValueV>::empty().insert(
                "owningRelatedElement"@,
                ValueV::Ref(LinkV::Id(owner_id)),
            ),
            owned: Seq::empty(),
            children: Seq::empty(),
            owning: None,
            carrier: Some(owner),
            notes: no_notes(),
        };
        let fresh = Elem {
            ty,
            id,
            path,
            props,
            owned: Vec::new(),
            children: Vec::new(),
            owning: None,
            carrier: Some(owner),
            notes: Notes::new(),
        };
        assert(fresh@ =~= x);
        let ghost before = self@;
        let ghost o = before.elements[owner as int];
        self.elements[owner].owned.push(idx);
        assert(elems_view(self.elements@) =~= before.elements.update(
            owner as int,
            ElemV { owned: o.owned.push(idx), ..o },
        ));
        self.elements.push(fresh);
        assert(self.elements.len() == self.elements@.len());
        assert(self@.elements =~= before.elements.update(
            owner as int,
            ElemV { owned: o.owned.push(idx), ..o },
        ).push(x));
        proof {
            lemma_new_element(before, self@, x);
        }
        idx
    }

    /// Create an element owned through `rel`, last in its list.
    pub fn new_owned_element(&mut self, ty: &'static str, rel: usize, seg: &str) -> (r: usize)
        requires
            old(self)@.wf(),
            rel < old(self)@.n(),
        ensures
            (final(self)@, r) == old(self)@.new_owned_element(ty@, rel, seg@),
            final(self)@.wf(),
            r == old(self)@.n(),
            final(self)@.n() == old(self)@.n() + 1,
            final(self)@.ns() == old(self)@.ns(),
    {
        proof {
            reveal(BV::new_owned_element);
            reveal(Builder::view);
        }
        let mut path: String = self.elements[rel].path.clone();
        path.append("/");
        path.append(seg);
        assert(path@ =~= old(self)@.elements[rel as int].path + "/"@ + seg@);
        let id: u128 = id_of_path(path.as_str());
        let idx: usize = self.elements.len();
        let ghost x = ElemV {
            ty: ty@,
            id,
            path: path@,
            props: Map::empty(),
            owned: Seq::empty(),
            children: Seq::empty(),
            owning: Some(rel),
            carrier: None,
            notes: no_notes(),
        };
        let fresh = Elem {
            ty,
            id,
            path,
            props: Props::new(),
            owned: Vec::new(),
            children: Vec::new(),
            owning: Some(rel),
            carrier: None,
            notes: Notes::new(),
        };
        assert(fresh@ =~= x);
        let ghost before = self@;
        let ghost o = before.elements[rel as int];
        self.elements[rel].children.push(idx);
        assert(elems_view(self.elements@) =~= before.elements.update(
            rel as int,
            ElemV { children: o.children.push(idx), ..o },
        ));
        self.elements.push(fresh);
        assert(self.elements.len() == self.elements@.len());
        assert(self@.elements =~= before.elements.update(
            rel as int,
            ElemV { children: o.children.push(idx), ..o },
        ).push(x));
        proof {
            lemma_new_element(before, self@, x);
        }
        idx
    }

    /// Create the next prefix-metadata membership of `owner`; also answers
    /// its number.
    pub fn new_prefix_membership(&mut self, owner: usize) -> (r: (usize, usize))
        requires
            old(self)@.wf(),
            owner < old(self)@.n(),
        ensures
            (final(self)@, r.0, r.1) == old(self)@.new_prefix_membership(owner),
            final(self)@.wf(),
            r.0 == old(self)@.n(),
            final(self)@.n() == old(self)@.n() + 1,
            final(self)@.ns() == old(self)@.ns(),
    {
        proof {
            reveal(BV::new_prefix_membership);
            reveal(Builder::view);
        }
        let i: usize = self.elements[owner].notes.meta_next;
        proof {
            lemma_elem_ok(self@, owner as int);
        }
        let seg = numbered_seg("prefixmeta", i);
        let rel: usize = self.new_relationship("OwningMembership", owner, seg.as_str());
        let ghost mid = self@;
        assert(self.elements@[owner as int].owned.len() == mid.elements[owner as int].owned.len());
        let ghost y = NotesV { meta_next: (i + 1) as usize, ..self@.notes(owner) };
        let ghost x = ElemV { notes: y, ..self@.elements[owner as int] };
        proof {
            lemma_elem_ok(mid, owner as int);
            lemma_elem_change(mid, owner, x);
        }
        self.elements[owner].notes.meta_next = i + 1;
        assert(self.elements@[owner as int].notes@ =~= y);
        assert(elems_view(self.elements@) =~= mid.elements.update(owner as int, x));
        (rel, i)
    }

    /// Open a scope inside `parent`.
    pub fn push_scope(&mut self, parent: Option<usize>) -> (r: usize)
        requires
            old(self)@.wf(),
            below(parent, old(self)@.ns()),
        ensures
            (final(self)@, r) == old(self)@.push_scope(parent),
            final(self)@.wf(),
            r == old(self)@.ns(),
            final(self)@.n() == old(self)@.n(),
            final(self)@.ns() == old(self)@.ns() + 1,
    {
        proof {
            reveal(BV::push_scope);
            reveal(Builder::view);
        }
        let idx: usize = self.scopes.len();
        let fresh = Scope {
            parent,
            owner: None,
            names: Names::new(),
            effective_names: Names::new(),
            imports: Vec::new(),
            member_imports: Vec::new(),
            filters: Vec::new(),
            aliases: Vec::new(),
            implied_ends: Vec::new(),
            bases: Vec::new(),
            chain_bases: Vec::new(),
        };
        assert(fresh@ =~= empty_scope(parent));
        let ghost before = self@;
        self.scopes.push(fresh);
        assert(self.scopes.len() == self.scopes@.len());
        assert(self@.scopes =~= before.scopes.push(empty_scope(parent)));
        proof {
            lemma_new_scope(before, self@, parent);
        }
        idx
    }

    pub fn set_scope_owner(&mut self, s: usize, owner: usize)
        requires
            old(self)@.wf(),
            s < old(self)@.ns(),
            owner < old(self)@.n(),
        ensures
            final(self)@ == old(self)@.set_scope_owner(s, owner),
            final(self)@.wf(),
            final(self)@.n() == old(self)@.n(),
            final(self)@.ns() == old(self)@.ns(),
    {
        proof {
            reveal(BV::set_scope_owner);
            reveal(Builder::view);
        }
        let ghost x = ScopeV { owner: Some(owner), ..self@.scope(s) };
        proof {
            lemma_scope_ok(self@, s as int);
            lemma_scope_change(self@, s, x);
        }
        self.scopes[s].owner = Some(owner);
        assert(self.scopes@[s as int]@ =~= x);
        assert(scopes_view(self.scopes@) =~= scopes_view(old(self).scopes@).update(s as int, x));
    }

    pub fn push_base(&mut self, s: usize, qn: QualifiedName)
        requires
            old(self)@.wf(),
            s < old(self)@.ns(),
        ensures
            final(self)@ == old(self)@.push_base(s, qn@),
            final(self)@.wf(),
            final(self)@.n() == old(self)@.n(),
            final(self)@.ns() == old(self)@.ns(),
    {
        proof {
            reveal(BV::push_base);
            reveal(Builder::view);
        }
        let ghost x = ScopeV { bases: self@.scope(s).bases.push(qn@), ..self@.scope(s) };
        proof {
            lemma_scope_ok(self@, s as int);
            lemma_scope_change(self@, s, x);
        }
        self.scopes[s].bases.push(qn);
        assert(self.scopes@[s as int]@ =~= x);
        assert(scopes_view(self.scopes@) =~= scopes_view(old(self).scopes@).update(s as int, x));
    }

    pub fn push_chain_base(&mut self, s: usize, links: Vec<QualifiedName>)
        requires
            old(self)@.wf(),
            s < old(self)@.ns(),
        ensures
            final(self)@ == old(self)@.push_chain_base(s, qns_view(links@)),
            final(self)@.wf(),
            final(self)@.n() == old(self)@.n(),
            final(self)@.ns() == old(self)@.ns(),
    {
        proof {
            reveal(BV::push_chain_base);
            reveal(Builder::view);
        }
        let ghost x = ScopeV {
            chain_bases: self@.scope(s).chain_bases.push(qns_view(links@)),
            ..self@.scope(s)
        };
        proof {
            lemma_scope_ok(self@, s as int);
            lemma_scope_change(self@, s, x);
        }
        self.scopes[s].chain_bases.push(links);
        assert(self.scopes@[s as int]@ =~= x);
        assert(scopes_view(self.scopes@) =~= scopes_view(old(self).scopes@).update(s as int, x));
    }

    pub fn push_import(&mut self, s: usize, x: ScopeImport)
        requires
            old(self)@.wf(),
            s < old(self)@.ns(),
            x.relationship < old(self)@.n(),
            all_below(x.filters@, old(self)@.filter_exprs.len()),
        ensures
            final(self)@ == old(self)@.push_import(s, x@),
            final(self)@.wf(),
            final(self)@.n() == old(self)@.n(),
            final(self)@.ns() == old(self)@.ns(),
            final(self)@.filter_exprs == old(self)@.filter_exprs,
    {
        proof {
            reveal(BV::push_import);
            reveal(Builder::view);
        }
        let ghost y = ScopeV { imports: self@.scope(s).imports.push(x@), ..self@.scope(s) };
        proof {
            lemma_scope_ok(self@, s as int);
            lemma_scope_change(self@, s, y);
        }
        self.scopes[s].imports.push(x);
        assert(self.scopes@[s as int]@ =~= y);
        assert(scopes_view(self.scopes@) =~= scopes_view(old(self).scopes@).update(s as int, y));
    }

    pub fn push_member_import(&mut self, s: usize, x: ScopeImport)
        requires
            old(self)@.wf(),
            s < old(self)@.ns(),
            x.relationship < old(self)@.n(),
            all_below(x.filters@, old(self)@.filter_exprs.len()),
        ensures
            final(self)@ == old(self)@.push_member_import(s, x@),
            final(self)@.wf(),
            final(self)@.n() == old(self)@.n(),
            final(self)@.ns() == old(self)@.ns(),
            final(self)@.filter_exprs == old(self)@.filter_exprs,
    {
        proof {
            reveal(BV::push_member_import);
            reveal(Builder::view);
        }
        let ghost y = ScopeV { member_imports: self@.scope(s).member_imports.push(x@), ..self@.scope(s) };
        proof {
            lemma_scope_ok(self@, s as int);
            lemma_scope_change(self@, s, y);
        }
        self.scopes[s].member_imports.push(x);
        assert(self.scopes@[s as int]@ =~= y);
        assert(scopes_view(self.scopes@) =~= scopes_view(old(self).scopes@).update(s as int, y));
    }

    pub fn push_alias(&mut self, s: usize, name: &str, target: QualifiedName, is_public: bool)
        requires
            old(self)@.wf(),
            s < old(self)@.ns(),
        ensures
            final(self)@ == old(self)@.push_alias(s, name@, target@, is_public),
            final(self)@.wf(),
            final(self)@.n() == old(self)@.n(),
            final(self)@.ns() == old(self)@.ns(),
    {
        proof {
            reveal(BV::push_alias);
            reveal(Builder::view);
        }
        let ghost x = ScopeV {
            aliases: self@.scope(s).aliases.push(
                AliasV { name: name@, target: target@, is_public }
            ),
            ..self@.scope(s)
        };
        proof {
            lemma_scope_ok(self@, s as int);
            lemma_scope_change(self@, s, x);
        }
        self.scopes[s].aliases.push(ScopeAlias { name: name.to_owned(), target, is_public });
        assert(self.scopes@[s as int]@ =~= x);
        assert(scopes_view(self.scopes@) =~= scopes_view(old(self).scopes@).update(s as int, x));
    }

    pub fn push_implied_end(&mut self, s: usize, name: &'static str, elem: usize, scope: usize)
        requires
            old(self)@.wf(),
            s < old(self)@.ns(),
            elem < old(self)@.n(),
            scope < old(self)@.ns(),
        ensures
            final(self)@ == old(self)@.push_implied_end(s, name@, elem, scope),
            final(self)@.wf(),
            final(self)@.n() == old(self)@.n(),
            final(self)@.ns() == old(self)@.ns(),
    {
        proof {
            reveal(BV::push_implied_end);
            reveal(Builder::view);
        }
        let ghost x = ScopeV {
            implied_ends: self@.scope(s).implied_ends.push(
                ImpliedEndV { name: name@, elem, scope }
            ),
            ..self@.scope(s)
        };
        proof {
            lemma_scope_ok(self@, s as int);
            lemma_scope_change(self@, s, x);
        }
        self.scopes[s].implied_ends.push(ImpliedEnd { name, elem, scope });
        assert(self.scopes@[s as int]@ =~= x);
        assert(scopes_view(self.scopes@) =~= scopes_view(old(self).scopes@).update(s as int, x));
    }

    pub fn add_name(&mut self, s: usize, name: &str, binding: Binding)
        requires
            old(self)@.wf(),
            s < old(self)@.ns(),
            binding.elem < old(self)@.n(),
            below(binding.sub_scope, old(self)@.ns()),
        ensures
            final(self)@ == old(self)@.add_name(s, name@, binding),
            final(self)@.wf(),
            final(self)@.n() == old(self)@.n(),
            final(self)@.ns() == old(self)@.ns(),
    {
        proof {
            reveal(BV::add_name);
            reveal(Builder::view);
        }
        let ghost x = ScopeV { names: bind(self@.scope(s).names, name@, binding), ..self@.scope(s) };
        proof {
            lemma_scope_ok(self@, s as int);
            lemma_scope_change(self@, s, x);
        }
        self.scopes[s].names.push(name, binding);
        assert(self.scopes@[s as int]@ =~= x);
        assert(scopes_view(self.scopes@) =~= scopes_view(old(self).scopes@).update(s as int, x));
    }

    pub fn add_effective_name(&mut self, s: usize, name: &str, binding: Binding)
        requires
            old(self)@.wf(),
            s < old(self)@.ns(),
            binding.elem < old(self)@.n(),
            below(binding.sub_scope, old(self)@.ns()),
        ensures
            final(self)@ == old(self)@.add_effective_name(s, name@, binding),
            final(self)@.wf(),
            final(self)@.n() == old(self)@.n(),
            final(self)@.ns() == old(self)@.ns(),
    {
        proof {
            reveal(BV::add_effective_name);
            reveal(Builder::view);
        }
        let ghost x = ScopeV {
            effective_names: bind(self@.scope(s).effective_names, name@, binding),
            ..self@.scope(s)
        };
        proof {
            lemma_scope_ok(self@, s as int);
            lemma_scope_change(self@, s, x);
        }
        self.scopes[s].effective_names.push(name, binding);
        assert(self.scopes@[s as int]@ =~= x);
        assert(scopes_view(self.scopes@) =~= scopes_view(old(self).scopes@).update(s as int, x));
    }

    /// The visibility a membership spells.
    pub fn spelled_visibility(&self, rel: usize) -> (r: LookupAccess)
        requires
            rel < self@.n(),
        ensures
            r == self@.spelled_visibility(rel),
    {
        proof {
            reveal(BV::spelled_visibility);
            reveal(Builder::view);
        }
        match self.elements[rel].props.get("visibility") {
            Some(Value::Str(s)) => {
                if str_eq(s.as_str(), "private") {
                    LookupAccess::All
                } else if str_eq(s.as_str(), "protected") {
                    LookupAccess::Protected
                } else {
                    LookupAccess::Public
                }
            },
            _ => LookupAccess::Public,
        }
    }

    /// The visibility of the membership that owns an element.
    pub fn member_visibility(&self, e: usize) -> (r: LookupAccess)
        requires
            self@.wf(),
            e < self@.n(),
        ensures
            r == self@.member_visibility(e),
    {
        proof {
            reveal(BV::member_visibility);
            reveal(Builder::view);
        }
        proof {
            lemma_elem_ok(self@, e as int);
        }
        match self.elements[e].owning {
            Some(r) => self.spelled_visibility(r),
            None => LookupAccess::Public,
        }
    }

    pub fn register(&mut self, scope: usize, id: &Identification, e: usize, sub: usize)
        requires
            old(self)@.wf(),
            scope < old(self)@.ns(),
            sub < old(self)@.ns(),
            e < old(self)@.n(),
        ensures
            final(self)@ == old(self)@.register(scope, *id, e, sub),
            final(self)@.wf(),
            final(self)@.n() == old(self)@.n(),
            final(self)@.ns() == old(self)@.ns(),
    {
        proof {
            reveal(BV::register);
            reveal(Builder::view);
        }
        let visibility = self.member_visibility(e);
        let binding = Binding { elem: e, sub_scope: Some(sub), visibility };
        if let Some(n) = &id.name {
            self.add_name(scope, n.value.as_str(), binding);
        }
        if let Some(n) = &id.short_name {
            self.add_name(scope, n.value.as_str(), binding);
        }
        self.set_elem_scope(e, sub);
        self.set_scope_owner(sub, e);
    }

    pub fn push_pending(&mut self, p: PendingRef)
        requires
            old(self)@.wf(),
            p@.ok(old(self)@.n(), old(self)@.ns(), old(self)@.spec_targets.len()),
        ensures
            final(self)@ == old(self)@.push_pending(p@),
            final(self)@.wf(),
            final(self)@.n() == old(self)@.n(),
            final(self)@.ns() == old(self)@.ns(),
    {
        proof {
            reveal(BV::push_pending);
            reveal(Builder::view);
        }
        proof {
            reveal(BV::wf);
        }
        self.pending.push(p);
        assert(pendings_view(self.pending@) =~= pendings_view(old(self).pending@).push(p@));
        proof {
            lemma_records(old(self)@, self@);
        }
    }

    pub fn set_spec_idx(&mut self, i: Option<usize>)
        requires
            old(self)@.wf(),
            below(i, old(self)@.spec_targets.len()),
        ensures
            final(self)@ == old(self)@.set_spec_idx(i),
            final(self)@.wf(),
            final(self)@.n() == old(self)@.n(),
            final(self)@.ns() == old(self)@.ns(),
            final(self)@.spec_targets == old(self)@.spec_targets,
            final(self)@.pending_exclude == old(self)@.pending_exclude,
    {
        proof {
            reveal(BV::set_spec_idx);
            reveal(Builder::view);
        }
        proof {
            reveal(BV::wf);
        }
        self.pending_spec_idx = i;
        proof {
            lemma_records(old(self)@, self@);
        }
    }

    pub fn add_spec_target(&mut self, e: usize, kind: &'static str, scope: usize, qn: QualifiedName)
        requires
            old(self)@.wf(),
            e < old(self)@.n(),
            scope < old(self)@.ns(),
        ensures
            final(self)@ == old(self)@.add_spec_target(e, kind@, scope, qn@),
            final(self)@.wf(),
            final(self)@.n() == old(self)@.n(),
            final(self)@.ns() == old(self)@.ns(),
    {
        proof {
            reveal(BV::add_spec_target);
            reveal(Builder::view);
        }
        proof {
            reveal(BV::wf);
        }
        self.spec_targets.push(SpecTarget { elem: e, kind, scope, qn });
        assert(
            spec_targets_view(self.spec_targets@) =~= spec_targets_view(old(self).spec_targets@).push(
                SpecTargetV { elem: e, kind: kind@, scope, qn: qn@ }
            )
        );
        proof {
            lemma_records(old(self)@, self@);
        }
    }

    pub fn announce_spec_target(
        &mut self,
        e: usize,
        kind: &'static str,
        scope: usize,
        qn: QualifiedName,
    )
        requires
            old(self)@.wf(),
            e < old(self)@.n(),
            scope < old(self)@.ns(),
        ensures
            final(self)@ == old(self)@.announce_spec_target(e, kind@, scope, qn@),
            final(self)@.wf(),
            final(self)@.n() == old(self)@.n(),
            final(self)@.ns() == old(self)@.ns(),
    {
        proof {
            reveal(BV::announce_spec_target);
            reveal(Builder::view);
        }
        proof {
            reveal(BV::wf);
        }
        self.pending_spec_idx = Some(self.spec_targets.len());
        self.spec_targets.push(SpecTarget { elem: e, kind, scope, qn });
        assert(
            spec_targets_view(self.spec_targets@) =~= spec_targets_view(old(self).spec_targets@).push(
                SpecTargetV { elem: e, kind: kind@, scope, qn: qn@ }
            )
        );
        proof {
            lemma_records(old(self)@, self@);
        }
    }

    pub fn set_exclude(&mut self, v: Option<usize>)
        requires
            old(self)@.wf(),
        ensures
            final(self)@ == old(self)@.set_exclude(v),
            final(self)@.wf(),
            final(self)@.n() == old(self)@.n(),
            final(self)@.ns() == old(self)@.ns(),
    {
        proof {
            reveal(BV::set_exclude);
            reveal(Builder::view);
        }
        proof {
            reveal(BV::wf);
        }
        self.pending_exclude = v;
        proof {
            lemma_records(old(self)@, self@);
        }
    }

    pub fn set_in_enum_body(&mut self, v: bool)
        requires
            old(self)@.wf(),
        ensures
            final(self)@ == old(self)@.set_in_enum_body(v),
            final(self)@.wf(),
            final(self)@.n() == old(self)@.n(),
            final(self)@.ns() == old(self)@.ns(),
    {
        proof {
            reveal(BV::set_in_enum_body);
            reveal(Builder::view);
        }
        proof {
            reveal(BV::wf);
        }
        self.in_enum_body = v;
        proof {
            lemma_records(old(self)@, self@);
        }
    }

    pub fn set_pending_featuring(&mut self, v: bool)
        requires
            old(self)@.wf(),
        ensures
            final(self)@ == old(self)@.set_pending_featuring(v),
            final(self)@.wf(),
            final(self)@.n() == old(self)@.n(),
            final(self)@.ns() == old(self)@.ns(),
    {
        proof {
            reveal(BV::set_pending_featuring);
            reveal(Builder::view);
        }
        proof {
            reveal(BV::wf);
        }
        self.pending_featuring = v;
        proof {
            lemma_records(old(self)@, self@);
        }
    }

    pub fn set_dialect(&mut self, v: Dialect)
        requires
            old(self)@.wf(),
        ensures
            final(self)@ == old(self)@.set_dialect(v),
            final(self)@.wf(),
            final(self)@.n() == old(self)@.n(),
            final(self)@.ns() == old(self)@.ns(),
    {
        proof {
            reveal(BV::set_dialect);
            reveal(Builder::view);
        }
        proof {
            reveal(BV::wf);
        }
        self.dialect = v;
        proof {
            lemma_records(old(self)@, self@);
        }
    }

    pub fn set_pending_direction(&mut self, v: Option<&'static str>)
        requires
            old(self)@.wf(),
        ensures
            final(self)@ == old(self)@.set_pending_direction(opt_str(v)),
            final(self)@.wf(),
            final(self)@.n() == old(self)@.n(),
            final(self)@.ns() == old(self)@.ns(),
    {
        proof {
            reveal(BV::set_pending_direction);
            reveal(Builder::view);
        }
        proof {
            reveal(BV::wf);
        }
        self.pending_direction = v;
        proof {
            lemma_records(old(self)@, self@);
        }
    }

    pub fn set_pending_owner_ty(&mut self, v: Option<&'static str>)
        requires
            old(self)@.wf(),
        ensures
            final(self)@ == old(self)@.set_pending_owner_ty(opt_str(v)),
            final(self)@.wf(),
            final(self)@.n() == old(self)@.n(),
            final(self)@.ns() == old(self)@.ns(),
    {
        proof {
            reveal(BV::set_pending_owner_ty);
            reveal(Builder::view);
        }
        proof {
            reveal(BV::wf);
        }
        self.pending_owner_ty = v;
        proof {
            lemma_records(old(self)@, self@);
        }
    }

    pub fn push_filter_expr(&mut self, scope: usize, expr: &Rc<Expr>)
        requires
            old(self)@.wf(),
            scope < old(self)@.ns(),
        ensures
            final(self)@ == old(self)@.push_filter_expr(scope, *expr),
            final(self)@.wf(),
            final(self)@.n() == old(self)@.n(),
            final(self)@.ns() == old(self)@.ns(),
            final(self)@.filter_exprs.len() == old(self)@.filter_exprs.len() + 1,
    {
        proof {
            reveal(BV::push_filter_expr);
            reveal(Builder::view);
        }
        proof {
            reveal(BV::wf);
        }
        self.filter_exprs.push((scope, Rc::clone(expr)));
        proof {
            lemma_records(old(self)@, self@);
        }
    }

    pub fn push_scope_filter(&mut self, s: usize, f: usize)
        requires
            old(self)@.wf(),
            s < old(self)@.ns(),
            f < old(self)@.filter_exprs.len(),
        ensures
            final(self)@ == old(self)@.push_scope_filter(s, f),
            final(self)@.wf(),
            final(self)@.n() == old(self)@.n(),
            final(self)@.ns() == old(self)@.ns(),
            final(self)@.filter_exprs == old(self)@.filter_exprs,
    {
        proof {
            reveal(BV::push_scope_filter);
            reveal(Builder::view);
        }
        let ghost x = ScopeV { filters: self@.scope(s).filters.push(f), ..self@.scope(s) };
        proof {
            lemma_scope_ok(self@, s as int);
            lemma_scope_change(self@, s, x);
        }
        self.scopes[s].filters.push(f);
        assert(self.scopes@[s as int]@ =~= x);
        assert(scopes_view(self.scopes@) =~= scopes_view(old(self).scopes@).update(s as int, x));
    }

    pub fn push_result_expr(&mut self, e: usize, scope: usize, expr: &Rc<Expr>)
        requires
            old(self)@.wf(),
            e < old(self)@.n(),
            scope < old(self)@.ns(),
        ensures
            final(self)@ == old(self)@.push_result_expr(e, scope, *expr),
            final(self)@.wf(),
            final(self)@.n() == old(self)@.n(),
            final(self)@.ns() == old(self)@.ns(),
    {
        proof {
            reveal(BV::push_result_expr);
            reveal(Builder::view);
        }
        proof {
            reveal(BV::wf);
        }
        self.result_exprs.push((e, scope, Rc::clone(expr)));
        proof {
            lemma_records(old(self)@, self@);
        }
    }

    pub fn push_multiplicity(
        &mut self,
        owner: usize,
        scope: usize,
        lower: &Option<Rc<Expr>>,
        upper: &Rc<Expr>,
    )
        requires
            old(self)@.wf(),
            owner < old(self)@.n(),
            scope < old(self)@.ns(),
        ensures
            final(self)@ == old(self)@.push_multiplicity(owner, scope, *lower, *upper),
            final(self)@.wf(),
            final(self)@.n() == old(self)@.n(),
            final(self)@.ns() == old(self)@.ns(),
    {
        proof {
            reveal(BV::push_multiplicity);
            reveal(Builder::view);
        }
        proof {
            reveal(BV::wf);
        }
        let low = match lower {
            Some(x) => Some(Rc::clone(x)),
            None => None,
        };
        self.multiplicities.push(MultiplicityRecord { owner, scope, lower: low, upper: Rc::clone(upper) });
        proof {
            lemma_records(old(self)@, self@);
        }
    }

    pub fn push_connector_end(&mut self, connector: usize, end: usize, span: Span)
        requires
            old(self)@.wf(),
            connector < old(self)@.n(),
            end < old(self)@.n(),
        ensures
            final(self)@ == old(self)@.push_connector_end(connector, end, span),
            final(self)@.wf(),
            final(self)@.n() == old(self)@.n(),
            final(self)@.ns() == old(self)@.ns(),
    {
        proof {
            reveal(BV::push_connector_end);
            reveal(Builder::view);
        }
        proof {
            reveal(BV::wf);
        }
        self.connector_ends.push(ConnectorEndRecord { connector, end, span });
        proof {
            lemma_records(old(self)@, self@);
        }
    }

    pub fn push_chain_subsetting(
        &mut self,
        e: usize,
        scope: usize,
        links: Vec<QualifiedName>,
        span: Span,
    )
        requires
            old(self)@.wf(),
            e < old(self)@.n(),
            scope < old(self)@.ns(),
        ensures
            final(self)@ == old(self)@.push_chain_subsetting(e, scope, qns_view(links@), span),
            final(self)@.wf(),
            final(self)@.n() == old(self)@.n(),
            final(self)@.ns() == old(self)@.ns(),
    {
        proof {
            reveal(BV::push_chain_subsetting);
            reveal(Builder::view);
        }
        proof {
            reveal(BV::wf);
        }
        let ghost v = ChainSubsettingV { elem: e, scope, links: qns_view(links@), span };
        self.chain_subsettings.push(ChainSubsetting { elem: e, scope, links, span });
        assert(
            chain_subsettings_view(self.chain_subsettings@) =~= chain_subsettings_view(old(self).chain_subsettings@).push(v)
        );
        proof {
            lemma_records(old(self)@, self@);
        }
    }

    pub fn push_satisfy_by(&mut self, e: usize, scope: usize, by: TargetRef)
        requires
            old(self)@.wf(),
            e < old(self)@.n(),
            scope < old(self)@.ns(),
        ensures
            final(self)@ == old(self)@.push_satisfy_by(e, scope, by@),
            final(self)@.wf(),
            final(self)@.n() == old(self)@.n(),
            final(self)@.ns() == old(self)@.ns(),
    {
        proof {
            reveal(BV::push_satisfy_by);
            reveal(Builder::view);
        }
        proof {
            reveal(BV::wf);
        }
        let ghost v = SatisfyByV { elem: e, scope, by: by@ };
        self.satisfy_by.push(SatisfyBy { elem: e, scope, by });
        assert(satisfy_by_view(self.satisfy_by@) =~= satisfy_by_view(old(self).satisfy_by@).push(v));
        proof {
            lemma_records(old(self)@, self@);
        }
    }

    pub fn push_user_import(&mut self, relationship: usize, span: Span, private: bool)
        requires
            old(self)@.wf(),
            relationship < old(self)@.n(),
        ensures
            final(self)@ == old(self)@.push_user_import(relationship, span, private),
            final(self)@.wf(),
            final(self)@.n() == old(self)@.n(),
            final(self)@.ns() == old(self)@.ns(),
    {
        proof {
            reveal(BV::push_user_import);
            reveal(Builder::view);
        }
        proof {
            reveal(BV::wf);
        }
        self.user_imports.push(UserImport { relationship, span, private });
        proof {
            lemma_records(old(self)@, self@);
        }
    }

    /// Record a reference by name, to be resolved once all scopes exist.
    pub fn ref_name(
        &mut self,
        e: usize,
        key: &'static str,
        index: Option<usize>,
        scope: usize,
        qn: &QualifiedName,
        exclude: Option<usize>,
    )
        requires
            old(self)@.wf(),
            e < old(self)@.n(),
            scope < old(self)@.ns(),
        ensures
            final(self)@ == old(self)@.ref_name(e, key@, index, scope, qn@, exclude),
            final(self)@.wf(),
            final(self)@.n() == old(self)@.n(),
            final(self)@.ns() == old(self)@.ns(),
    {
        proof {
            reveal(BV::ref_name);
            reveal(Builder::view);
        }
        let spec_idx = self.pending_spec_idx;
        proof {
            reveal(BV::wf);
        }
        self.set_spec_idx(None);
        let effective = if exclude.is_some() {
            exclude
        } else {
            self.pending_exclude
        };
        let p = PendingRef {
            elem: e,
            key,
            index,
            scope,
            qn: qn.duplicate(),
            exclude: effective,
            declared_only: false,
            chain: None,
            spec_idx,
        };
        self.push_pending(p);
    }
}

/// The graph before anything is built.
pub open spec fn empty_graph(dialect: Dialect) -> BV {
    BV {
        dialect,
        elements: Seq::empty(),
        scopes: Seq::empty(),
        pending: Seq::empty(),
        spec_targets: Seq::empty(),
        pending_spec_idx: None,
        pending_exclude: None,
        in_enum_body: false,
        pending_featuring: false,
        pending_direction: None,
        pending_owner_ty: None,
        filter_exprs: Seq::empty(),
        result_exprs: Seq::empty(),
        multiplicities: Seq::empty(),
        connector_ends: Seq::empty(),
        chain_subsettings: Seq::empty(),
        satisfy_by: Seq::empty(),
        user_imports: Seq::empty(),
    }
}

} // verus!
