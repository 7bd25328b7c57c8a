//! The setting in which derived properties are read: the resolved graph with
//! its implied relationships, the metamodel, and the closures in force.
use crate::closures::{Walks, WalksV};
use crate::graph_get::{flag_prop, link_prop, list_prop};
use crate::id_names::IdIndex;
use crate::ids::{parse_id, uuid_parse};
use crate::metamodel::{ClosurePolicy, Metamodel, MetamodelV};
use crate::naming_ids::{id_index, own_ids, text_prop};
use crate::props::{links_view, Link, LinkV};
use crate::rpure::duplicate;
use crate::state::{all_below, below, Builder, BV};
use crate::text::{chars_of, slice_chars, str_eq, string_of};
use vstd::prelude::*;

verus! {

/// A target of a reference-typed property. It may lie outside the model: an
/// element known by its id only, or a spelling that never resolved.
pub enum Reference {
    Element(usize),
    External(u128),
    Unresolved(String),
}

pub enum RefV {
    Element(usize),
    External(u128),
    Unresolved(Seq<char>),
}

impl RefV {
    pub open spec fn elem(self) -> Option<usize> {
        match self {
            RefV::Element(e) => Some(e),
            _ => None,
        }
    }

    pub open spec fn ok(self, n: nat) -> bool {
        match self {
            RefV::Element(e) => e < n,
            _ => true,
        }
    }
}

impl Reference {
    pub open spec fn view(&self) -> RefV {
        match self {
            Reference::Element(e) => RefV::Element(*e),
            Reference::External(id) => RefV::External(*id),
            Reference::Unresolved(s) => RefV::Unresolved(s@),
        }
    }

    /// The model element, if the reference is one.
    pub fn element(&self) -> (r: Option<usize>)
        ensures
            r == self@.elem(),
    {
        match self {
            Reference::Element(e) => Some(*e),
            _ => None,
        }
    }

    pub fn duplicate(&self) -> (r: Reference)
        ensures
            r@ == self@,
    {
        match self {
            Reference::Element(e) => Reference::Element(*e),
            Reference::External(id) => Reference::External(*id),
            Reference::Unresolved(s) => Reference::Unresolved(s.clone()),
        }
    }

    pub fn same(&self, other: &Reference) -> (r: bool)
        ensures
            r == (self@ == other@),
    {
        match (self, other) {
            (Reference::Element(a), Reference::Element(b)) => *a == *b,
            (Reference::External(a), Reference::External(b)) => *a == *b,
            (Reference::Unresolved(a), Reference::Unresolved(b)) => str_eq(a.as_str(), b.as_str()),
            _ => false,
        }
    }
}

pub open spec fn refs_view(s: Seq<Reference>) -> Seq<RefV> {
    s.map_values(|r: Reference| r@)
}

pub open spec fn opt_ref_view(o: Option<Reference>) -> Option<RefV> {
    match o {
        Some(r) => Some(r@),
        None => None,
    }
}

pub open spec fn refs_ok(s: Seq<RefV>, n: nat) -> bool {
    forall|i: int| 0 <= i < s.len() ==> (#[trigger] s[i]).ok(n)
}

pub open spec fn opt_ref_ok(o: Option<RefV>, n: nat) -> bool {
    o is Some ==> o->0.ok(n)
}

/// A text without the quotes around it.
pub open spec fn unquoted_from(s: Seq<char>) -> Seq<char>
    decreases s.len(),
{
    if s.len() > 0 && s[0] == '\'' {
        unquoted_from(s.drop_first())
    } else {
        unquoted_end(s)
    }
}

pub open spec fn unquoted_end(s: Seq<char>) -> Seq<char>
    decreases s.len(),
{
    if s.len() > 0 && s.last() == '\'' {
        unquoted_end(s.drop_last())
    } else {
        s
    }
}

/// Whatever reads the graph: the graph, the metamodel, the implied
/// relationships with their owners, the closure policy, the memberships each
/// element inherits and imports, what views expose, and the library functions
/// that operators and triggers instantiate.
#[verifier::ext_equal]
pub struct DV {
    pub g: BV,
    pub mm: MetamodelV,
    pub from: usize,
    pub implied_owner: Seq<usize>,
    pub policy: ClosurePolicy,
    pub written_walks: WalksV,
    pub implied_walks: WalksV,
    pub exposed: Seq<Seq<usize>>,
    pub callee: Seq<Option<RefV>>,
    pub lib_boundary: usize,
    pub externals: Seq<ExternalV>,
    pub anything_self: Option<RefV>,
}

pub struct Derivation {
    pub graph: Builder,
    pub mm: Metamodel,
    pub from: usize,
    pub implied_owner: Vec<usize>,
    pub policy: ClosurePolicy,
    /// What elements inherit and import by the written heritage.
    pub written_walks: Walks,
    /// What they do with the implied heritage.
    pub implied_walks: Walks,
    pub exposed: Vec<Vec<usize>>,
    pub callee: Vec<Option<Reference>>,
    /// The first element that no library unit declares.
    pub lib_boundary: usize,
    /// What is known of elements outside the model.
    pub externals: Vec<External>,
    /// The library's `Anything::self`.
    pub anything_self: Option<Reference>,
    pub index: IdIndex,
}

/// An element outside the model: its id, its name, and the top-level package
/// it stands in.
pub struct External {
    pub id: u128,
    pub name: String,
    pub package: String,
}

pub struct ExternalV {
    pub id: u128,
    pub name: Seq<char>,
    pub package: Seq<char>,
}

pub open spec fn externals_view(s: Seq<External>) -> Seq<ExternalV> {
    s.map_values(|x: External| ExternalV { id: x.id, name: x.name@, package: x.package@ })
}

pub open spec fn lists_view(s: Seq<Vec<usize>>) -> Seq<Seq<usize>> {
    s.map_values(|v: Vec<usize>| v@)
}

pub open spec fn callees_view(s: Seq<Option<Reference>>) -> Seq<Option<RefV>> {
    s.map_values(|o: Option<Reference>| opt_ref_view(o))
}

impl DV {
    pub open spec fn n(self) -> nat {
        self.g.n()
    }

    /// Every table fits the graph and holds elements of it.
    #[verifier::opaque]
    pub open spec fn ok(self) -> bool {
        &&& self.g.wf()
        &&& self.from + self.implied_owner.len() == self.n()
        &&& all_below(self.implied_owner, self.from as nat)
        &&& self.written_walks.fits(self.n())
        &&& self.implied_walks.fits(self.n())
        &&& self.exposed.len() == self.n()
        &&& self.callee.len() == self.n()
        &&& forall|i: int| 0 <= i < self.n() ==> all_below(#[trigger] self.exposed[i], self.n())
        &&& forall|i: int| 0 <= i < self.n() ==> opt_ref_ok(#[trigger] self.callee[i], self.n())
        &&& opt_ref_ok(self.anything_self, self.n())
    }

    pub open spec fn is_kind(self, e: usize, kind: Seq<char>) -> bool {
        self.mm.conforms(self.g.elements[e as int].ty, kind)
    }

    pub open spec fn is_type(self, e: usize, ty: Seq<char>) -> bool {
        self.g.elements[e as int].ty == ty
    }

    /// The relationships an element owns, as written.
    pub open spec fn owned(self, e: usize) -> Seq<usize> {
        self.g.elements[e as int].owned
    }

    /// The elements a relationship owns.
    pub open spec fn children(self, e: usize) -> Seq<usize> {
        self.g.elements[e as int].children
    }

    pub open spec fn owning(self, e: usize) -> Option<usize> {
        self.g.elements[e as int].owning
    }

    /// The element that carries a relationship, be it written or implied.
    pub open spec fn carrier(self, e: usize) -> Option<usize> {
        if e >= self.from {
            Some(self.implied_owner[e - self.from])
        } else {
            self.g.elements[e as int].carrier
        }
    }

    /// The implied relationships of an element, from the `k`th on.
    pub open spec fn implied_from(self, e: usize, k: int) -> Seq<usize>
        decreases self.implied_owner.len() - k,
        when 0 <= k
    {
        if k >= self.implied_owner.len() {
            Seq::empty()
        } else if self.implied_owner[k] == e {
            seq![(self.from + k) as usize] + self.implied_from(e, k + 1)
        } else {
            self.implied_from(e, k + 1)
        }
    }

    pub open spec fn implied(self, e: usize) -> Seq<usize> {
        self.implied_from(e, 0)
    }

    pub open spec fn is_implied(self, e: usize) -> bool {
        e >= self.from
    }

    /// The walks that the policy asks for; on the owned side those without
    /// the implied heritage.
    pub open spec fn walks(self) -> WalksV {
        if self.policy.implied() == Some(true) {
            self.implied_walks
        } else {
            self.written_walks
        }
    }

    pub open spec fn inherited_of(self, e: usize) -> Seq<usize> {
        self.walks().inherited[e as int]
    }

    pub open spec fn imported_of(self, e: usize) -> Seq<usize> {
        self.walks().imported[e as int]
    }

    pub open spec fn exposed_of(self, e: usize) -> Seq<usize> {
        self.exposed[e as int]
    }

    pub open spec fn callee_of(self, e: usize) -> Option<RefV> {
        self.callee[e as int]
    }

    pub open spec fn passthrough(self) -> bool {
        self.policy == ClosurePolicy::Passthrough
    }

    /// What is known of an id outside the model: the last of the first `k`
    /// entries.
    pub open spec fn external_at(self, id: u128, k: int) -> Option<int>
        decreases k,
    {
        if k <= 0 {
            None
        } else if self.externals[k - 1].id == id {
            Some(k - 1)
        } else {
            self.external_at(id, k - 1)
        }
    }

    pub open spec fn external_name(self, id: u128) -> Option<Seq<char>> {
        match self.external_at(id, self.externals.len() as int) {
            Some(k) => Some(self.externals[k].name),
            None => None,
        }
    }

    pub open spec fn external_package(self, id: u128) -> Option<Seq<char>> {
        match self.external_at(id, self.externals.len() as int) {
            Some(k) => Some(self.externals[k].package),
            None => None,
        }
    }

    pub open spec fn from_library(self, e: usize) -> bool {
        e < self.lib_boundary
    }

    pub open spec fn self_of_anything(self) -> Option<RefV> {
        self.anything_self
    }

    /// The element with an id, or the id itself where the model has none.
    pub open spec fn by_id(self, id: u128) -> RefV {
        match id_index(own_ids(self.g), id, own_ids(self.g).len() as int) {
            Some(i) => RefV::Element(i),
            None => RefV::External(id),
        }
    }

    /// What a link refers to. A spelling that is itself an id is looked up.
    #[verifier::opaque]
    pub open spec fn reference(self, l: LinkV) -> RefV {
        match l {
            LinkV::Id(id) => self.by_id(id),
            LinkV::Name(s) => match uuid_parse(unquoted_from(s)) {
                Some(id) => self.by_id(id),
                None => RefV::Unresolved(s),
            },
        }
    }

    /// The reference a property holds.
    #[verifier::opaque]
    pub open spec fn link(self, e: usize, key: Seq<char>) -> Option<RefV> {
        match link_prop(self.g.elements[e as int].props, key) {
            Some(l) => Some(self.reference(l)),
            None => None,
        }
    }

    /// The references a list property holds.
    #[verifier::opaque]
    pub open spec fn link_list(self, e: usize, key: Seq<char>) -> Seq<RefV> {
        list_prop(self.g.elements[e as int].props, key).map_values(|l: LinkV| self.reference(l))
    }

    /// The model element a property names by its id.
    #[verifier::opaque]
    pub open spec fn target(self, e: usize, key: Seq<char>) -> Option<usize> {
        match link_prop(self.g.elements[e as int].props, key) {
            Some(LinkV::Id(id)) => self.by_id(id).elem(),
            _ => None,
        }
    }

    pub open spec fn flag(self, e: usize, key: Seq<char>) -> bool {
        flag_prop(self.g.elements[e as int].props, key) == Some(true)
    }

    pub open spec fn opt_flag(self, e: usize, key: Seq<char>) -> Option<bool> {
        flag_prop(self.g.elements[e as int].props, key)
    }

    pub open spec fn text(self, e: usize, key: Seq<char>) -> Option<Seq<char>> {
        text_prop(self.g.elements[e as int], key)
    }

    pub open spec fn text_is(self, e: usize, key: Seq<char>, value: Seq<char>) -> bool {
        self.text(e, key) == Some(value)
    }
}

/// A text without the quotes around it.
fn unquoted(s: &str) -> (r: String)
    ensures
        r@ == unquoted_from(s@),
{
    let cs: Vec<char> = chars_of(s);
    let n: usize = cs.len();
    let mut a: usize = 0;
    assert(cs@.skip(0) =~= cs@);
    while a < n && cs[a] == '\''
        invariant
            n == cs@.len(),
            a <= n,
            unquoted_from(cs@.skip(a as int)) == unquoted_from(cs@),
        decreases n - a,
    {
        assert(cs@.skip(a as int).drop_first() =~= cs@.skip(a + 1));
        a += 1;
    }
    let mut b: usize = n;
    assert(cs@.subrange(a as int, n as int) =~= cs@.skip(a as int));
    assert(unquoted_from(cs@.skip(a as int)) == unquoted_end(cs@.skip(a as int)));
    while b > a && cs[b - 1] == '\''
        invariant
            n == cs@.len(),
            a <= b <= n,
            unquoted_end(cs@.subrange(a as int, b as int)) == unquoted_from(cs@),
        decreases b,
    {
        assert(cs@.subrange(a as int, b as int).drop_last() =~= cs@.subrange(a as int, b - 1));
        b -= 1;
    }
    assert(unquoted_end(cs@.subrange(a as int, b as int)) == cs@.subrange(a as int, b as int));
    let part: Vec<char> = slice_chars(&cs, a, b);
    string_of(&part)
}

impl Derivation {
    #[verifier::opaque]
    pub open spec fn view(&self) -> DV {
        DV {
            g: self.graph@,
            mm: self.mm@,
            from: self.from,
            implied_owner: self.implied_owner@,
            policy: self.policy,
            written_walks: self.written_walks@,
            implied_walks: self.implied_walks@,
            exposed: lists_view(self.exposed@),
            callee: callees_view(self.callee@),
            lib_boundary: self.lib_boundary,
            externals: externals_view(self.externals@),
            anything_self: opt_ref_view(self.anything_self),
        }
    }

    /// The tables are valid, and the index covers the graph's ids.
    #[verifier::opaque]
    pub open spec fn ok(&self) -> bool {
        self@.ok() && self.index.covers(own_ids(self@.g))
    }

    pub fn is_kind(&self, e: usize, kind: &str) -> (r: bool)
        requires
            self.ok(),
            e < self@.n(),
        ensures
            r == self@.is_kind(e, kind@),
    {
        proof {
            reveal(Derivation::view);
        }
        self.mm.conforms(self.graph.ty_of(e), kind)
    }

    pub fn is_type(&self, e: usize, ty: &str) -> (r: bool)
        requires
            self.ok(),
            e < self@.n(),
        ensures
            r == self@.is_type(e, ty@),
    {
        proof {
            reveal(Derivation::view);
        }
        self.graph.has_type(e, ty)
    }

    pub fn owned(&self, e: usize) -> (r: Vec<usize>)
        requires
            self.ok(),
            e < self@.n(),
        ensures
            r@ == self@.owned(e),
            all_below(r@, self@.n()),
    {
        proof {
            reveal(Derivation::view);
            reveal(Derivation::ok);
            reveal(DV::ok);
            reveal(Builder::view);
            crate::state::lemma_elem_ok(self@.g, e as int);
        }
        duplicate(&self.graph.elements[e].owned)
    }

    pub fn children(&self, e: usize) -> (r: Vec<usize>)
        requires
            self.ok(),
            e < self@.n(),
        ensures
            r@ == self@.children(e),
            all_below(r@, self@.n()),
    {
        proof {
            reveal(Derivation::view);
            reveal(Derivation::ok);
            reveal(DV::ok);
            reveal(Builder::view);
            crate::state::lemma_elem_ok(self@.g, e as int);
        }
        duplicate(&self.graph.elements[e].children)
    }

    pub fn owning(&self, e: usize) -> (r: Option<usize>)
        requires
            self.ok(),
            e < self@.n(),
        ensures
            r == self@.owning(e),
            below(r, self@.n()),
            r is Some ==> r->0 < e,
    {
        proof {
            reveal(Derivation::view);
            reveal(Derivation::ok);
            reveal(DV::ok);
        }
        self.graph.owning_of(e)
    }

    pub fn carrier(&self, e: usize) -> (r: Option<usize>)
        requires
            self.ok(),
            e < self@.n(),
        ensures
            r == self@.carrier(e),
            below(r, self@.n()),
            r is Some ==> r->0 < e,
    {
        proof {
            reveal(Derivation::view);
            reveal(Derivation::ok);
            reveal(DV::ok);
        }
        if e >= self.from {
            Some(self.implied_owner[e - self.from])
        } else {
            self.graph.carrier_of(e)
        }
    }

    /// The implied relationships of an element.
    pub fn implied(&self, e: usize) -> (r: Vec<usize>)
        requires
            self.ok(),
            e < self@.n(),
        ensures
            r@ == self@.implied(e),
            all_below(r@, self@.n()),
    {
        proof {
            reveal(Derivation::view);
            reveal(Derivation::ok);
            reveal(DV::ok);
            crate::state::lemma_elem_ok(self@.g, e as int);
        }
        let mut out: Vec<usize> = Vec::new();
        let n: usize = self.implied_owner.len();
        let mut k: usize = 0;
        let ghost whole = self@.implied(e);
        assert(out@ + whole =~= whole);
        while k < n
            invariant
                n == self@.implied_owner.len(),
                n == self.implied_owner@.len(),
                self.implied_owner@ == self@.implied_owner,
                self.from == self@.from,
                self@.from + n == self@.n(),
                self@.n() <= usize::MAX,
                k <= n,
                all_below(out@, self@.n()),
                out@ + self@.implied_from(e, k as int) == whole,
            decreases n - k,
        {
            if self.implied_owner[k] == e {
                let ghost before = out@;
                let x: usize = self.from + k;
                out.push(x);
                assert(before + (seq![x] + self@.implied_from(e, k + 1)) =~= out@ + self@.implied_from(
                    e,
                    k + 1,
                ));
            }
            k += 1;
        }
        assert(out@ + Seq::<usize>::empty() =~= out@);
        out
    }

    pub fn is_implied(&self, e: usize) -> (r: bool)
        ensures
            r == self@.is_implied(e),
    {
        proof {
            reveal(Derivation::view);
        }
        e >= self.from
    }

    fn walks(&self) -> (r: &Walks)
        ensures
            r@ == self@.walks(),
    {
        proof {
            reveal(Derivation::view);
        }
        match self.policy.include_implied() {
            Some(true) => &self.implied_walks,
            _ => &self.written_walks,
        }
    }

    /// Whether a walk behind the closures of an element was cut short, so that
    /// a closure of it would be incomplete.
    pub fn closure_truncated(&self, e: usize) -> (r: bool)
        requires
            self.ok(),
            e < self@.n(),
        ensures
            r == self@.walks().cut[e as int],
    {
        proof {
            reveal(Derivation::view);
            reveal(Derivation::ok);
            reveal(DV::ok);
        }
        self.walks().cut[e]
    }

    pub fn inherited_of(&self, e: usize) -> (r: Vec<usize>)
        requires
            self.ok(),
            e < self@.n(),
        ensures
            r@ == self@.inherited_of(e),
            all_below(r@, self@.n()),
    {
        proof {
            reveal(Derivation::view);
            reveal(Derivation::ok);
            reveal(DV::ok);
            assert(all_below(self@.walks().inherited[e as int], self@.n()));
        }
        duplicate(&self.walks().inherited[e])
    }

    pub fn imported_memberships(&self, e: usize) -> (r: Vec<usize>)
        requires
            self.ok(),
            e < self@.n(),
        ensures
            r@ == self@.imported_of(e),
            all_below(r@, self@.n()),
    {
        proof {
            reveal(Derivation::view);
            reveal(Derivation::ok);
            reveal(DV::ok);
            assert(all_below(self@.walks().imported[e as int], self@.n()));
        }
        duplicate(&self.walks().imported[e])
    }

    pub fn exposed_of(&self, e: usize) -> (r: Vec<usize>)
        requires
            self.ok(),
            e < self@.n(),
        ensures
            r@ == self@.exposed_of(e),
            all_below(r@, self@.n()),
    {
        proof {
            reveal(Derivation::view);
            reveal(Derivation::ok);
            reveal(DV::ok);
            assert(all_below(self@.exposed[e as int], self@.n()));
        }
        duplicate(&self.exposed[e])
    }

    pub fn callee_of(&self, e: usize) -> (r: Option<Reference>)
        requires
            self.ok(),
            e < self@.n(),
        ensures
            opt_ref_view(r) == self@.callee_of(e),
            opt_ref_ok(opt_ref_view(r), self@.n()),
    {
        proof {
            reveal(Derivation::view);
            reveal(Derivation::ok);
            reveal(DV::ok);
            assert(opt_ref_ok(self@.callee[e as int], self@.n()));
        }
        match &self.callee[e] {
            Some(r) => Some(r.duplicate()),
            None => None,
        }
    }

    pub fn passthrough(&self) -> (r: bool)
        ensures
            r == self@.passthrough(),
    {
        proof {
            reveal(Derivation::view);
        }
        match self.policy {
            ClosurePolicy::Passthrough => true,
            _ => false,
        }
    }

    fn external_at(&self, id: u128) -> (r: Option<usize>)
        ensures
            match r {
                Some(k) => k < self.externals@.len() && self@.external_at(
                    id,
                    self@.externals.len() as int,
                ) == Some(k as int),
                None => self@.external_at(id, self@.externals.len() as int) is None,
            },
    {
        proof {
            reveal(Derivation::view);
        }
        let mut k: usize = self.externals.len();
        while k > 0
            invariant
                k <= self.externals@.len(),
                self@.externals == externals_view(self.externals@),
                self@.external_at(id, self@.externals.len() as int) == self@.external_at(id, k as int),
            decreases k,
        {
            k -= 1;
            if self.externals[k].id == id {
                return Some(k);
            }
        }
        None
    }

    pub fn external_name(&self, id: u128) -> (r: Option<String>)
        ensures
            crate::graph_get::opt_text(r) == self@.external_name(id),
    {
        proof {
            reveal(Derivation::view);
        }
        match self.external_at(id) {
            Some(k) => Some(self.externals[k].name.clone()),
            None => None,
        }
    }

    pub fn external_package(&self, id: u128) -> (r: Option<String>)
        ensures
            crate::graph_get::opt_text(r) == self@.external_package(id),
    {
        proof {
            reveal(Derivation::view);
        }
        match self.external_at(id) {
            Some(k) => Some(self.externals[k].package.clone()),
            None => None,
        }
    }

    /// Whether an element comes from a library unit.
    pub fn from_library(&self, e: usize) -> (r: bool)
        ensures
            r == self@.from_library(e),
    {
        proof {
            reveal(Derivation::view);
        }
        e < self.lib_boundary
    }

    pub fn self_of_anything(&self) -> (r: Option<Reference>)
        requires
            self.ok(),
        ensures
            opt_ref_view(r) == self@.self_of_anything(),
            opt_ref_ok(opt_ref_view(r), self@.n()),
    {
        proof {
            reveal(Derivation::view);
            reveal(Derivation::ok);
            reveal(DV::ok);
        }
        match &self.anything_self {
            Some(r) => Some(r.duplicate()),
            None => None,
        }
    }

    pub fn by_id(&self, id: u128) -> (r: Reference)
        requires
            self.ok(),
        ensures
            r@ == self@.by_id(id),
            r@.ok(self@.n()),
    {
        proof {
            reveal(Derivation::ok);
        }
        match self.index.find(id, Ghost(own_ids(self@.g))) {
            Some(i) => Reference::Element(i),
            None => Reference::External(id),
        }
    }

    pub fn reference(&self, l: &Link) -> (r: Reference)
        requires
            self.ok(),
        ensures
            r@ == self@.reference(l@),
            r@.ok(self@.n()),
    {
        proof {
            reveal(DV::reference);
        }
        match l {
            Link::Id(id) => self.by_id(*id),
            Link::Name(s) => {
                let bare: String = unquoted(s.as_str());
                match parse_id(bare.as_str()) {
                    Some(id) => self.by_id(id),
                    None => Reference::Unresolved(s.clone()),
                }
            },
        }
    }

    pub fn link(&self, e: usize, key: &str) -> (r: Option<Reference>)
        requires
            self.ok(),
            e < self@.n(),
        ensures
            opt_ref_view(r) == self@.link(e, key@),
            opt_ref_ok(opt_ref_view(r), self@.n()),
    {
        proof {
            reveal(Derivation::view);
            reveal(DV::link);
        }
        match self.graph.link_of(e, key) {
            Some(l) => Some(self.reference(&l)),
            None => None,
        }
    }

    pub fn link_list(&self, e: usize, key: &str) -> (r: Vec<Reference>)
        requires
            self.ok(),
            e < self@.n(),
        ensures
            refs_view(r@) == self@.link_list(e, key@),
            refs_ok(refs_view(r@), self@.n()),
    {
        proof {
            reveal(Derivation::view);
            reveal(DV::link_list);
        }
        let ls: Vec<Link> = self.graph.links_of(e, key);
        let mut out: Vec<Reference> = Vec::new();
        let n: usize = ls.len();
        let mut i: usize = 0;
        let ghost want = self@.link_list(e, key@);
        while i < n
            invariant
                self.ok(),
                n == ls@.len(),
                want == links_view(ls@).map_values(|l: LinkV| self@.reference(l)),
                i <= n,
                refs_view(out@) == want.take(i as int),
                refs_ok(refs_view(out@), self@.n()),
            decreases n - i,
        {
            let ghost before = refs_view(out@);
            let r: Reference = self.reference(&ls[i]);
            out.push(r);
            assert(want[i as int] == r@);
            assert(refs_view(out@) =~= before.push(r@));
            assert(want.take(i + 1) =~= before.push(want[i as int]));
            i += 1;
        }
        assert(want.take(n as int) =~= want);
        out
    }

    pub fn target(&self, e: usize, key: &str) -> (r: Option<usize>)
        requires
            self.ok(),
            e < self@.n(),
        ensures
            r == self@.target(e, key@),
            below(r, self@.n()),
    {
        proof {
            reveal(Derivation::view);
            reveal(DV::target);
        }
        match self.graph.link_of(e, key) {
            Some(Link::Id(id)) => self.by_id(id).element(),
            _ => None,
        }
    }

    pub fn flag(&self, e: usize, key: &str) -> (r: bool)
        requires
            self.ok(),
            e < self@.n(),
        ensures
            r == self@.flag(e, key@),
    {
        match self.opt_flag(e, key) {
            Some(b) => b,
            None => false,
        }
    }

    pub fn opt_flag(&self, e: usize, key: &str) -> (r: Option<bool>)
        requires
            self.ok(),
            e < self@.n(),
        ensures
            r == self@.opt_flag(e, key@),
    {
        proof {
            reveal(Derivation::view);
        }
        self.graph.flag_of(e, key)
    }

    pub fn text(&self, e: usize, key: &str) -> (r: Option<String>)
        requires
            self.ok(),
            e < self@.n(),
        ensures
            crate::graph_get::opt_text(r) == self@.text(e, key@),
    {
        proof {
            reveal(Derivation::view);
        }
        self.graph.text_of(e, key)
    }

    pub fn text_is(&self, e: usize, key: &str, value: &str) -> (r: bool)
        requires
            self.ok(),
            e < self@.n(),
        ensures
            r == self@.text_is(e, key@, value@),
    {
        match self.text(e, key) {
            Some(s) => str_eq(s.as_str(), value),
            None => false,
        }
    }
}

} // verus!
