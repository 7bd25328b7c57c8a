//! Derived properties by name.
use crate::derive_base::{
    opt_ref_ok, opt_ref_view, refs_ok, refs_view, Derivation, RefV, Reference, DV,
};
use crate::derive_lists::{
    as_refs, elem_of, elem_ref, empty_refs, get_elem, get_head, get_last, get_nth, get_nth_ref,
    get_tail_refs, head, last, make_ref, make_refs, make_unit_ref, nth, nth_ref, tail_refs,
    unite_refs, united_refs,
};
use crate::derived_table::{
    gated_names, hand_written, is_hand_written, lemma_closure_names, lemma_connection_names,
    lemma_gated_names_are_written, lemma_ungated_names, listed,
};
use crate::graph_get::opt_text;
use crate::ids::{dangling, dangling_id, id_text, uuid_text};
use crate::libcache::texts;
use crate::metamodel::{derives, ClosurePolicy, Composition, Derives, MetamodelV};
use crate::state::{all_below, below};
use crate::text::str_eq;
use crate::rpure::duplicate;
use vstd::prelude::*;

verus! {

impl DV {
    /// The type of a kind that carries a relationship and is its source.
    #[verifier::opaque]
    pub open spec fn owning_of_kind(self, e: usize, kind: Seq<char>) -> Option<usize> {
        match self.relationship_owning_type(e) {
            Some(o) => self.if_kind(o, kind),
            None => None,
        }
    }
}

impl Derivation {
    /// The type of a kind that carries a relationship and is its source.
    pub fn owning_of_kind(&self, e: usize, kind: &str) -> (r: Option<usize>)
        requires
            self.ok(),
            e < self@.n(),
        ensures
            r == self@.owning_of_kind(e, kind@),
            below(r, self@.n()),
    {
        proof {
            reveal(DV::owning_of_kind);
        }
        match self.relationship_owning_type(e) {
            Some(o) => self.if_kind(o, kind),
            None => None,
        }
    }
}

impl DV {
    /// The owning type of a feature, where it is of a kind.
    #[verifier::opaque]
    pub open spec fn owning_type_of_kind(self, e: usize, kind: Seq<char>) -> Option<usize> {
        match self.owning_type(e) {
            Some(o) => self.if_kind(o, kind),
            None => None,
        }
    }
}

impl Derivation {
    /// The owning type of a feature, where it is of a kind.
    pub fn owning_type_of_kind(&self, e: usize, kind: &str) -> (r: Option<usize>)
        requires
            self.ok(),
            e < self@.n(),
        ensures
            r == self@.owning_type_of_kind(e, kind@),
            below(r, self@.n()),
    {
        proof {
            reveal(DV::owning_type_of_kind);
        }
        match self.owning_type(e) {
            Some(o) => self.if_kind(o, kind),
            None => None,
        }
    }
}

impl DV {
    /// The annotating element that carries an annotation it does not own.
    #[verifier::opaque]
    pub open spec fn owning_annotating_element(self, e: usize) -> Option<usize> {
        match self.owned_annotating_element(e) {
            Some(_) => None,
            None => match self.carrier(e) {
                Some(o) => self.if_kind(o, "AnnotatingElement"@),
                None => None,
            },
        }
    }
}

impl Derivation {
    /// The annotating element that carries an annotation it does not own.
    pub fn owning_annotating_element(&self, e: usize) -> (r: Option<usize>)
        requires
            self.ok(),
            e < self@.n(),
        ensures
            r == self@.owning_annotating_element(e),
            below(r, self@.n()),
    {
        proof {
            reveal(DV::owning_annotating_element);
        }
        match self.owned_annotating_element(e) {
            Some(_) => None,
            None => match self.carrier(e) {
                Some(o) => self.if_kind(o, "AnnotatingElement"),
                None => None,
            },
        }
    }
}

impl DV {
    /// The carrier of an annotation, where it is what is annotated.
    #[verifier::opaque]
    pub open spec fn owning_annotated_element(self, e: usize) -> Option<usize> {
        match self.annotated_element(e) {
            Some(RefV::Element(t)) => match self.carrier(e) {
                Some(o) => if o == t {
                    Some(o)
                } else {
                    None
                },
                None => None,
            },
            _ => None,
        }
    }
}

impl Derivation {
    /// The carrier of an annotation, where it is what is annotated.
    pub fn owning_annotated_element(&self, e: usize) -> (r: Option<usize>)
        requires
            self.ok(),
            e < self@.n(),
        ensures
            r == self@.owning_annotated_element(e),
            below(r, self@.n()),
    {
        proof {
            reveal(DV::owning_annotated_element);
        }
        match self.annotated_element(e) {
            Some(Reference::Element(t)) => match self.carrier(e) {
                Some(o) => if o == t {
                    Some(o)
                } else {
                    None
                },
                None => None,
            },
            _ => None,
        }
    }
}

impl DV {
    /// The payload argument of an action.
    #[verifier::opaque]
    pub open spec fn payload_argument(self, e: usize) -> Option<usize> {
        if self.is_type(e, "AcceptActionUsage"@) {
            self.accept_payload_argument(e)
        } else {
            self.argument(e, 1)
        }
    }
}

impl Derivation {
    /// The payload argument of an action.
    pub fn payload_argument(&self, e: usize) -> (r: Option<usize>)
        requires
            self.ok(),
            e < self@.n(),
        ensures
            r == self@.payload_argument(e),
            below(r, self@.n()),
    {
        proof {
            reveal(DV::payload_argument);
        }
        if self.is_type(e, "AcceptActionUsage") {
            self.accept_payload_argument(e)
        } else {
            self.argument(e, 1)
        }
    }
}

impl DV {
    /// The receiver argument of an action.
    #[verifier::opaque]
    pub open spec fn receiver_argument(self, e: usize) -> Option<usize> {
        if self.is_type(e, "SendActionUsage"@) {
            self.argument(e, 3)
        } else {
            self.argument(e, 2)
        }
    }
}

impl Derivation {
    /// The receiver argument of an action.
    pub fn receiver_argument(&self, e: usize) -> (r: Option<usize>)
        requires
            self.ok(),
            e < self@.n(),
        ensures
            r == self@.receiver_argument(e),
            below(r, self@.n()),
    {
        proof {
            reveal(DV::receiver_argument);
        }
        if self.is_type(e, "SendActionUsage") {
            self.argument(e, 3)
        } else {
            self.argument(e, 2)
        }
    }
}

impl DV {
    /// The types of a flow's payload.
    #[verifier::opaque]
    pub open spec fn payload_types(self, e: usize) -> Seq<RefV> {
        match self.payload_feature(e) {
            Some(p) => self.types(p),
            None => Seq::<RefV>::empty(),
        }
    }
}

impl Derivation {
    /// The types of a flow's payload.
    pub fn payload_types(&self, e: usize) -> (r: Vec<Reference>)
        requires
            self.ok(),
            e < self@.n(),
        ensures
            refs_view(r@) == self@.payload_types(e),
            refs_ok(refs_view(r@), self@.n()),
    {
        proof {
            reveal(DV::payload_types);
        }
        match self.payload_feature(e) {
            Some(p) => self.types(p),
            None => empty_refs(),
        }
    }
}

impl DV {
    /// What an assignment or a feature reference refers to.
    #[verifier::opaque]
    pub open spec fn referent_of(self, e: usize) -> Option<RefV> {
        if self.is_type(e, "AssignmentActionUsage"@) {
            self.unowned_member(e, "Feature"@)
        } else {
            self.referent(e)
        }
    }
}

impl Derivation {
    /// What an assignment or a feature reference refers to.
    pub fn referent_of(&self, e: usize) -> (r: Option<Reference>)
        requires
            self.ok(),
            e < self@.n(),
        ensures
            opt_ref_view(r) == self@.referent_of(e),
            opt_ref_ok(opt_ref_view(r), self@.n()),
    {
        proof {
            reveal(DV::referent_of);
        }
        if self.is_type(e, "AssignmentActionUsage") {
            self.unowned_member(e, "Feature")
        } else {
            self.referent(e)
        }
    }
}

impl DV {
    /// The lower bound of a range with two.
    #[verifier::opaque]
    pub open spec fn lower_bound(self, e: usize) -> Option<usize> {
        match nth(self.bounds(e), 1) {
            Some(_) => head(self.bounds(e)),
            None => None,
        }
    }
}

impl Derivation {
    /// The lower bound of a range with two.
    pub fn lower_bound(&self, e: usize) -> (r: Option<usize>)
        requires
            self.ok(),
            e < self@.n(),
        ensures
            r == self@.lower_bound(e),
            below(r, self@.n()),
    {
        proof {
            reveal(DV::lower_bound);
        }
        match get_nth(&self.bounds(e), 1) {
            Some(_) => get_head(&self.bounds(e)),
            None => None,
        }
    }
}

impl DV {
    /// Whether a type is conjugated.
    #[verifier::opaque]
    pub open spec fn is_conjugated(self, e: usize) -> bool {
        match head(self.owned_of_kind(e, "Conjugation"@)) {
            Some(_) => true,
            None => false,
        }
    }
}

impl Derivation {
    /// Whether a type is conjugated.
    pub fn is_conjugated(&self, e: usize) -> (r: bool)
        requires
            self.ok(),
            e < self@.n(),
        ensures
            r == self@.is_conjugated(e),
    {
        proof {
            reveal(DV::is_conjugated);
        }
        match get_head(&self.owned_of_kind(e, "Conjugation")) {
            Some(_) => true,
            None => false,
        }
    }
}

impl DV {
    /// The port definition that a conjugated one belongs to.
    #[verifier::opaque]
    pub open spec fn original_port_definition(self, e: usize) -> Option<usize> {
        match self.owning_namespace(e) {
            Some(o) => self.if_kind(o, "PortDefinition"@),
            None => None,
        }
    }
}

impl Derivation {
    /// The port definition that a conjugated one belongs to.
    pub fn original_port_definition(&self, e: usize) -> (r: Option<usize>)
        requires
            self.ok(),
            e < self@.n(),
        ensures
            r == self@.original_port_definition(e),
            below(r, self@.n()),
    {
        proof {
            reveal(DV::original_port_definition);
        }
        match self.owning_namespace(e) {
            Some(o) => self.if_kind(o, "PortDefinition"),
            None => None,
        }
    }
}

/// A derived property's value. A property composed under the ownership tree
/// answers elements of the model; a reference-typed one answers references,
/// which may lie outside it.
pub enum DerivedValue {
    /// Single-valued, and without a value here.
    Null,
    Bool(bool),
    Str(String),
    Element(usize),
    Elements(Vec<usize>),
    Reference(Reference),
    References(Vec<Reference>),
    Strings(Vec<String>),
}

pub enum ValueOf {
    Null,
    Bool(bool),
    Str(Seq<char>),
    Element(usize),
    Elements(Seq<usize>),
    Reference(RefV),
    References(Seq<RefV>),
    Strings(Seq<Seq<char>>),
}

impl ValueOf {
    /// Every element it names is one of the first `n`.
    pub open spec fn ok(self, n: nat) -> bool {
        match self {
            ValueOf::Element(e) => e < n,
            ValueOf::Elements(s) => all_below(s, n),
            ValueOf::Reference(r) => r.ok(n),
            ValueOf::References(s) => refs_ok(s, n),
            _ => true,
        }
    }
}

impl DerivedValue {
    pub open spec fn view(&self) -> ValueOf {
        match self {
            DerivedValue::Null => ValueOf::Null,
            DerivedValue::Bool(b) => ValueOf::Bool(*b),
            DerivedValue::Str(s) => ValueOf::Str(s@),
            DerivedValue::Element(e) => ValueOf::Element(*e),
            DerivedValue::Elements(v) => ValueOf::Elements(v@),
            DerivedValue::Reference(r) => ValueOf::Reference(r@),
            DerivedValue::References(v) => ValueOf::References(refs_view(v@)),
            DerivedValue::Strings(v) => ValueOf::Strings(texts(v@)),
        }
    }

    /// The model element of a single-valued value.
    pub fn element(&self) -> (r: Option<usize>)
        ensures
            r == (match self@ {
                ValueOf::Element(e) => Some(e),
                ValueOf::Reference(x) => x.elem(),
                _ => None,
            }),
    {
        match self {
            DerivedValue::Element(e) => Some(*e),
            DerivedValue::Reference(x) => x.element(),
            _ => None,
        }
    }

    /// The model elements of a multi-valued value; targets outside the model
    /// are left out.
    pub fn elements(&self) -> (r: Vec<usize>)
        ensures
            r@ == (match self@ {
                ValueOf::Elements(s) => s,
                ValueOf::References(s) => elements_among(s, 0),
                _ => Seq::empty(),
            }),
    {
        match self {
            DerivedValue::Elements(v) => duplicate(v),
            DerivedValue::References(v) => {
                let ghost s = refs_view(v@);
                let mut out: Vec<usize> = Vec::new();
                let n: usize = v.len();
                let mut k: usize = 0;
                let ghost whole = elements_among(s, 0);
                assert(out@ + whole =~= whole);
                while k < n
                    invariant
                        n == v@.len(),
                        s == refs_view(v@),
                        k <= n,
                        out@ + elements_among(s, k as int) == whole,
                    decreases n - k,
                {
                    assert(s[k as int] == v@[k as int]@);
                    if let Some(e) = v[k].element() {
                        let ghost before = out@;
                        let ghost rest = elements_among(s, k + 1);
                        out.push(e);
                        assert(before + (seq![e] + rest) =~= out@ + rest);
                    }
                    k += 1;
                }
                assert(out@ + Seq::<usize>::empty() =~= out@);
                out
            },
            _ => Vec::new(),
        }
    }
}

/// The model elements among references from `k` on.
pub open spec fn elements_among(s: Seq<RefV>, k: int) -> Seq<usize>
    decreases s.len() - k,
    when 0 <= k
{
    if k >= s.len() {
        Seq::empty()
    } else {
        match s[k].elem() {
            Some(e) => seq![e] + elements_among(s, k + 1),
            None => elements_among(s, k + 1),
        }
    }
}

/// The answer for a derived property.
pub enum Derived {
    /// The metaclass does not declare the property, or owns it.
    NotDeclared,
    /// Declared, and not computed.
    NotComputed,
    Value(DerivedValue),
}

pub enum DerivedV {
    NotDeclared,
    NotComputed,
    Value(ValueOf),
}

impl Derived {
    pub open spec fn view(&self) -> DerivedV {
        match self {
            Derived::NotDeclared => DerivedV::NotDeclared,
            Derived::NotComputed => DerivedV::NotComputed,
            Derived::Value(v) => DerivedV::Value(v@),
        }
    }
}

pub open spec fn opt_value(o: Option<DerivedValue>) -> Option<ValueOf> {
    match o {
        Some(v) => Some(v@),
        None => None,
    }
}

pub open spec fn opt_value_ok(o: Option<ValueOf>, n: nat) -> bool {
    o is Some ==> o->0.ok(n)
}

pub open spec fn opt_element(o: Option<usize>) -> ValueOf {
    match o {
        Some(e) => ValueOf::Element(e),
        None => ValueOf::Null,
    }
}

pub open spec fn opt_reference(o: Option<RefV>) -> ValueOf {
    match o {
        Some(r) => ValueOf::Reference(r),
        None => ValueOf::Null,
    }
}

pub open spec fn opt_bool(o: Option<bool>) -> ValueOf {
    match o {
        Some(b) => ValueOf::Bool(b),
        None => ValueOf::Null,
    }
}

pub open spec fn opt_str(o: Option<Seq<char>>) -> ValueOf {
    match o {
        Some(s) => ValueOf::Str(s),
        None => ValueOf::Null,
    }
}

fn opt_element_value(o: Option<usize>) -> (r: DerivedValue)
    ensures
        r@ == opt_element(o),
        forall|n: nat| #[trigger] r@.ok(n) <==> below(o, n),
{
    match o {
        Some(e) => DerivedValue::Element(e),
        None => DerivedValue::Null,
    }
}

fn opt_reference_value(o: Option<Reference>) -> (r: DerivedValue)
    ensures
        r@ == opt_reference(opt_ref_view(o)),
        forall|n: nat| #[trigger] r@.ok(n) <==> opt_ref_ok(opt_ref_view(o), n),
{
    match o {
        Some(r) => DerivedValue::Reference(r),
        None => DerivedValue::Null,
    }
}

fn opt_bool_value(o: Option<bool>) -> (r: DerivedValue)
    ensures
        r@ == opt_bool(o),
        forall|n: nat| #[trigger] r@.ok(n),
{
    match o {
        Some(b) => DerivedValue::Bool(b),
        None => DerivedValue::Null,
    }
}

fn opt_str_value(o: Option<String>) -> (r: DerivedValue)
    ensures
        r@ == opt_str(opt_text(o)),
        forall|n: nat| #[trigger] r@.ok(n),
{
    match o {
        Some(s) => DerivedValue::Str(s),
        None => DerivedValue::Null,
    }
}

impl DV {
    /// The bodies of documentation from `k` on.
    pub open spec fn bodies_from(self, s: Seq<usize>, k: int) -> Seq<Seq<char>>
        decreases s.len() - k,
        when 0 <= k
    {
        if k >= s.len() {
            Seq::empty()
        } else {
            match self.text(s[k], "body"@) {
                Some(t) => seq![t] + self.bodies_from(s, k + 1),
                None => self.bodies_from(s, k + 1),
            }
        }
    }

    pub open spec fn bodies(self, s: Seq<usize>) -> Seq<Seq<char>> {
        self.bodies_from(s, 0)
    }

    /// Whether a usage is by reference: not composite.
    pub open spec fn is_reference(self, e: usize) -> Option<bool> {
        match self.opt_flag(e, "isComposite"@) {
            Some(c) => Some(!c),
            None => None,
        }
    }

    /// The id of a membership's member as it is interchanged.
    #[verifier::opaque]
    pub open spec fn member_id(self, m: usize) -> Option<Seq<char>> {
        match self.member_element(m) {
            Some(RefV::Element(e)) => Some(uuid_text(self.g.elements[e as int].id)),
            Some(RefV::External(id)) => Some(uuid_text(id)),
            Some(RefV::Unresolved(s)) => Some(uuid_text(dangling(s))),
            None => None,
        }
    }

    /// The name of the member a membership owns.
    #[verifier::opaque]
    pub open spec fn member_name(self, m: usize) -> Option<Seq<char>> {
        match self.first_child(m) {
            Some(e) => self.name(e),
            None => None,
        }
    }

    #[verifier::opaque]
    pub open spec fn member_short_name(self, m: usize) -> Option<Seq<char>> {
        match self.first_child(m) {
            Some(e) => self.short_name(e),
            None => None,
        }
    }
}

impl Derivation {
    fn bodies(&self, s: &Vec<usize>) -> (r: Vec<String>)
        requires
            self.ok(),
            all_below(s@, self@.n()),
        ensures
            texts(r@) == self@.bodies(s@),
    {
        let mut out: Vec<String> = Vec::new();
        let n: usize = s.len();
        let mut k: usize = 0;
        let ghost whole = self@.bodies(s@);
        assert(texts(out@) + whole =~= whole);
        while k < n
            invariant
                self.ok(),
                all_below(s@, self@.n()),
                n == s@.len(),
                k <= n,
                texts(out@) + self@.bodies_from(s@, k as int) == whole,
            decreases n - k,
        {
            let ghost before = texts(out@);
            let ghost rest = self@.bodies_from(s@, k + 1);
            if let Some(t) = self.text(s[k], "body") {
                let ghost tv = t@;
                out.push(t);
                assert(texts(out@) =~= before.push(tv));
                assert(before + (seq![tv] + rest) =~= texts(out@) + rest);
            }
            k += 1;
        }
        assert(texts(out@) + Seq::<Seq<char>>::empty() =~= texts(out@));
        out
    }

    fn is_reference(&self, e: usize) -> (r: Option<bool>)
        requires
            self.ok(),
            e < self@.n(),
        ensures
            r == self@.is_reference(e),
    {
        match self.opt_flag(e, "isComposite") {
            Some(c) => Some(!c),
            None => None,
        }
    }

    fn member_id(&self, m: usize) -> (r: Option<String>)
        requires
            self.ok(),
            m < self@.n(),
        ensures
            opt_text(r) == self@.member_id(m),
    {
        proof {
            reveal(DV::member_id);
            reveal(Derivation::view);
        }
        match self.member_element(m) {
            Some(Reference::Element(e)) => Some(id_text(self.graph.id_of(e))),
            Some(Reference::External(id)) => Some(id_text(id)),
            Some(Reference::Unresolved(s)) => Some(dangling_id(s.as_str())),
            None => None,
        }
    }

    fn member_name(&self, m: usize) -> (r: Option<String>)
        requires
            self.ok(),
            m < self@.n(),
        ensures
            opt_text(r) == self@.member_name(m),
    {
        proof {
            reveal(DV::member_name);
        }
        match self.first_child(m) {
            Some(e) => self.name(e),
            None => None,
        }
    }

    fn member_short_name(&self, m: usize) -> (r: Option<String>)
        requires
            self.ok(),
            m < self@.n(),
        ensures
            opt_text(r) == self@.member_short_name(m),
    {
        proof {
            reveal(DV::member_short_name);
        }
        match self.first_child(m) {
            Some(e) => self.short_name(e),
            None => None,
        }
    }
}

impl DV {
    /// The computed properties of one family.
    #[verifier::opaque]
    pub open spec fn ownership_value(self, e: usize, name: Seq<char>) -> Option<ValueOf> {
        if name == "owner"@ {
            Some(opt_element(self.owner(e)))
        } else if name == "owningMembership"@ {
            Some(opt_element(self.owning_membership(e)))
        } else if name == "owningNamespace"@ {
            Some(opt_element(self.owning_namespace(e)))
        } else if name == "ownedElement"@ {
            Some(ValueOf::Elements(self.all_children(self.owned(e))))
        } else if name == "isLibraryElement"@ {
            Some(ValueOf::Bool(self.in_library_package(e)))
        } else if name == "ownedMembership"@ {
            Some(ValueOf::Elements(self.owned_memberships(e)))
        } else if name == "membership"@ {
            Some(ValueOf::Elements(self.memberships(e)))
        } else if name == "ownedMember"@ {
            Some(ValueOf::Elements(self.owned_members(e)))
        } else if name == "member"@ {
            Some(ValueOf::References(self.members(e)))
        } else if name == "ownedImport"@ {
            Some(ValueOf::Elements(self.owned_imports(e)))
        } else if name == "ownedFeatureMembership"@ {
            Some(ValueOf::Elements(self.owned_feature_memberships(e)))
        } else if name == "featureMembership"@ {
            Some(ValueOf::Elements(self.feature_memberships(e)))
        } else if name == "ownedFeature"@ {
            Some(ValueOf::Elements(self.owned_features(e)))
        } else if name == "feature"@ {
            Some(ValueOf::Elements(self.features(e)))
        } else if name == "featuringType"@ {
            Some(ValueOf::Elements(self.featuring_types(e)))
        } else {
            None
        }
    }
}

impl Derivation {
    fn ownership_value(&self, e: usize, name: &str) -> (r: Option<DerivedValue>)
        requires
            self.ok(),
            e < self@.n(),
        ensures
            opt_value(r) == self@.ownership_value(e, name@),
            opt_value_ok(opt_value(r), self@.n()),
    {
        proof {
            reveal(DV::ownership_value);
        }
        if str_eq(name, "owner") {
            return Some(opt_element_value(self.owner(e)));
        }
        if str_eq(name, "owningMembership") {
            return Some(opt_element_value(self.owning_membership(e)));
        }
        if str_eq(name, "owningNamespace") {
            return Some(opt_element_value(self.owning_namespace(e)));
        }
        if str_eq(name, "ownedElement") {
            return Some(DerivedValue::Elements(self.all_children(&self.owned(e))));
        }
        if str_eq(name, "isLibraryElement") {
            return Some(DerivedValue::Bool(self.in_library_package(e)));
        }
        if str_eq(name, "ownedMembership") {
            return Some(DerivedValue::Elements(self.owned_memberships(e)));
        }
        if str_eq(name, "membership") {
            return Some(DerivedValue::Elements(self.memberships(e)));
        }
        if str_eq(name, "ownedMember") {
            return Some(DerivedValue::Elements(self.owned_members(e)));
        }
        if str_eq(name, "member") {
            return Some(DerivedValue::References(self.members(e)));
        }
        if str_eq(name, "ownedImport") {
            return Some(DerivedValue::Elements(self.owned_imports(e)));
        }
        if str_eq(name, "ownedFeatureMembership") {
            return Some(DerivedValue::Elements(self.owned_feature_memberships(e)));
        }
        if str_eq(name, "featureMembership") {
            return Some(DerivedValue::Elements(self.feature_memberships(e)));
        }
        if str_eq(name, "ownedFeature") {
            return Some(DerivedValue::Elements(self.owned_features(e)));
        }
        if str_eq(name, "feature") {
            return Some(DerivedValue::Elements(self.features(e)));
        }
        if str_eq(name, "featuringType") {
            return Some(DerivedValue::Elements(self.featuring_types(e)));
        }
        None
    }
}

impl DV {
    /// The computed properties of one family.
    #[verifier::opaque]
    pub open spec fn owners_value(self, e: usize, name: Seq<char>) -> Option<ValueOf> {
        if name == "owningType"@ {
            Some(opt_element(self.owning_type_any(e)))
        } else if name == "owningClassifier"@ {
            Some(opt_element(self.owning_of_kind(e, "Classifier"@)))
        } else if name == "owningFeature"@ || name == "owningFeatureOfType"@ {
            Some(opt_element(self.owning_of_kind(e, "Feature"@)))
        } else if name == "owningFeatureMembership"@ {
            Some(opt_element(self.owning_feature_membership(e)))
        } else if name == "endOwningType"@ {
            Some(opt_element(self.end_owning_type(e)))
        } else if name == "owningDefinition"@ {
            Some(opt_element(self.owning_type_of_kind(e, "Definition"@)))
        } else if name == "owningUsage"@ {
            Some(opt_element(self.owning_type_of_kind(e, "Usage"@)))
        } else if name == "membershipOwningNamespace"@ || name == "importOwningNamespace"@ || name == "featureWithValue"@ || name == "featureChained"@ || name == "referencingFeature"@ || name == "crossingFeature"@ || name == "typeUnioned"@ || name == "typeIntersected"@ || name == "typeDifferenced"@ {
            Some(opt_element(self.carrier(e)))
        } else if name == "ownedMemberElement"@ || name == "ownedMemberFeature"@ {
            Some(opt_element(self.first_child(e)))
        } else if name == "importedElement"@ {
            Some(opt_reference(self.imported_element(e)))
        } else if name == "isReference"@ {
            Some(opt_bool(self.is_reference(e)))
        } else if name == "name"@ {
            Some(opt_str(self.name(e)))
        } else if name == "shortName"@ {
            Some(opt_str(self.short_name(e)))
        } else if name == "qualifiedName"@ {
            Some(opt_str(self.qualified_name(e)))
        } else if name == "text"@ {
            Some(
                ValueOf::Strings(
                    self.bodies(self.of_type(self.all_children(self.owned(e)), "Documentation"@))
                )
            )
        } else if name == "multiplicity"@ {
            Some(opt_element(self.multiplicity(e)))
        } else if name == "ownedConjugator"@ {
            Some(opt_element(head(self.owned_of_kind(e, "Conjugation"@))))
        } else {
            None
        }
    }
}

impl Derivation {
    fn owners_value(&self, e: usize, name: &str) -> (r: Option<DerivedValue>)
        requires
            self.ok(),
            e < self@.n(),
        ensures
            opt_value(r) == self@.owners_value(e, name@),
            opt_value_ok(opt_value(r), self@.n()),
    {
        proof {
            reveal(DV::owners_value);
        }
        if str_eq(name, "owningType") {
            return Some(opt_element_value(self.owning_type_any(e)));
        }
        if str_eq(name, "owningClassifier") {
            return Some(opt_element_value(self.owning_of_kind(e, "Classifier")));
        }
        if str_eq(name, "owningFeature") || str_eq(name, "owningFeatureOfType") {
            return Some(opt_element_value(self.owning_of_kind(e, "Feature")));
        }
        if str_eq(name, "owningFeatureMembership") {
            return Some(opt_element_value(self.owning_feature_membership(e)));
        }
        if str_eq(name, "endOwningType") {
            return Some(opt_element_value(self.end_owning_type(e)));
        }
        if str_eq(name, "owningDefinition") {
            return Some(opt_element_value(self.owning_type_of_kind(e, "Definition")));
        }
        if str_eq(name, "owningUsage") {
            return Some(opt_element_value(self.owning_type_of_kind(e, "Usage")));
        }
        if str_eq(name, "membershipOwningNamespace") || str_eq(name, "importOwningNamespace") || str_eq(name, "featureWithValue") || str_eq(name, "featureChained") || str_eq(name, "referencingFeature") || str_eq(name, "crossingFeature") || str_eq(name, "typeUnioned") || str_eq(name, "typeIntersected") || str_eq(name, "typeDifferenced") {
            return Some(opt_element_value(self.carrier(e)));
        }
        if str_eq(name, "ownedMemberElement") || str_eq(name, "ownedMemberFeature") {
            return Some(opt_element_value(self.first_child(e)));
        }
        if str_eq(name, "importedElement") {
            return Some(opt_reference_value(self.imported_element(e)));
        }
        if str_eq(name, "isReference") {
            return Some(opt_bool_value(self.is_reference(e)));
        }
        if str_eq(name, "name") {
            return Some(opt_str_value(self.name(e)));
        }
        if str_eq(name, "shortName") {
            return Some(opt_str_value(self.short_name(e)));
        }
        if str_eq(name, "qualifiedName") {
            return Some(opt_str_value(self.qualified_name(e)));
        }
        if str_eq(name, "text") {
            return Some(
                DerivedValue::Strings(
                    self.bodies(&self.of_type(&self.all_children(&self.owned(e)), "Documentation"))
                )
            );
        }
        if str_eq(name, "multiplicity") {
            return Some(opt_element_value(self.multiplicity(e)));
        }
        if str_eq(name, "ownedConjugator") {
            return Some(opt_element_value(get_head(&self.owned_of_kind(e, "Conjugation"))));
        }
        None
    }
}

impl DV {
    /// The computed properties of one family.
    #[verifier::opaque]
    pub open spec fn annotations_value(self, e: usize, name: Seq<char>) -> Option<ValueOf> {
        if name == "annotation"@ {
            Some(ValueOf::Elements(self.annotations(e)))
        } else if name == "ownedAnnotatingRelationship"@ {
            Some(ValueOf::Elements(self.about_annotations(e)))
        } else if name == "ownedAnnotation"@ {
            Some(ValueOf::Elements(self.owned_annotations(e)))
        } else if name == "annotatedElement"@ {
            Some(ValueOf::References(self.annotating_targets(e)))
        } else if name == "documentedElement"@ || name == "representedElement"@ {
            Some(opt_reference(nth_ref(self.annotating_targets(e), 0)))
        } else if name == "annotatingElement"@ {
            Some(opt_element(self.annotating_element(e)))
        } else if name == "ownedAnnotatingElement"@ {
            Some(opt_element(self.owned_annotating_element(e)))
        } else if name == "owningAnnotatingElement"@ {
            Some(opt_element(self.owning_annotating_element(e)))
        } else if name == "owningAnnotatedElement"@ {
            Some(opt_element(self.owning_annotated_element(e)))
        } else if name == "owningAnnotatingRelationship"@ {
            Some(opt_element(self.owning_annotation(e)))
        } else if name == "type"@ {
            Some(ValueOf::References(self.types(e)))
        } else if name == "definition"@ {
            Some(ValueOf::References(self.cast_all(self.types(e), "Classifier"@)))
        } else {
            None
        }
    }
}

impl Derivation {
    fn annotations_value(&self, e: usize, name: &str) -> (r: Option<DerivedValue>)
        requires
            self.ok(),
            e < self@.n(),
        ensures
            opt_value(r) == self@.annotations_value(e, name@),
            opt_value_ok(opt_value(r), self@.n()),
    {
        proof {
            reveal(DV::annotations_value);
        }
        if str_eq(name, "annotation") {
            return Some(DerivedValue::Elements(self.annotations(e)));
        }
        if str_eq(name, "ownedAnnotatingRelationship") {
            return Some(DerivedValue::Elements(self.about_annotations(e)));
        }
        if str_eq(name, "ownedAnnotation") {
            return Some(DerivedValue::Elements(self.owned_annotations(e)));
        }
        if str_eq(name, "annotatedElement") {
            return Some(DerivedValue::References(self.annotating_targets(e)));
        }
        if str_eq(name, "documentedElement") || str_eq(name, "representedElement") {
            return Some(opt_reference_value(get_nth_ref(&self.annotating_targets(e), 0)));
        }
        if str_eq(name, "annotatingElement") {
            return Some(opt_element_value(self.annotating_element(e)));
        }
        if str_eq(name, "ownedAnnotatingElement") {
            return Some(opt_element_value(self.owned_annotating_element(e)));
        }
        if str_eq(name, "owningAnnotatingElement") {
            return Some(opt_element_value(self.owning_annotating_element(e)));
        }
        if str_eq(name, "owningAnnotatedElement") {
            return Some(opt_element_value(self.owning_annotated_element(e)));
        }
        if str_eq(name, "owningAnnotatingRelationship") {
            return Some(opt_element_value(self.owning_annotation(e)));
        }
        if str_eq(name, "type") {
            return Some(DerivedValue::References(self.types(e)));
        }
        if str_eq(name, "definition") {
            return Some(DerivedValue::References(self.cast_all(&self.types(e), "Classifier")));
        }
        None
    }
}

impl DV {
    /// The computed properties of one family.
    #[verifier::opaque]
    pub open spec fn behavior_value(self, e: usize, name: Seq<char>) -> Option<ValueOf> {
        if name == "entryAction"@ {
            Some(opt_element(self.state_subaction(e, "entry"@)))
        } else if name == "doAction"@ {
            Some(opt_element(self.state_subaction(e, "do"@)))
        } else if name == "exitAction"@ {
            Some(opt_element(self.state_subaction(e, "exit"@)))
        } else if name == "triggerAction"@ {
            Some(ValueOf::Elements(self.transition_features(e, "trigger"@, "AcceptActionUsage"@)))
        } else if name == "guardExpression"@ {
            Some(ValueOf::Elements(self.transition_features(e, "guard"@, "Expression"@)))
        } else if name == "effectAction"@ {
            Some(ValueOf::Elements(self.transition_features(e, "effect"@, "ActionUsage"@)))
        } else if name == "succession"@ {
            Some(opt_element(self.succession(e)))
        } else if name == "source"@ {
            Some(opt_reference(self.transition_source(e)))
        } else if name == "target"@ {
            Some(opt_reference(self.transition_target(e)))
        } else if name == "loopVariable"@ {
            Some(opt_element(self.loop_variable(e)))
        } else if name == "ifArgument"@ || name == "whileArgument"@ {
            Some(opt_element(self.expression_at(e, 1)))
        } else if name == "thenAction"@ || name == "bodyAction"@ {
            Some(opt_element(self.parameter_as(e, 2, "ActionUsage"@)))
        } else if name == "elseAction"@ {
            Some(opt_element(self.parameter_as(e, 3, "ActionUsage"@)))
        } else if name == "untilArgument"@ {
            Some(opt_element(self.expression_at(e, 3)))
        } else if name == "payloadArgument"@ {
            Some(opt_element(self.payload_argument(e)))
        } else if name == "seqArgument"@ || name == "targetArgument"@ || name == "terminatedOccurrenceArgument"@ {
            Some(opt_element(self.argument(e, 1)))
        } else if name == "valueExpression"@ || name == "senderArgument"@ {
            Some(opt_element(self.argument(e, 2)))
        } else if name == "receiverArgument"@ {
            Some(opt_element(self.receiver_argument(e)))
        } else if name == "payloadParameter"@ {
            Some(opt_element(head(self.directed(self.features(e)))))
        } else {
            None
        }
    }
}

impl Derivation {
    fn behavior_value(&self, e: usize, name: &str) -> (r: Option<DerivedValue>)
        requires
            self.ok(),
            e < self@.n(),
        ensures
            opt_value(r) == self@.behavior_value(e, name@),
            opt_value_ok(opt_value(r), self@.n()),
    {
        proof {
            reveal(DV::behavior_value);
        }
        if str_eq(name, "entryAction") {
            return Some(opt_element_value(self.state_subaction(e, "entry")));
        }
        if str_eq(name, "doAction") {
            return Some(opt_element_value(self.state_subaction(e, "do")));
        }
        if str_eq(name, "exitAction") {
            return Some(opt_element_value(self.state_subaction(e, "exit")));
        }
        if str_eq(name, "triggerAction") {
            return Some(DerivedValue::Elements(self.transition_features(e, "trigger", "AcceptActionUsage")));
        }
        if str_eq(name, "guardExpression") {
            return Some(DerivedValue::Elements(self.transition_features(e, "guard", "Expression")));
        }
        if str_eq(name, "effectAction") {
            return Some(DerivedValue::Elements(self.transition_features(e, "effect", "ActionUsage")));
        }
        if str_eq(name, "succession") {
            return Some(opt_element_value(self.succession(e)));
        }
        if str_eq(name, "source") {
            return Some(opt_reference_value(self.transition_source(e)));
        }
        if str_eq(name, "target") {
            return Some(opt_reference_value(self.transition_target(e)));
        }
        if str_eq(name, "loopVariable") {
            return Some(opt_element_value(self.loop_variable(e)));
        }
        if str_eq(name, "ifArgument") || str_eq(name, "whileArgument") {
            return Some(opt_element_value(self.expression_at(e, 1)));
        }
        if str_eq(name, "thenAction") || str_eq(name, "bodyAction") {
            return Some(opt_element_value(self.parameter_as(e, 2, "ActionUsage")));
        }
        if str_eq(name, "elseAction") {
            return Some(opt_element_value(self.parameter_as(e, 3, "ActionUsage")));
        }
        if str_eq(name, "untilArgument") {
            return Some(opt_element_value(self.expression_at(e, 3)));
        }
        if str_eq(name, "payloadArgument") {
            return Some(opt_element_value(self.payload_argument(e)));
        }
        if str_eq(name, "seqArgument") || str_eq(name, "targetArgument") || str_eq(name, "terminatedOccurrenceArgument") {
            return Some(opt_element_value(self.argument(e, 1)));
        }
        if str_eq(name, "valueExpression") || str_eq(name, "senderArgument") {
            return Some(opt_element_value(self.argument(e, 2)));
        }
        if str_eq(name, "receiverArgument") {
            return Some(opt_element_value(self.receiver_argument(e)));
        }
        if str_eq(name, "payloadParameter") {
            return Some(opt_element_value(get_head(&self.directed(&self.features(e)))));
        }
        None
    }
}

impl DV {
    /// The computed properties of one family.
    #[verifier::opaque]
    pub open spec fn references_value(self, e: usize, name: Seq<char>) -> Option<ValueOf> {
        if name == "eventOccurrence"@ {
            Some(opt_reference(self.referenced_or_self(e, "OccurrenceUsage"@)))
        } else if name == "performedAction"@ {
            Some(opt_reference(self.referenced_or_self(e, "ActionUsage"@)))
        } else if name == "exhibitedState"@ {
            Some(opt_reference(self.referenced_or_self(e, "StateUsage"@)))
        } else if name == "useCaseIncluded"@ {
            Some(opt_reference(self.referenced_or_self(e, "UseCaseUsage"@)))
        } else if name == "assertedConstraint"@ {
            Some(opt_reference(self.referenced_or_self(e, "ConstraintUsage"@)))
        } else if name == "satisfiedRequirement"@ {
            Some(opt_reference(self.referenced_or_self(e, "RequirementUsage"@)))
        } else if name == "includedUseCase"@ {
            Some(ValueOf::References(self.included_use_cases(e)))
        } else if name == "result"@ {
            Some(opt_element(self.result(e)))
        } else if name == "function"@ {
            Some(opt_reference(nth_ref(self.cast_all(self.types(e), "Function"@), 0)))
        } else if name == "predicate"@ {
            Some(opt_reference(nth_ref(self.cast_all(self.types(e), "Predicate"@), 0)))
        } else if name == "metaclass"@ {
            Some(opt_reference(nth_ref(self.cast_all(self.types(e), "Metaclass"@), 0)))
        } else if name == "association"@ {
            Some(ValueOf::References(self.cast_all(self.types(e), "Association"@)))
        } else if name == "interaction"@ {
            Some(ValueOf::References(self.cast_all(self.types(e), "Interaction"@)))
        } else if name == "payloadFeature"@ {
            Some(opt_element(self.payload_feature(e)))
        } else if name == "payloadType"@ {
            Some(ValueOf::References(self.payload_types(e)))
        } else if name == "individualDefinition"@ {
            Some(opt_reference(elem_ref(head(self.individuals(self.elements(self.types(e)))))))
        } else if name == "instantiatedType"@ {
            Some(opt_reference(self.instantiated_type(e)))
        } else if name == "argument"@ {
            Some(ValueOf::References(as_refs(self.arguments(e))))
        } else if name == "referent"@ {
            Some(opt_reference(self.referent_of(e)))
        } else if name == "referencedElement"@ {
            Some(opt_reference(self.unowned_member(e, "Element"@)))
        } else if name == "expression"@ {
            Some(ValueOf::Elements(self.function_expressions(e)))
        } else {
            None
        }
    }
}

impl Derivation {
    fn references_value(&self, e: usize, name: &str) -> (r: Option<DerivedValue>)
        requires
            self.ok(),
            e < self@.n(),
        ensures
            opt_value(r) == self@.references_value(e, name@),
            opt_value_ok(opt_value(r), self@.n()),
    {
        proof {
            reveal(DV::references_value);
        }
        if str_eq(name, "eventOccurrence") {
            return Some(opt_reference_value(self.referenced_or_self(e, "OccurrenceUsage")));
        }
        if str_eq(name, "performedAction") {
            return Some(opt_reference_value(self.referenced_or_self(e, "ActionUsage")));
        }
        if str_eq(name, "exhibitedState") {
            return Some(opt_reference_value(self.referenced_or_self(e, "StateUsage")));
        }
        if str_eq(name, "useCaseIncluded") {
            return Some(opt_reference_value(self.referenced_or_self(e, "UseCaseUsage")));
        }
        if str_eq(name, "assertedConstraint") {
            return Some(opt_reference_value(self.referenced_or_self(e, "ConstraintUsage")));
        }
        if str_eq(name, "satisfiedRequirement") {
            return Some(opt_reference_value(self.referenced_or_self(e, "RequirementUsage")));
        }
        if str_eq(name, "includedUseCase") {
            return Some(DerivedValue::References(self.included_use_cases(e)));
        }
        if str_eq(name, "result") {
            return Some(opt_element_value(self.result(e)));
        }
        if str_eq(name, "function") {
            return Some(opt_reference_value(get_nth_ref(&self.cast_all(&self.types(e), "Function"), 0)));
        }
        if str_eq(name, "predicate") {
            return Some(opt_reference_value(get_nth_ref(&self.cast_all(&self.types(e), "Predicate"), 0)));
        }
        if str_eq(name, "metaclass") {
            return Some(opt_reference_value(get_nth_ref(&self.cast_all(&self.types(e), "Metaclass"), 0)));
        }
        if str_eq(name, "association") {
            return Some(DerivedValue::References(self.cast_all(&self.types(e), "Association")));
        }
        if str_eq(name, "interaction") {
            return Some(DerivedValue::References(self.cast_all(&self.types(e), "Interaction")));
        }
        if str_eq(name, "payloadFeature") {
            return Some(opt_element_value(self.payload_feature(e)));
        }
        if str_eq(name, "payloadType") {
            return Some(DerivedValue::References(self.payload_types(e)));
        }
        if str_eq(name, "individualDefinition") {
            return Some(
                opt_reference_value(
                    make_ref(get_head(&self.individuals(&self.elements(&self.types(e)))))
                )
            );
        }
        if str_eq(name, "instantiatedType") {
            return Some(opt_reference_value(self.instantiated_type(e)));
        }
        if str_eq(name, "argument") {
            return Some(DerivedValue::References(make_refs(&self.arguments(e))));
        }
        if str_eq(name, "referent") {
            return Some(opt_reference_value(self.referent_of(e)));
        }
        if str_eq(name, "referencedElement") {
            return Some(opt_reference_value(self.unowned_member(e, "Element")));
        }
        if str_eq(name, "expression") {
            return Some(DerivedValue::Elements(self.function_expressions(e)));
        }
        None
    }
}

impl DV {
    /// The computed properties of one family.
    #[verifier::opaque]
    pub open spec fn members_value(self, e: usize, name: Seq<char>) -> Option<ValueOf> {
        if name == "bound"@ {
            Some(ValueOf::Elements(self.bounds(e)))
        } else if name == "lowerBound"@ {
            Some(opt_element(self.lower_bound(e)))
        } else if name == "upperBound"@ {
            Some(opt_element(last(self.bounds(e))))
        } else if name == "filterCondition"@ || name == "viewCondition"@ {
            Some(ValueOf::Elements(self.filter_conditions(e)))
        } else if name == "memberElementId"@ || name == "ownedMemberElementId"@ {
            Some(opt_str(self.member_id(e)))
        } else if name == "ownedMemberName"@ {
            Some(opt_str(self.member_name(e)))
        } else if name == "ownedMemberShortName"@ {
            Some(opt_str(self.member_short_name(e)))
        } else if name == "enumeratedValue"@ || name == "variant"@ {
            Some(ValueOf::Elements(self.all_children(self.variant_memberships(e))))
        } else if name == "isConjugated"@ {
            Some(ValueOf::Bool(self.is_conjugated(e)))
        } else if name == "conjugatedPortDefinition"@ {
            Some(opt_element(self.conjugated_port_definition(e)))
        } else if name == "ownedPortConjugator"@ {
            Some(opt_element(head(self.owned_of_kind(e, "PortConjugation"@))))
        } else if name == "parameter"@ || name == "directedFeature"@ {
            Some(ValueOf::Elements(self.directed(self.features(e))))
        } else if name == "associationEnd"@ || name == "connectionEnd"@ || name == "interfaceEnd"@ || name == "endFeature"@ || name == "connectorEnd"@ {
            Some(ValueOf::Elements(self.ends(self.features(e))))
        } else if name == "input"@ {
            Some(ValueOf::Elements(self.inputs(self.features(e))))
        } else if name == "output"@ {
            Some(ValueOf::Elements(self.outputs(self.features(e))))
        } else if name == "ownedEndFeature"@ {
            Some(ValueOf::Elements(self.ends(self.owned_features(e))))
        } else {
            None
        }
    }
}

impl Derivation {
    fn members_value(&self, e: usize, name: &str) -> (r: Option<DerivedValue>)
        requires
            self.ok(),
            e < self@.n(),
        ensures
            opt_value(r) == self@.members_value(e, name@),
            opt_value_ok(opt_value(r), self@.n()),
    {
        proof {
            reveal(DV::members_value);
        }
        if str_eq(name, "bound") {
            return Some(DerivedValue::Elements(self.bounds(e)));
        }
        if str_eq(name, "lowerBound") {
            return Some(opt_element_value(self.lower_bound(e)));
        }
        if str_eq(name, "upperBound") {
            return Some(opt_element_value(get_last(&self.bounds(e))));
        }
        if str_eq(name, "filterCondition") || str_eq(name, "viewCondition") {
            return Some(DerivedValue::Elements(self.filter_conditions(e)));
        }
        if str_eq(name, "memberElementId") || str_eq(name, "ownedMemberElementId") {
            return Some(opt_str_value(self.member_id(e)));
        }
        if str_eq(name, "ownedMemberName") {
            return Some(opt_str_value(self.member_name(e)));
        }
        if str_eq(name, "ownedMemberShortName") {
            return Some(opt_str_value(self.member_short_name(e)));
        }
        if str_eq(name, "enumeratedValue") || str_eq(name, "variant") {
            return Some(DerivedValue::Elements(self.all_children(&self.variant_memberships(e))));
        }
        if str_eq(name, "isConjugated") {
            return Some(DerivedValue::Bool(self.is_conjugated(e)));
        }
        if str_eq(name, "conjugatedPortDefinition") {
            return Some(opt_element_value(self.conjugated_port_definition(e)));
        }
        if str_eq(name, "ownedPortConjugator") {
            return Some(opt_element_value(get_head(&self.owned_of_kind(e, "PortConjugation"))));
        }
        if str_eq(name, "parameter") || str_eq(name, "directedFeature") {
            return Some(DerivedValue::Elements(self.directed(&self.features(e))));
        }
        if str_eq(name, "associationEnd") || str_eq(name, "connectionEnd") || str_eq(name, "interfaceEnd") || str_eq(name, "endFeature") || str_eq(name, "connectorEnd") {
            return Some(DerivedValue::Elements(self.ends(&self.features(e))));
        }
        if str_eq(name, "input") {
            return Some(DerivedValue::Elements(self.inputs(&self.features(e))));
        }
        if str_eq(name, "output") {
            return Some(DerivedValue::Elements(self.outputs(&self.features(e))));
        }
        if str_eq(name, "ownedEndFeature") {
            return Some(DerivedValue::Elements(self.ends(&self.owned_features(e))));
        }
        None
    }
}

impl DV {
    /// The computed properties of one family.
    #[verifier::opaque]
    pub open spec fn cases_value(self, e: usize, name: Seq<char>) -> Option<ValueOf> {
        if name == "subjectParameter"@ {
            Some(opt_element(self.member_via(e, "SubjectMembership"@)))
        } else if name == "actorParameter"@ {
            Some(ValueOf::Elements(self.members_via(e, "ActorMembership"@)))
        } else if name == "stakeholderParameter"@ {
            Some(ValueOf::Elements(self.members_via(e, "StakeholderMembership"@)))
        } else if name == "objectiveRequirement"@ {
            Some(opt_element(self.member_via(e, "ObjectiveMembership"@)))
        } else if name == "framedConcern"@ {
            Some(ValueOf::Elements(self.members_via(e, "FramedConcernMembership"@)))
        } else if name == "resultExpression"@ {
            Some(opt_element(self.member_via(e, "ResultExpressionMembership"@)))
        } else if name == "requiredConstraint"@ {
            Some(ValueOf::Elements(self.requirement_constraints(e, "requirement"@)))
        } else if name == "assumedConstraint"@ {
            Some(ValueOf::Elements(self.requirement_constraints(e, "assumption"@)))
        } else if name == "referencedConstraint"@ {
            Some(opt_reference(self.referenced_member(e, "ConstraintUsage"@)))
        } else if name == "referencedConcern"@ {
            Some(opt_reference(self.referenced_member(e, "ConcernUsage"@)))
        } else if name == "referencedRendering"@ {
            Some(opt_reference(self.referenced_member(e, "RenderingUsage"@)))
        } else if name == "viewRendering"@ {
            Some(opt_reference(self.rendering_of(e)))
        } else if name == "satisfyingFeature"@ {
            Some(opt_reference(self.satisfying_feature(e)))
        } else if name == "satisfiedViewpoint"@ {
            Some(ValueOf::Elements(self.satisfied_viewpoints(e)))
        } else if name == "viewpointStakeholder"@ {
            Some(ValueOf::Elements(self.viewpoint_stakeholders(e)))
        } else if name == "exposedElement"@ {
            Some(ValueOf::Elements(self.exposed_of(e)))
        } else {
            None
        }
    }
}

impl Derivation {
    fn cases_value(&self, e: usize, name: &str) -> (r: Option<DerivedValue>)
        requires
            self.ok(),
            e < self@.n(),
        ensures
            opt_value(r) == self@.cases_value(e, name@),
            opt_value_ok(opt_value(r), self@.n()),
    {
        proof {
            reveal(DV::cases_value);
        }
        if str_eq(name, "subjectParameter") {
            return Some(opt_element_value(self.member_via(e, "SubjectMembership")));
        }
        if str_eq(name, "actorParameter") {
            return Some(DerivedValue::Elements(self.members_via(e, "ActorMembership")));
        }
        if str_eq(name, "stakeholderParameter") {
            return Some(DerivedValue::Elements(self.members_via(e, "StakeholderMembership")));
        }
        if str_eq(name, "objectiveRequirement") {
            return Some(opt_element_value(self.member_via(e, "ObjectiveMembership")));
        }
        if str_eq(name, "framedConcern") {
            return Some(DerivedValue::Elements(self.members_via(e, "FramedConcernMembership")));
        }
        if str_eq(name, "resultExpression") {
            return Some(opt_element_value(self.member_via(e, "ResultExpressionMembership")));
        }
        if str_eq(name, "requiredConstraint") {
            return Some(DerivedValue::Elements(self.requirement_constraints(e, "requirement")));
        }
        if str_eq(name, "assumedConstraint") {
            return Some(DerivedValue::Elements(self.requirement_constraints(e, "assumption")));
        }
        if str_eq(name, "referencedConstraint") {
            return Some(opt_reference_value(self.referenced_member(e, "ConstraintUsage")));
        }
        if str_eq(name, "referencedConcern") {
            return Some(opt_reference_value(self.referenced_member(e, "ConcernUsage")));
        }
        if str_eq(name, "referencedRendering") {
            return Some(opt_reference_value(self.referenced_member(e, "RenderingUsage")));
        }
        if str_eq(name, "viewRendering") {
            return Some(opt_reference_value(self.rendering_of(e)));
        }
        if str_eq(name, "satisfyingFeature") {
            return Some(opt_reference_value(self.satisfying_feature(e)));
        }
        if str_eq(name, "satisfiedViewpoint") {
            return Some(DerivedValue::Elements(self.satisfied_viewpoints(e)));
        }
        if str_eq(name, "viewpointStakeholder") {
            return Some(DerivedValue::Elements(self.viewpoint_stakeholders(e)));
        }
        if str_eq(name, "exposedElement") {
            return Some(DerivedValue::Elements(self.exposed_of(e)));
        }
        None
    }
}

impl DV {
    /// The computed properties of one family.
    #[verifier::opaque]
    pub open spec fn types_value(self, e: usize, name: Seq<char>) -> Option<ValueOf> {
        if name == "featureTarget"@ {
            Some(ValueOf::Reference(self.feature_target(e)))
        } else if name == "chainingFeature"@ {
            Some(ValueOf::References(self.chaining_features(e)))
        } else if name == "crossFeature"@ {
            Some(opt_reference(self.cross_feature(e)))
        } else if name == "unioningType"@ {
            Some(ValueOf::References(self.operation_types(e, "Unioning"@, "unioningType"@)))
        } else if name == "intersectingType"@ {
            Some(ValueOf::References(self.operation_types(e, "Intersecting"@, "intersectingType"@)))
        } else if name == "differencingType"@ {
            Some(ValueOf::References(self.operation_types(e, "Differencing"@, "differencingType"@)))
        } else if name == "relatedType"@ {
            Some(ValueOf::References(self.related_types(e)))
        } else if name == "sourceType"@ {
            Some(opt_reference(nth_ref(self.related_types(e), 0)))
        } else if name == "targetType"@ {
            Some(ValueOf::References(united_refs(Seq::<RefV>::empty(), tail_refs(self.related_types(e)))))
        } else if name == "defaultFeaturingType"@ {
            Some(opt_element(self.default_featuring_type(e)))
        } else if name == "isModelLevelEvaluable"@ {
            Some(ValueOf::Bool(self.model_level_evaluable(e)))
        } else if name == "ownedSpecialization"@ {
            Some(ValueOf::Elements(self.owned_specializations(e, "Specialization"@)))
        } else if name == "ownedFeatureInverting"@ {
            Some(ValueOf::Elements(self.owned_specializations(e, "FeatureInverting"@)))
        } else if name == "ownedTypeFeaturing"@ {
            Some(ValueOf::Elements(self.owned_specializations(e, "TypeFeaturing"@)))
        } else if name == "ownedReferenceSubsetting"@ {
            Some(opt_element(head(self.owned_specializations(e, "ReferenceSubsetting"@))))
        } else if name == "ownedCrossSubsetting"@ {
            Some(opt_element(head(self.owned_specializations(e, "CrossSubsetting"@))))
        } else if name == "sourceOutputFeature"@ {
            Some(opt_element(self.flow_end_feature(e, 0)))
        } else if name == "targetInputFeature"@ {
            Some(opt_element(self.flow_end_feature(e, 1)))
        } else if name == "originalPortDefinition"@ {
            Some(opt_element(self.original_port_definition(e)))
        } else {
            None
        }
    }
}

impl Derivation {
    fn types_value(&self, e: usize, name: &str) -> (r: Option<DerivedValue>)
        requires
            self.ok(),
            e < self@.n(),
        ensures
            opt_value(r) == self@.types_value(e, name@),
            opt_value_ok(opt_value(r), self@.n()),
    {
        proof {
            reveal(DV::types_value);
        }
        if str_eq(name, "featureTarget") {
            return Some(DerivedValue::Reference(self.feature_target(e)));
        }
        if str_eq(name, "chainingFeature") {
            return Some(DerivedValue::References(self.chaining_features(e)));
        }
        if str_eq(name, "crossFeature") {
            return Some(opt_reference_value(self.cross_feature(e)));
        }
        if str_eq(name, "unioningType") {
            return Some(DerivedValue::References(self.operation_types(e, "Unioning", "unioningType")));
        }
        if str_eq(name, "intersectingType") {
            return Some(
                DerivedValue::References(
                    self.operation_types(e, "Intersecting", "intersectingType")
                )
            );
        }
        if str_eq(name, "differencingType") {
            return Some(
                DerivedValue::References(
                    self.operation_types(e, "Differencing", "differencingType")
                )
            );
        }
        if str_eq(name, "relatedType") {
            return Some(DerivedValue::References(self.related_types(e)));
        }
        if str_eq(name, "sourceType") {
            return Some(opt_reference_value(get_nth_ref(&self.related_types(e), 0)));
        }
        if str_eq(name, "targetType") {
            return Some(
                DerivedValue::References(
                    unite_refs(empty_refs(), &get_tail_refs(&self.related_types(e)))
                )
            );
        }
        if str_eq(name, "defaultFeaturingType") {
            return Some(opt_element_value(self.default_featuring_type(e)));
        }
        if str_eq(name, "isModelLevelEvaluable") {
            return Some(DerivedValue::Bool(self.model_level_evaluable(e)));
        }
        if str_eq(name, "ownedSpecialization") {
            return Some(DerivedValue::Elements(self.owned_specializations(e, "Specialization")));
        }
        if str_eq(name, "ownedFeatureInverting") {
            return Some(DerivedValue::Elements(self.owned_specializations(e, "FeatureInverting")));
        }
        if str_eq(name, "ownedTypeFeaturing") {
            return Some(DerivedValue::Elements(self.owned_specializations(e, "TypeFeaturing")));
        }
        if str_eq(name, "ownedReferenceSubsetting") {
            return Some(opt_element_value(get_head(&self.owned_specializations(e, "ReferenceSubsetting"))));
        }
        if str_eq(name, "ownedCrossSubsetting") {
            return Some(opt_element_value(get_head(&self.owned_specializations(e, "CrossSubsetting"))));
        }
        if str_eq(name, "sourceOutputFeature") {
            return Some(opt_element_value(self.flow_end_feature(e, 0)));
        }
        if str_eq(name, "targetInputFeature") {
            return Some(opt_element_value(self.flow_end_feature(e, 1)));
        }
        if str_eq(name, "originalPortDefinition") {
            return Some(opt_element_value(self.original_port_definition(e)));
        }
        None
    }
}

impl DV {
    /// The names that are a different property on another metaclass.
    #[verifier::opaque]
    pub open spec fn gated_value(self, e: usize, name: Seq<char>) -> Option<ValueOf> {
        if name == "verifiedRequirement"@ {
            Some(
                if self.is_type(e, "RequirementVerificationMembership"@) {
                    opt_reference(self.referenced_member(e, "RequirementUsage"@))
                } else {
                    ValueOf::References(self.verified_requirements(e))
                },
            )
        } else {
            None
        }
    }

    /// The value of a property with a computation of its own.
    #[verifier::opaque]
    pub open spec fn own_value(self, e: usize, name: Seq<char>) -> Option<ValueOf> {
        match self.closure_value(e, name) {
            Some(v) => Some(v),
            None => match self.connection_value(e, name) {
                Some(v) => Some(v),
                None => match self.ownership_value(e, name) {
                    Some(v) => Some(v),
                    None => match self.owners_value(e, name) {
                        Some(v) => Some(v),
                        None => match self.annotations_value(e, name) {
                            Some(v) => Some(v),
                            None => match self.behavior_value(e, name) {
                                Some(v) => Some(v),
                                None => self.more_value(e, name),
                            },
                        },
                    },
                },
            },
        }
    }

    /// What elements inherit and import.
    #[verifier::opaque]
    pub open spec fn closure_value(self, e: usize, name: Seq<char>) -> Option<ValueOf> {
        if name == "inheritedMembership"@ {
            Some(ValueOf::Elements(self.inherited_of(e)))
        } else if name == "inheritedFeature"@ {
            Some(ValueOf::Elements(self.inherited_features(e)))
        } else if name == "importedMembership"@ {
            Some(ValueOf::Elements(self.imported_of(e)))
        } else {
            None
        }
    }

    /// What relationships and connectors relate.
    #[verifier::opaque]
    pub open spec fn connection_value(self, e: usize, name: Seq<char>) -> Option<ValueOf> {
        if name == "relatedElement"@ {
            Some(ValueOf::References(self.related_elements(e)))
        } else if name == "relatedFeature"@ {
            Some(ValueOf::References(self.related_features(e)))
        } else if name == "sourceFeature"@ {
            Some(opt_reference(nth_ref(self.related_features(e), 0)))
        } else if name == "targetFeature"@ {
            Some(
                if self.is_type(e, "FeatureChainExpression"@) {
                    opt_reference(self.referent(e))
                } else {
                    ValueOf::References(tail_refs(self.related_features(e)))
                },
            )
        } else {
            None
        }
    }

    #[verifier::opaque]
    pub open spec fn more_value(self, e: usize, name: Seq<char>) -> Option<ValueOf> {
        match self.references_value(e, name) {
            Some(v) => Some(v),
            None => match self.members_value(e, name) {
                Some(v) => Some(v),
                None => match self.cases_value(e, name) {
                    Some(v) => Some(v),
                    None => match self.types_value(e, name) {
                        Some(v) => Some(v),
                        None => self.gated_value(e, name),
                    },
                },
            },
        }
    }

    /// The references of a composition's base, and whether it answers by
    /// reference.
    #[verifier::opaque]
    pub open spec fn base_items(
        self,
        base: Seq<char>,
        v: DerivedV,
    ) -> Option<(Seq<RefV>, bool)> {
        match v {
            DerivedV::Value(ValueOf::Elements(s)) => Some((as_refs(s), false)),
            DerivedV::Value(ValueOf::Element(x)) => Some((seq![RefV::Element(x)], false)),
            DerivedV::Value(ValueOf::References(s)) => Some((s, true)),
            DerivedV::Value(ValueOf::Reference(r)) => Some((seq![r], true)),
            DerivedV::Value(ValueOf::Null) => Some(
                (Seq::empty(), by_reference(self.mm, base, self.mm.compositions.len())),
            ),
            _ => None,
        }
    }

    /// The part of a base that is of a kind, as one value or as many.
    #[verifier::opaque]
    pub open spec fn composed(
        self,
        items: Seq<RefV>,
        referential: bool,
        kind: Seq<char>,
        single: bool,
    ) -> ValueOf {
        let kept = self.cast_all(items, kind);
        if single {
            if referential {
                opt_reference(nth_ref(kept, 0))
            } else {
                opt_element(elem_of(nth_ref(kept, 0)))
            }
        } else if referential {
            ValueOf::References(kept)
        } else {
            ValueOf::Elements(self.elements(kept))
        }
    }

    /// The value of a property that is computed on the element's metaclass.
    pub open spec fn computable(self, e: usize, name: Seq<char>, fuel: nat) -> DerivedV
        decreases fuel, 0int,
    {
        if self.mm.member_side(self.g.elements[e as int].ty, name) is Some {
            DerivedV::Value(opt_element(self.first_child(e)))
        } else if hand_written(name) {
            match self.own_value(e, name) {
                Some(v) => DerivedV::Value(v),
                None => DerivedV::NotComputed,
            }
        } else {
            match self.mm.composition(name) {
                Some(c) => if c.base == "ownedRelationship"@ {
                    DerivedV::Value(
                        self.composed(as_refs(self.owned_relationships(e)), false, c.kind, c.single),
                    )
                } else if fuel == 0 {
                    DerivedV::NotComputed
                } else {
                    match self.base_items(c.base, self.derived_within(e, c.base, (fuel - 1) as nat)) {
                        Some((items, referential)) => DerivedV::Value(
                            self.composed(items, referential, c.kind, c.single),
                        ),
                        None => DerivedV::NotComputed,
                    }
                },
                None => DerivedV::NotComputed,
            }
        }
    }

    /// The derived property of an element, compositions followed at most
    /// `fuel` deep.
    pub open spec fn derived_within(self, e: usize, name: Seq<char>, fuel: nat) -> DerivedV
        decreases fuel, 1int,
    {
        match self.mm.derives_under(self.g.elements[e as int].ty, name, ClosurePolicy::Passthrough) {
            Derives::NotDeclared => DerivedV::NotDeclared,
            Derives::NotComputed => DerivedV::NotComputed,
            _ => self.computable(e, name, fuel),
        }
    }

    /// The derived property of an element by its name.
    #[verifier::opaque]
    pub open spec fn derived(self, e: usize, name: Seq<char>) -> DerivedV {
        self.derived_within(e, name, 10)
    }
}

/// Whether a base answers by reference, compositions followed at most `fuel`
/// deep.
pub open spec fn by_reference(mm: MetamodelV, base: Seq<char>, fuel: nat) -> bool
    decreases fuel,
{
    ||| base == "type"@
    ||| base == "definition"@
    ||| base == "member"@
    ||| base == "annotatedElement"@
    ||| base == "importedElement"@
    ||| base == "featureTarget"@
    ||| base == "function"@
    ||| base == "instantiatedType"@
    ||| base == "referent"@
    ||| fuel > 0 && match mm.composition(base) {
        Some(c) => by_reference(mm, c.base, (fuel - 1) as nat),
        None => false,
    }
}

impl Derivation {
    fn gated_value(&self, e: usize, name: &str) -> (r: Option<DerivedValue>)
        requires
            self.ok(),
            e < self@.n(),
        ensures
            opt_value(r) == self@.gated_value(e, name@),
            opt_value_ok(opt_value(r), self@.n()),
    {
        proof {
            reveal(DV::gated_value);
        }
        if str_eq(name, "verifiedRequirement") {
            return Some(
                if self.is_type(e, "RequirementVerificationMembership") {
                    opt_reference_value(self.referenced_member(e, "RequirementUsage"))
                } else {
                    DerivedValue::References(self.verified_requirements(e))
                },
            );
        }
        None
    }

    fn more_value(&self, e: usize, name: &str) -> (r: Option<DerivedValue>)
        requires
            self.ok(),
            e < self@.n(),
        ensures
            opt_value(r) == self@.more_value(e, name@),
            opt_value_ok(opt_value(r), self@.n()),
    {
        proof {
            reveal(DV::more_value);
        }
        let v = self.references_value(e, name);
        if v.is_some() {
            return v;
        }
        let v = self.members_value(e, name);
        if v.is_some() {
            return v;
        }
        let v = self.cases_value(e, name);
        if v.is_some() {
            return v;
        }
        let v = self.types_value(e, name);
        if v.is_some() {
            return v;
        }
        self.gated_value(e, name)
    }

    fn closure_value(&self, e: usize, name: &str) -> (r: Option<DerivedValue>)
        requires
            self.ok(),
            e < self@.n(),
        ensures
            opt_value(r) == self@.closure_value(e, name@),
            opt_value_ok(opt_value(r), self@.n()),
    {
        proof {
            reveal(DV::closure_value);
        }
        if str_eq(name, "inheritedMembership") {
            return Some(DerivedValue::Elements(self.inherited_of(e)));
        }
        if str_eq(name, "inheritedFeature") {
            return Some(DerivedValue::Elements(self.inherited_features(e)));
        }
        if str_eq(name, "importedMembership") {
            return Some(DerivedValue::Elements(self.imported_memberships(e)));
        }
        None
    }

    fn connection_value(&self, e: usize, name: &str) -> (r: Option<DerivedValue>)
        requires
            self.ok(),
            e < self@.n(),
        ensures
            opt_value(r) == self@.connection_value(e, name@),
            opt_value_ok(opt_value(r), self@.n()),
    {
        proof {
            reveal(DV::connection_value);
        }
        if str_eq(name, "relatedElement") {
            return Some(DerivedValue::References(self.related_elements(e)));
        }
        if str_eq(name, "relatedFeature") {
            return Some(DerivedValue::References(self.related_features(e)));
        }
        if str_eq(name, "sourceFeature") {
            return Some(opt_reference_value(get_nth_ref(&self.related_features(e), 0)));
        }
        if str_eq(name, "targetFeature") {
            return Some(
                if self.is_type(e, "FeatureChainExpression") {
                    opt_reference_value(self.referent(e))
                } else {
                    DerivedValue::References(get_tail_refs(&self.related_features(e)))
                },
            );
        }
        None
    }

    fn own_value(&self, e: usize, name: &str) -> (r: Option<DerivedValue>)
        requires
            self.ok(),
            e < self@.n(),
        ensures
            opt_value(r) == self@.own_value(e, name@),
            opt_value_ok(opt_value(r), self@.n()),
    {
        proof {
            reveal(DV::own_value);
        }
        let v = self.closure_value(e, name);
        if v.is_some() {
            return v;
        }
        let v = self.connection_value(e, name);
        if v.is_some() {
            return v;
        }
        let v = self.ownership_value(e, name);
        if v.is_some() {
            return v;
        }
        let v = self.owners_value(e, name);
        if v.is_some() {
            return v;
        }
        let v = self.annotations_value(e, name);
        if v.is_some() {
            return v;
        }
        let v = self.behavior_value(e, name);
        if v.is_some() {
            return v;
        }
        self.more_value(e, name)
    }

    fn by_reference(&self, base: &str, fuel: usize) -> (r: bool)
        ensures
            r == by_reference(self@.mm, base@, fuel as nat),
        decreases fuel,
    {
        if str_eq(base, "type") || str_eq(base, "definition") || str_eq(base, "member") || str_eq(
            base,
            "annotatedElement",
        ) || str_eq(base, "importedElement") || str_eq(base, "featureTarget") || str_eq(
            base,
            "function",
        ) || str_eq(base, "instantiatedType") || str_eq(base, "referent") {
            return true;
        }
        if fuel == 0 {
            return false;
        }
        proof {
            reveal(Derivation::view);
        }
        match self.mm.composition(base) {
            Some(c) => self.by_reference(c.base, fuel - 1),
            None => false,
        }
    }

    fn base_items(&self, base: &str, v: Derived) -> (r: Option<(Vec<Reference>, bool)>)
        requires
            self.ok(),
            v@ is Value ==> v@->Value_0.ok(self@.n()),
        ensures
            self@.base_items(base@, v@) == (match r {
                Some((items, referential)) => Some((refs_view(items@), referential)),
                None => None,
            }),
            match r {
                Some((items, _)) => refs_ok(refs_view(items@), self@.n()),
                None => true,
            },
    {
        proof {
            reveal(DV::base_items);
        }
        match v {
            Derived::Value(DerivedValue::Elements(s)) => Some((make_refs(&s), false)),
            Derived::Value(DerivedValue::Element(x)) => Some(
                (make_unit_ref(Some(Reference::Element(x))), false),
            ),
            Derived::Value(DerivedValue::References(s)) => Some((s, true)),
            Derived::Value(DerivedValue::Reference(r)) => Some((make_unit_ref(Some(r)), true)),
            Derived::Value(DerivedValue::Null) => {
                proof {
                    reveal(Derivation::view);
                }
                let fuel: usize = self.mm.compositions.len();
                Some((empty_refs(), self.by_reference(base, fuel)))
            },
            _ => None,
        }
    }

    fn composed(
        &self,
        items: &Vec<Reference>,
        referential: bool,
        kind: &str,
        single: bool,
    ) -> (r: DerivedValue)
        requires
            self.ok(),
            refs_ok(refs_view(items@), self@.n()),
        ensures
            r@ == self@.composed(refs_view(items@), referential, kind@, single),
            r@.ok(self@.n()),
    {
        proof {
            reveal(DV::composed);
        }
        let kept: Vec<Reference> = self.cast_all(items, kind);
        if single {
            if referential {
                opt_reference_value(get_nth_ref(&kept, 0))
            } else {
                opt_element_value(get_elem(&get_nth_ref(&kept, 0)))
            }
        } else if referential {
            DerivedValue::References(kept)
        } else {
            DerivedValue::Elements(self.elements(&kept))
        }
    }

    fn composition_value(&self, e: usize, c: Composition, fuel: u8) -> (r: Derived)
        requires
            self.ok(),
            e < self@.n(),
        ensures
            r@ == (if c@.base == "ownedRelationship"@ {
                DerivedV::Value(
                    self@.composed(as_refs(self@.owned_relationships(e)), false, c@.kind, c@.single),
                )
            } else if fuel == 0 {
                DerivedV::NotComputed
            } else {
                match self@.base_items(
                    c@.base,
                    self@.derived_within(e, c@.base, (fuel - 1) as nat),
                ) {
                    Some((items, referential)) => DerivedV::Value(
                        self@.composed(items, referential, c@.kind, c@.single),
                    ),
                    None => DerivedV::NotComputed,
                }
            }),
            r@ is Value ==> r@->Value_0.ok(self@.n()),
        decreases fuel, 0int,
    {
        if str_eq(c.base, "ownedRelationship") {
            let items: Vec<Reference> = make_refs(&self.owned_relationships(e));
            return Derived::Value(self.composed(&items, false, c.kind, c.single));
        }
        if fuel == 0 {
            return Derived::NotComputed;
        }
        let base: Derived = self.derived_within(e, c.base, fuel - 1);
        match self.base_items(c.base, base) {
            Some((items, referential)) => Derived::Value(
                self.composed(&items, referential, c.kind, c.single),
            ),
            None => Derived::NotComputed,
        }
    }

    fn computable(&self, e: usize, name: &str, fuel: u8) -> (r: Derived)
        requires
            self.ok(),
            e < self@.n(),
        ensures
            r@ == self@.computable(e, name@, fuel as nat),
            r@ is Value ==> r@->Value_0.ok(self@.n()),
        decreases fuel, 1int,
    {
        proof {
            reveal(Derivation::view);
        }
        let ty: &'static str = self.graph.ty_of(e);
        if self.mm.member_side(ty, name).is_some() {
            return Derived::Value(opt_element_value(self.first_child(e)));
        }
        if is_hand_written(name) {
            return match self.own_value(e, name) {
                Some(v) => Derived::Value(v),
                None => Derived::NotComputed,
            };
        }
        match self.mm.composition(name) {
            Some(c) => self.composition_value(e, c, fuel),
            None => Derived::NotComputed,
        }
    }

    fn derived_within(&self, e: usize, name: &str, fuel: u8) -> (r: Derived)
        requires
            self.ok(),
            e < self@.n(),
        ensures
            r@ == self@.derived_within(e, name@, fuel as nat),
            r@ is Value ==> r@->Value_0.ok(self@.n()),
        decreases fuel, 2int,
    {
        proof {
            reveal(Derivation::view);
        }
        let ty: &'static str = self.graph.ty_of(e);
        match derives(&self.mm, ty, name) {
            Derives::NotDeclared => Derived::NotDeclared,
            Derives::NotComputed => Derived::NotComputed,
            _ => self.computable(e, name, fuel),
        }
    }

    /// The derived property of an element by its specification name.
    pub fn derived(&self, e: usize, name: &str) -> (r: Derived)
        requires
            self.ok(),
            e < self@.n(),
        ensures
            r@ == self@.derived(e, name@),
            r@ is Value ==> r@->Value_0.ok(self@.n()),
    {
        proof {
            reveal(DV::derived);
        }
        self.derived_within(e, name, 10)
    }
}

/// A property is answered with a value only where the metamodel says that
/// the metaclass computes it, and is not declared exactly where it says so.
pub proof fn law_answers_follow_the_metamodel(d: DV, e: usize, name: Seq<char>)
    ensures
        ({
            let says = d.mm.derives_under(
                d.g.elements[e as int].ty,
                name,
                ClosurePolicy::Passthrough,
            );
            &&& says == Derives::NotDeclared <==> d.derived(e, name) == DerivedV::NotDeclared
            &&& says == Derives::NotComputed ==> d.derived(e, name) == DerivedV::NotComputed
            &&& d.derived(e, name) is Value ==> says == Derives::Exact || says == Derives::Passthrough
        }),
{
    reveal(DV::derived);
}

/// Every name that is answered with a value is among the computed names.
pub proof fn law_answered_names_are_computed(d: DV, e: usize, name: Seq<char>)
    requires
        d.derived(e, name) is Value,
    ensures
        d.mm.computed_names().contains(name),
{
    reveal(DV::derived);
    let ty = d.g.elements[e as int].ty;
    if d.mm.member_side(ty, name) is Some {
        d.mm.lemma_member_side_listed(ty, name, 0);
    }
    d.mm.lemma_computed(name);
}

/// A declared name that is computed on its own and is one property
/// everywhere is answered on every element.
proof fn lemma_answered(d: DV, e: usize, name: Seq<char>)
    requires
        d.mm.declared(d.g.elements[e as int].ty, name),
        hand_written(name),
        !listed(gated_names(), name),
    ensures
        d.derived(e, name) == d.computable(e, name, 10),
{
    reveal(DV::derived);
}

/// A connector's related features run from its source feature, the first of
/// them or nothing where there is none, to its target features, the others.
/// A feature chain has a target feature of another sense.
pub proof fn law_connectors_run_from_the_first_feature(d: DV, e: usize, fuel: nat)
    requires
        !d.is_type(e, "FeatureChainExpression"@),
    ensures
        ({
            let rs = d.related_features(e);
            let related = DerivedV::Value(ValueOf::References(rs));
            let source = DerivedV::Value(
                if rs.len() == 0 {
                    ValueOf::Null
                } else {
                    ValueOf::Reference(rs[0])
                },
            );
            let target = DerivedV::Value(
                ValueOf::References(
                    if rs.len() == 0 {
                        Seq::empty()
                    } else {
                        rs.skip(1)
                    },
                ),
            );
            let ty = d.g.elements[e as int].ty;
            &&& d.computable(e, "relatedFeature"@, fuel) == related
            &&& d.computable(e, "sourceFeature"@, fuel) == source
            &&& d.computable(e, "targetFeature"@, fuel) == target
            &&& d.mm.declared(ty, "relatedFeature"@) ==> d.derived(e, "relatedFeature"@) == related
            &&& d.mm.declared(ty, "sourceFeature"@) ==> d.derived(e, "sourceFeature"@) == source
            &&& d.derived(e, "targetFeature"@) is Value ==> d.derived(e, "targetFeature"@) == target
        }),
{
    reveal(DV::connection_value);
    reveal(DV::closure_value);
    reveal(DV::own_value);
    reveal(DV::derived);
    lemma_connection_names();
    lemma_closure_names();
    lemma_ungated_names();
    d.mm.lemma_connection_names_are_no_members(d.g.elements[e as int].ty);
    let rs = d.related_features(e);
    if rs.len() == 0 {
        assert(tail_refs(rs) =~= Seq::empty());
    } else {
        assert(tail_refs(rs) =~= rs.skip(1));
    }
}

/// The related elements of a relationship are its sources and then its
/// targets, those outside the model included, wherever they are declared.
pub proof fn law_related_elements_are_the_ends(d: DV, e: usize)
    requires
        d.mm.declared(d.g.elements[e as int].ty, "relatedElement"@),
    ensures
        d.derived(e, "relatedElement"@) == DerivedV::Value(
            ValueOf::References(d.sources(e) + d.ends_targets(e)),
        ),
{
    reveal(DV::connection_value);
    reveal(DV::closure_value);
    reveal(DV::own_value);
    reveal(DV::related_elements);
    lemma_connection_names();
    lemma_closure_names();
    lemma_ungated_names();
    d.mm.lemma_connection_names_are_no_members(d.g.elements[e as int].ty);
    lemma_answered(d, e, "relatedElement"@);
}

/// What an element inherits and imports is answered by name wherever the name
/// is declared, under every policy: the policy only decides whether the implied
/// heritage counts, and on the owned side it does not.
pub proof fn law_closures_are_answered_under_every_policy(d: DV, e: usize)
    ensures
        ({
            let ty = d.g.elements[e as int].ty;
            let w = if d.policy == (ClosurePolicy::Closure { include_implied: true }) {
                d.implied_walks
            } else {
                d.written_walks
            };
            &&& d.mm.declared(ty, "inheritedMembership"@) ==> d.derived(e, "inheritedMembership"@)
                == DerivedV::Value(ValueOf::Elements(w.inherited[e as int]))
            &&& d.mm.declared(ty, "inheritedFeature"@) ==> d.derived(e, "inheritedFeature"@)
                == DerivedV::Value(ValueOf::Elements(d.inherited_features(e)))
            &&& d.mm.declared(ty, "importedMembership"@) ==> d.derived(e, "importedMembership"@)
                == DerivedV::Value(ValueOf::Elements(w.imported[e as int]))
        }),
{
    reveal(DV::closure_value);
    reveal(DV::own_value);
    lemma_closure_names();
    lemma_ungated_names();
    let ty = d.g.elements[e as int].ty;
    d.mm.lemma_closure_names_are_no_members(ty);
    if d.mm.declared(ty, "inheritedMembership"@) {
        lemma_answered(d, e, "inheritedMembership"@);
    }
    if d.mm.declared(ty, "inheritedFeature"@) {
        lemma_answered(d, e, "inheritedFeature"@);
    }
    if d.mm.declared(ty, "importedMembership"@) {
        lemma_answered(d, e, "importedMembership"@);
    }
}

proof fn lemma_fidelity_from(mm: MetamodelV, class: Seq<char>, name: Seq<char>, a: nat, b: nat)
    requires
        a <= b,
        mm.fidelity(class, name, b) != Derives::NotComputed,
    ensures
        mm.fidelity(class, name, a) == mm.fidelity(class, name, b),
    decreases 9 - b,
{
    if mm.member_side(class, name) is None && !listed(gated_names(), name) && !hand_written(name) {
        if let Some(c) = mm.composition(name) {
            if b <= 8 && c.base != "ownedRelationship"@ && mm.declared(class, c.base) {
                lemma_fidelity_from(mm, class, c.base, a + 1, b + 1);
            }
        }
    }
}

proof fn lemma_deep_enough(d: DV, e: usize, name: Seq<char>, depth: nat, f: nat, g: nat)
    requires
        d.mm.fidelity(d.g.elements[e as int].ty, name, depth) != Derives::NotComputed,
        f + depth >= 9,
        g + depth >= 9,
    ensures
        d.computable(e, name, f) == d.computable(e, name, g),
    decreases 9 - depth,
{
    let class = d.g.elements[e as int].ty;
    if d.mm.member_side(class, name) is None && !hand_written(name) && !listed(
        gated_names(),
        name,
    ) {
        if let Some(c) = d.mm.composition(name) {
            if depth <= 8 && c.base != "ownedRelationship"@ && d.mm.declared(class, c.base) {
                lemma_fidelity_from(d.mm, class, c.base, 0, depth + 1);
                lemma_deep_enough(d, e, c.base, depth + 1, (f - 1) as nat, (g - 1) as nat);
            }
        }
    } else if d.mm.member_side(class, name) is None && !hand_written(name) {
        lemma_gated_names_are_written(name);
    }
}

/// A composition is followed to its end however long it is: no name that the
/// metamodel says is computed is answered otherwise for more steps.
pub proof fn law_compositions_are_followed_to_the_end(d: DV, e: usize, name: Seq<char>, fuel: nat)
    requires
        fuel >= 10,
    ensures
        d.derived_within(e, name, fuel) == d.derived(e, name),
{
    reveal(DV::derived);
    let class = d.g.elements[e as int].ty;
    if d.mm.declared(class, name) && d.mm.fidelity(class, name, 0) != Derives::NotComputed {
        lemma_deep_enough(d, e, name, 0, fuel, 10);
    }
}

/// A member-side name is the member the membership owns, whatever the name
/// means elsewhere.
pub proof fn law_member_side_names_are_the_owned_member(d: DV, e: usize, name: Seq<char>)
    requires
        d.mm.declared(d.g.elements[e as int].ty, name),
        d.mm.member_side(d.g.elements[e as int].ty, name) is Some,
    ensures
        d.derived(e, name) == DerivedV::Value(opt_element(d.first_child(e))),
{
    reveal(DV::derived);
}

} // verus!
