//! Ownership, memberships, ends and annotations of an element.
use crate::derive_base::{DV, Derivation, RefV, Reference, opt_ref_ok, opt_ref_view, refs_ok, refs_view};
use crate::derive_lists::{
    elem_ref, empty_els, get_head, get_last_ref, get_nth_ref, head, join, joined, last_ref,
    make_ref, nth_ref, unite, united,
};
use crate::state::{all_below, below};
use vstd::prelude::*;

verus! {

impl DV {
    /// The relationships of an element, the implied ones last.
    #[verifier::opaque]
    pub open spec fn owned_relationships(self, e: usize) -> Seq<usize> {
        joined(self.owned(e), self.implied(e))
    }
}

impl Derivation {
    /// The relationships of an element, the implied ones last.
    pub fn owned_relationships(&self, e: usize) -> (r: Vec<usize>)
        requires
            self.ok(),
            e < self@.n(),
        ensures
            r@ == self@.owned_relationships(e),
            all_below(r@, self@.n()),
    {
        proof {
            reveal(DV::owned_relationships);
        }
        join(self.owned(e), &self.implied(e))
    }
}

impl DV {
    /// The owned relationships of a kind, as written.
    #[verifier::opaque]
    pub open spec fn owned_of_kind(self, e: usize, kind: Seq<char>) -> Seq<usize> {
        self.of_kind(self.owned(e), kind)
    }
}

impl Derivation {
    /// The owned relationships of a kind, as written.
    pub fn owned_of_kind(&self, e: usize, kind: &str) -> (r: Vec<usize>)
        requires
            self.ok(),
            e < self@.n(),
        ensures
            r@ == self@.owned_of_kind(e, kind@),
            all_below(r@, self@.n()),
    {
        proof {
            reveal(DV::owned_of_kind);
        }
        self.of_kind(&self.owned(e), kind)
    }
}

impl DV {
    /// The element that owns an element, through the relationship that owns it.
    #[verifier::opaque]
    pub open spec fn owner(self, e: usize) -> Option<usize> {
        match self.owning(e) {
            Some(rel) => self.carrier(rel),
            None => None,
        }
    }
}

impl Derivation {
    /// The element that owns an element, through the relationship that owns it.
    pub fn owner(&self, e: usize) -> (r: Option<usize>)
        requires
            self.ok(),
            e < self@.n(),
        ensures
            r == self@.owner(e),
            below(r, self@.n()),
    {
        proof {
            reveal(DV::owner);
        }
        match self.owning(e) {
            Some(rel) => self.carrier(rel),
            None => None,
        }
    }
}

impl DV {
    /// The membership that owns an element.
    #[verifier::opaque]
    pub open spec fn owning_membership(self, e: usize) -> Option<usize> {
        match self.owning(e) {
            Some(rel) => self.if_kind(rel, "Membership"@),
            None => None,
        }
    }
}

impl Derivation {
    /// The membership that owns an element.
    pub fn owning_membership(&self, e: usize) -> (r: Option<usize>)
        requires
            self.ok(),
            e < self@.n(),
        ensures
            r == self@.owning_membership(e),
            below(r, self@.n()),
    {
        proof {
            reveal(DV::owning_membership);
        }
        match self.owning(e) {
            Some(rel) => self.if_kind(rel, "Membership"),
            None => None,
        }
    }
}

impl DV {
    /// The namespace whose membership owns an element.
    #[verifier::opaque]
    pub open spec fn owning_namespace(self, e: usize) -> Option<usize> {
        match self.owning_membership(e) {
            Some(m) => self.carrier(m),
            None => None,
        }
    }
}

impl Derivation {
    /// The namespace whose membership owns an element.
    pub fn owning_namespace(&self, e: usize) -> (r: Option<usize>)
        requires
            self.ok(),
            e < self@.n(),
        ensures
            r == self@.owning_namespace(e),
            below(r, self@.n()),
    {
        proof {
            reveal(DV::owning_namespace);
        }
        match self.owning_membership(e) {
            Some(m) => self.carrier(m),
            None => None,
        }
    }
}

impl DV {
    /// The memberships an element owns.
    #[verifier::opaque]
    pub open spec fn owned_memberships(self, e: usize) -> Seq<usize> {
        self.owned_of_kind(e, "Membership"@)
    }
}

impl Derivation {
    /// The memberships an element owns.
    pub fn owned_memberships(&self, e: usize) -> (r: Vec<usize>)
        requires
            self.ok(),
            e < self@.n(),
        ensures
            r@ == self@.owned_memberships(e),
            all_below(r@, self@.n()),
    {
        proof {
            reveal(DV::owned_memberships);
        }
        self.owned_of_kind(e, "Membership")
    }
}

impl DV {
    /// The members an element owns.
    #[verifier::opaque]
    pub open spec fn owned_members(self, e: usize) -> Seq<usize> {
        self.firsts(self.of_kind(self.owned_memberships(e), "OwningMembership"@))
    }
}

impl Derivation {
    /// The members an element owns.
    pub fn owned_members(&self, e: usize) -> (r: Vec<usize>)
        requires
            self.ok(),
            e < self@.n(),
        ensures
            r@ == self@.owned_members(e),
            all_below(r@, self@.n()),
    {
        proof {
            reveal(DV::owned_members);
        }
        self.firsts(&self.of_kind(&self.owned_memberships(e), "OwningMembership"))
    }
}

impl DV {
    /// The imports an element owns.
    #[verifier::opaque]
    pub open spec fn owned_imports(self, e: usize) -> Seq<usize> {
        self.owned_of_kind(e, "Import"@)
    }
}

impl Derivation {
    /// The imports an element owns.
    pub fn owned_imports(&self, e: usize) -> (r: Vec<usize>)
        requires
            self.ok(),
            e < self@.n(),
        ensures
            r@ == self@.owned_imports(e),
            all_below(r@, self@.n()),
    {
        proof {
            reveal(DV::owned_imports);
        }
        self.owned_of_kind(e, "Import")
    }
}

impl DV {
    /// The feature memberships an element owns.
    #[verifier::opaque]
    pub open spec fn owned_feature_memberships(self, e: usize) -> Seq<usize> {
        self.owned_of_kind(e, "FeatureMembership"@)
    }
}

impl Derivation {
    /// The feature memberships an element owns.
    pub fn owned_feature_memberships(&self, e: usize) -> (r: Vec<usize>)
        requires
            self.ok(),
            e < self@.n(),
        ensures
            r@ == self@.owned_feature_memberships(e),
            all_below(r@, self@.n()),
    {
        proof {
            reveal(DV::owned_feature_memberships);
        }
        self.owned_of_kind(e, "FeatureMembership")
    }
}

impl DV {
    /// The features an element owns.
    #[verifier::opaque]
    pub open spec fn owned_features(self, e: usize) -> Seq<usize> {
        self.firsts(self.owned_feature_memberships(e))
    }
}

impl Derivation {
    /// The features an element owns.
    pub fn owned_features(&self, e: usize) -> (r: Vec<usize>)
        requires
            self.ok(),
            e < self@.n(),
        ensures
            r@ == self@.owned_features(e),
            all_below(r@, self@.n()),
    {
        proof {
            reveal(DV::owned_features);
        }
        self.firsts(&self.owned_feature_memberships(e))
    }
}

impl DV {
    /// The feature memberships of an element: owned and, where the closures are
    /// in force, inherited.
    #[verifier::opaque]
    pub open spec fn feature_memberships(self, e: usize) -> Seq<usize> {
        if self.passthrough() {
            self.owned_feature_memberships(e)
        } else {
            united(
                self.owned_feature_memberships(e),
                self.of_kind(self.inherited_of(e), "FeatureMembership"@),
            )
        }
    }
}

impl Derivation {
    /// The feature memberships of an element: owned and, where the closures are
    /// in force, inherited.
    pub fn feature_memberships(&self, e: usize) -> (r: Vec<usize>)
        requires
            self.ok(),
            e < self@.n(),
        ensures
            r@ == self@.feature_memberships(e),
            all_below(r@, self@.n()),
    {
        proof {
            reveal(DV::feature_memberships);
        }
        if self.passthrough() {
            self.owned_feature_memberships(e)
        } else {
            unite(
                self.owned_feature_memberships(e),
                &self.of_kind(&self.inherited_of(e), "FeatureMembership"),
            )
        }
    }
}

impl DV {
    /// The features of an element: owned and, where the closures are in force,
    /// inherited, each once.
    #[verifier::opaque]
    pub open spec fn features(self, e: usize) -> Seq<usize> {
        if self.passthrough() {
            self.owned_features(e)
        } else {
            united(Seq::<usize>::empty(), self.firsts(self.feature_memberships(e)))
        }
    }
}

impl Derivation {
    /// The features of an element: owned and, where the closures are in force,
    /// inherited, each once.
    pub fn features(&self, e: usize) -> (r: Vec<usize>)
        requires
            self.ok(),
            e < self@.n(),
        ensures
            r@ == self@.features(e),
            all_below(r@, self@.n()),
    {
        proof {
            reveal(DV::features);
        }
        if self.passthrough() {
            self.owned_features(e)
        } else {
            unite(empty_els(), &self.firsts(&self.feature_memberships(e)))
        }
    }
}

impl DV {
    /// The features an element inherits.
    #[verifier::opaque]
    pub open spec fn inherited_features(self, e: usize) -> Seq<usize> {
        self.firsts(self.of_kind(self.inherited_of(e), "FeatureMembership"@))
    }
}

impl Derivation {
    /// The features an element inherits.
    pub fn inherited_features(&self, e: usize) -> (r: Vec<usize>)
        requires
            self.ok(),
            e < self@.n(),
        ensures
            r@ == self@.inherited_features(e),
            all_below(r@, self@.n()),
    {
        proof {
            reveal(DV::inherited_features);
        }
        self.firsts(&self.of_kind(&self.inherited_of(e), "FeatureMembership"))
    }
}

impl DV {
    /// The memberships of an element: owned and, where the closures are in
    /// force, imported and, for a type, inherited.
    #[verifier::opaque]
    pub open spec fn memberships(self, e: usize) -> Seq<usize> {
        if self.passthrough() {
            self.owned_memberships(e)
        } else if self.is_kind(e, "Type"@) {
            united(
                self.owned_memberships(e),
                joined(self.imported_of(e), self.inherited_of(e)),
            )
        } else {
            united(self.owned_memberships(e), self.imported_of(e))
        }
    }
}

impl Derivation {
    /// The memberships of an element: owned and, where the closures are in
    /// force, imported and, for a type, inherited.
    pub fn memberships(&self, e: usize) -> (r: Vec<usize>)
        requires
            self.ok(),
            e < self@.n(),
        ensures
            r@ == self@.memberships(e),
            all_below(r@, self@.n()),
    {
        proof {
            reveal(DV::memberships);
        }
        if self.passthrough() {
            self.owned_memberships(e)
        } else if self.is_kind(e, "Type") {
            unite(
                self.owned_memberships(e),
                &join(self.imported_memberships(e), &self.inherited_of(e)),
            )
        } else {
            unite(self.owned_memberships(e), &self.imported_memberships(e))
        }
    }
}

impl DV {
    /// The members of an element.
    #[verifier::opaque]
    pub open spec fn members(self, e: usize) -> Seq<RefV> {
        self.member_elements(self.memberships(e))
    }
}

impl Derivation {
    /// The members of an element.
    pub fn members(&self, e: usize) -> (r: Vec<Reference>)
        requires
            self.ok(),
            e < self@.n(),
        ensures
            refs_view(r@) == self@.members(e),
            refs_ok(refs_view(r@), self@.n()),
    {
        proof {
            reveal(DV::members);
        }
        self.member_elements(&self.memberships(e))
    }
}

impl DV {
    /// The feature membership that owns a feature.
    #[verifier::opaque]
    pub open spec fn owning_feature_membership(self, e: usize) -> Option<usize> {
        match self.owning(e) {
            Some(rel) => self.if_kind(rel, "FeatureMembership"@),
            None => None,
        }
    }
}

impl Derivation {
    /// The feature membership that owns a feature.
    pub fn owning_feature_membership(&self, e: usize) -> (r: Option<usize>)
        requires
            self.ok(),
            e < self@.n(),
        ensures
            r == self@.owning_feature_membership(e),
            below(r, self@.n()),
    {
        proof {
            reveal(DV::owning_feature_membership);
        }
        match self.owning(e) {
            Some(rel) => self.if_kind(rel, "FeatureMembership"),
            None => None,
        }
    }
}

impl DV {
    /// The type that owns a feature.
    #[verifier::opaque]
    pub open spec fn owning_type(self, e: usize) -> Option<usize> {
        match self.owning_feature_membership(e) {
            Some(m) => match self.carrier(m) {
                Some(o) => self.if_kind(o, "Type"@),
                None => None,
            },
            None => None,
        }
    }
}

impl Derivation {
    /// The type that owns a feature.
    pub fn owning_type(&self, e: usize) -> (r: Option<usize>)
        requires
            self.ok(),
            e < self@.n(),
        ensures
            r == self@.owning_type(e),
            below(r, self@.n()),
    {
        proof {
            reveal(DV::owning_type);
        }
        match self.owning_feature_membership(e) {
            Some(m) => match self.carrier(m) {
                Some(o) => self.if_kind(o, "Type"),
                None => None,
            },
            None => None,
        }
    }
}

impl DV {
    /// The type that owns a feature as its end.
    #[verifier::opaque]
    pub open spec fn end_owning_type(self, e: usize) -> Option<usize> {
        match self.owning_feature_membership(e) {
            Some(m) => if self.is_type(m, "EndFeatureMembership"@) {
                self.owning_type(e)
            } else {
                None
            },
            None => None,
        }
    }
}

impl Derivation {
    /// The type that owns a feature as its end.
    pub fn end_owning_type(&self, e: usize) -> (r: Option<usize>)
        requires
            self.ok(),
            e < self@.n(),
        ensures
            r == self@.end_owning_type(e),
            below(r, self@.n()),
    {
        proof {
            reveal(DV::end_owning_type);
        }
        match self.owning_feature_membership(e) {
            Some(m) => if self.is_type(m, "EndFeatureMembership") {
                self.owning_type(e)
            } else {
                None
            },
            None => None,
        }
    }
}

impl DV {
    /// The source end that a relationship spells, as far as the features go.
    #[verifier::opaque]
    pub open spec fn feature_source(self, e: usize) -> Option<usize> {
        match self.target(e, "subclassifier"@) {
            Some(t) => Some(t),
            None => match self.target(e, "subsettingFeature"@) {
                Some(t) => Some(t),
                None => match self.target(e, "redefiningFeature"@) {
                    Some(t) => Some(t),
                    None => match self.target(e, "referencingFeature"@) {
                        Some(t) => Some(t),
                        None => match self.target(e, "crossingFeature"@) {
                            Some(t) => Some(t),
                            None => self.target(e, "typedFeature"@),
                        },
                    },
                },
            },
        }
    }
}

impl Derivation {
    /// The source end that a relationship spells, as far as the features go.
    pub fn feature_source(&self, e: usize) -> (r: Option<usize>)
        requires
            self.ok(),
            e < self@.n(),
        ensures
            r == self@.feature_source(e),
            below(r, self@.n()),
    {
        proof {
            reveal(DV::feature_source);
        }
        match self.target(e, "subclassifier") {
            Some(t) => Some(t),
            None => match self.target(e, "subsettingFeature") {
                Some(t) => Some(t),
                None => match self.target(e, "redefiningFeature") {
                    Some(t) => Some(t),
                    None => match self.target(e, "referencingFeature") {
                        Some(t) => Some(t),
                        None => match self.target(e, "crossingFeature") {
                            Some(t) => Some(t),
                            None => self.target(e, "typedFeature"),
                        },
                    },
                },
            },
        }
    }
}

impl DV {
    /// The source end that a relationship spells.
    #[verifier::opaque]
    pub open spec fn relationship_source(self, e: usize) -> Option<usize> {
        match self.feature_source(e) {
            Some(t) => Some(t),
            None => match self.target(e, "specific"@) {
                Some(t) => Some(t),
                None => match self.target(e, "conjugatedType"@) {
                    Some(t) => Some(t),
                    None => match self.target(e, "typeDisjoined"@) {
                        Some(t) => Some(t),
                        None => match self.target(e, "featureInverted"@) {
                            Some(t) => Some(t),
                            None => self.target(e, "featureOfType"@),
                        },
                    },
                },
            },
        }
    }
}

impl Derivation {
    /// The source end that a relationship spells.
    pub fn relationship_source(&self, e: usize) -> (r: Option<usize>)
        requires
            self.ok(),
            e < self@.n(),
        ensures
            r == self@.relationship_source(e),
            below(r, self@.n()),
    {
        proof {
            reveal(DV::relationship_source);
        }
        match self.feature_source(e) {
            Some(t) => Some(t),
            None => match self.target(e, "specific") {
                Some(t) => Some(t),
                None => match self.target(e, "conjugatedType") {
                    Some(t) => Some(t),
                    None => match self.target(e, "typeDisjoined") {
                        Some(t) => Some(t),
                        None => match self.target(e, "featureInverted") {
                            Some(t) => Some(t),
                            None => self.target(e, "featureOfType"),
                        },
                    },
                },
            },
        }
    }
}

impl DV {
    /// The type that carries a relationship and is its source end.
    #[verifier::opaque]
    pub open spec fn relationship_owning_type(self, e: usize) -> Option<usize> {
        match self.owning(e) {
            Some(_) => None,
            None => match self.carrier(e) {
                Some(o) => match self.relationship_source(e) {
                    Some(s) => if s == o {
                        self.if_kind(o, "Type"@)
                    } else {
                        None
                    },
                    None => self.if_kind(o, "Type"@),
                },
                None => None,
            },
        }
    }
}

impl Derivation {
    /// The type that carries a relationship and is its source end.
    pub fn relationship_owning_type(&self, e: usize) -> (r: Option<usize>)
        requires
            self.ok(),
            e < self@.n(),
        ensures
            r == self@.relationship_owning_type(e),
            below(r, self@.n()),
    {
        proof {
            reveal(DV::relationship_owning_type);
        }
        match self.owning(e) {
            Some(_) => None,
            None => match self.carrier(e) {
                Some(o) => match self.relationship_source(e) {
                    Some(s) => if s == o {
                        self.if_kind(o, "Type")
                    } else {
                        None
                    },
                    None => self.if_kind(o, "Type"),
                },
                None => None,
            },
        }
    }
}

impl DV {
    /// The owning type, for whichever kind of element declares it.
    #[verifier::opaque]
    pub open spec fn owning_type_any(self, e: usize) -> Option<usize> {
        if self.is_kind(e, "FeatureMembership"@) {
            self.carrier(e)
        } else if self.is_kind(e, "Feature"@) {
            self.owning_type(e)
        } else {
            self.relationship_owning_type(e)
        }
    }
}

impl Derivation {
    /// The owning type, for whichever kind of element declares it.
    pub fn owning_type_any(&self, e: usize) -> (r: Option<usize>)
        requires
            self.ok(),
            e < self@.n(),
        ensures
            r == self@.owning_type_any(e),
            below(r, self@.n()),
    {
        proof {
            reveal(DV::owning_type_any);
        }
        if self.is_kind(e, "FeatureMembership") {
            self.carrier(e)
        } else if self.is_kind(e, "Feature") {
            self.owning_type(e)
        } else {
            self.relationship_owning_type(e)
        }
    }
}

impl DV {
    /// The owned member that is a multiplicity.
    #[verifier::opaque]
    pub open spec fn multiplicity(self, e: usize) -> Option<usize> {
        head(self.of_kind(self.owned_members(e), "Multiplicity"@))
    }
}

impl Derivation {
    /// The owned member that is a multiplicity.
    pub fn multiplicity(&self, e: usize) -> (r: Option<usize>)
        requires
            self.ok(),
            e < self@.n(),
        ensures
            r == self@.multiplicity(e),
            below(r, self@.n()),
    {
        proof {
            reveal(DV::multiplicity);
        }
        get_head(&self.of_kind(&self.owned_members(e), "Multiplicity"))
    }
}

impl DV {
    /// The annotating element that an annotation owns.
    #[verifier::opaque]
    pub open spec fn owned_annotating_element(self, a: usize) -> Option<usize> {
        head(self.of_kind(self.children(a), "AnnotatingElement"@))
    }
}

impl Derivation {
    /// The annotating element that an annotation owns.
    pub fn owned_annotating_element(&self, a: usize) -> (r: Option<usize>)
        requires
            self.ok(),
            a < self@.n(),
        ensures
            r == self@.owned_annotating_element(a),
            below(r, self@.n()),
    {
        proof {
            reveal(DV::owned_annotating_element);
        }
        get_head(&self.of_kind(&self.children(a), "AnnotatingElement"))
    }
}

impl DV {
    /// The annotating element of an annotation.
    #[verifier::opaque]
    pub open spec fn annotating_element(self, a: usize) -> Option<usize> {
        match self.owned_annotating_element(a) {
            Some(k) => Some(k),
            None => match self.carrier(a) {
                Some(o) => self.if_kind(o, "AnnotatingElement"@),
                None => None,
            },
        }
    }
}

impl Derivation {
    /// The annotating element of an annotation.
    pub fn annotating_element(&self, a: usize) -> (r: Option<usize>)
        requires
            self.ok(),
            a < self@.n(),
        ensures
            r == self@.annotating_element(a),
            below(r, self@.n()),
    {
        proof {
            reveal(DV::annotating_element);
        }
        match self.owned_annotating_element(a) {
            Some(k) => Some(k),
            None => match self.carrier(a) {
                Some(o) => self.if_kind(o, "AnnotatingElement"),
                None => None,
            },
        }
    }
}

impl DV {
    /// The annotated element of an annotation.
    #[verifier::opaque]
    pub open spec fn annotated_element(self, a: usize) -> Option<RefV> {
        match self.link(a, "annotatedElement"@) {
            Some(r) => Some(r),
            None => match self.owned_annotating_element(a) {
                Some(_) => elem_ref(self.carrier(a)),
                None => None,
            },
        }
    }
}

impl Derivation {
    /// The annotated element of an annotation.
    pub fn annotated_element(&self, a: usize) -> (r: Option<Reference>)
        requires
            self.ok(),
            a < self@.n(),
        ensures
            opt_ref_view(r) == self@.annotated_element(a),
            opt_ref_ok(opt_ref_view(r), self@.n()),
    {
        proof {
            reveal(DV::annotated_element);
        }
        match self.link(a, "annotatedElement") {
            Some(r) => Some(r),
            None => match self.owned_annotating_element(a) {
                Some(_) => make_ref(self.carrier(a)),
                None => None,
            },
        }
    }
}

impl DV {
    /// The features that chain into a feature, in order.
    #[verifier::opaque]
    pub open spec fn chaining_features(self, e: usize) -> Seq<RefV> {
        self.links(self.of_type(self.owned(e), "FeatureChaining"@), "chainingFeature"@)
    }
}

impl Derivation {
    /// The features that chain into a feature, in order.
    pub fn chaining_features(&self, e: usize) -> (r: Vec<Reference>)
        requires
            self.ok(),
            e < self@.n(),
        ensures
            refs_view(r@) == self@.chaining_features(e),
            refs_ok(refs_view(r@), self@.n()),
    {
        proof {
            reveal(DV::chaining_features);
        }
        self.links(&self.of_type(&self.owned(e), "FeatureChaining"), "chainingFeature")
    }
}

impl DV {
    /// The feature a chain ends at, the feature itself where there is none.
    #[verifier::opaque]
    pub open spec fn feature_target(self, e: usize) -> RefV {
        match last_ref(self.chaining_features(e)) {
            Some(r) => r,
            None => RefV::Element(e),
        }
    }
}

impl Derivation {
    /// The feature a chain ends at, the feature itself where there is none.
    pub fn feature_target(&self, e: usize) -> (r: Reference)
        requires
            self.ok(),
            e < self@.n(),
        ensures
            r@ == self@.feature_target(e),
            r@.ok(self@.n()),
    {
        proof {
            reveal(DV::feature_target);
        }
        match get_last_ref(&self.chaining_features(e)) {
            Some(r) => r,
            None => Reference::Element(e),
        }
    }
}

impl DV {
    /// What a reference to a feature comes to at the end of its chain.
    #[verifier::opaque]
    pub open spec fn chain_end(self, e: usize) -> Option<RefV> {
        match self.link(e, "referencedFeature"@) {
            Some(RefV::Element(f)) => Some(self.feature_target(f)),
            Some(r) => Some(r),
            None => None,
        }
    }
}

impl Derivation {
    /// What a reference to a feature comes to at the end of its chain.
    pub fn chain_end(&self, e: usize) -> (r: Option<Reference>)
        requires
            self.ok(),
            e < self@.n(),
        ensures
            opt_ref_view(r) == self@.chain_end(e),
            opt_ref_ok(opt_ref_view(r), self@.n()),
    {
        proof {
            reveal(DV::chain_end);
        }
        match self.link(e, "referencedFeature") {
            Some(Reference::Element(f)) => Some(self.feature_target(f)),
            Some(r) => Some(r),
            None => None,
        }
    }
}

impl DV {
    /// The feature that a cross subsetting crosses to.
    #[verifier::opaque]
    pub open spec fn cross_feature(self, e: usize) -> Option<RefV> {
        match head(self.owned_of_kind(e, "CrossSubsetting"@)) {
            Some(c) => match self.target(c, "crossedFeature"@) {
                Some(f) => nth_ref(self.chaining_features(f), 1),
                None => None,
            },
            None => None,
        }
    }
}

impl Derivation {
    /// The feature that a cross subsetting crosses to.
    pub fn cross_feature(&self, e: usize) -> (r: Option<Reference>)
        requires
            self.ok(),
            e < self@.n(),
        ensures
            opt_ref_view(r) == self@.cross_feature(e),
            opt_ref_ok(opt_ref_view(r), self@.n()),
    {
        proof {
            reveal(DV::cross_feature);
        }
        match get_head(&self.owned_of_kind(e, "CrossSubsetting")) {
            Some(c) => match self.target(c, "crossedFeature") {
                Some(f) => get_nth_ref(&self.chaining_features(f), 1),
                None => None,
            },
            None => None,
        }
    }
}

impl DV {
    /// The ends among features.
    #[verifier::opaque]
    pub open spec fn ends(self, fs: Seq<usize>) -> Seq<usize> {
        self.flagged(fs, "isEnd"@)
    }
}

impl Derivation {
    /// The ends among features.
    pub fn ends(&self, fs: &Vec<usize>) -> (r: Vec<usize>)
        requires
            self.ok(),
            all_below(fs@, self@.n()),
        ensures
            r@ == self@.ends(fs@),
            all_below(r@, self@.n()),
    {
        proof {
            reveal(DV::ends);
        }
        self.flagged(fs, "isEnd")
    }
}

impl DV {
    /// The first reference subsetting of an element.
    #[verifier::opaque]
    pub open spec fn reference_subsetting(self, e: usize) -> Option<usize> {
        head(self.owned_of_kind(e, "ReferenceSubsetting"@))
    }
}

impl Derivation {
    /// The first reference subsetting of an element.
    pub fn reference_subsetting(&self, e: usize) -> (r: Option<usize>)
        requires
            self.ok(),
            e < self@.n(),
        ensures
            r == self@.reference_subsetting(e),
            below(r, self@.n()),
    {
        proof {
            reveal(DV::reference_subsetting);
        }
        get_head(&self.owned_of_kind(e, "ReferenceSubsetting"))
    }
}

impl DV {
    /// The variants of a variation.
    #[verifier::opaque]
    pub open spec fn variant_memberships(self, e: usize) -> Seq<usize> {
        self.of_type(self.owned(e), "VariantMembership"@)
    }
}

impl Derivation {
    /// The variants of a variation.
    pub fn variant_memberships(&self, e: usize) -> (r: Vec<usize>)
        requires
            self.ok(),
            e < self@.n(),
        ensures
            r@ == self@.variant_memberships(e),
            all_below(r@, self@.n()),
    {
        proof {
            reveal(DV::variant_memberships);
        }
        self.of_type(&self.owned(e), "VariantMembership")
    }
}

impl DV {
    /// The element an import imports.
    #[verifier::opaque]
    pub open spec fn imported_element(self, e: usize) -> Option<RefV> {
        match self.link(e, "importedNamespace"@) {
            Some(r) => Some(r),
            None => match self.link(e, "importedMembership"@) {
                Some(RefV::Element(m)) => if self.is_kind(m, "Membership"@) {
                    self.member_element(m)
                } else {
                    Some(RefV::Element(m))
                },
                Some(r) => Some(r),
                None => None,
            },
        }
    }
}

impl Derivation {
    /// The element an import imports.
    pub fn imported_element(&self, e: usize) -> (r: Option<Reference>)
        requires
            self.ok(),
            e < self@.n(),
        ensures
            opt_ref_view(r) == self@.imported_element(e),
            opt_ref_ok(opt_ref_view(r), self@.n()),
    {
        proof {
            reveal(DV::imported_element);
        }
        match self.link(e, "importedNamespace") {
            Some(r) => Some(r),
            None => match self.link(e, "importedMembership") {
                Some(Reference::Element(m)) => if self.is_kind(m, "Membership") {
                    self.member_element(m)
                } else {
                    Some(Reference::Element(m))
                },
                Some(r) => Some(r),
                None => None,
            },
        }
    }
}

impl DV {
    /// The annotations an element owns.
    #[verifier::opaque]
    pub open spec fn annotation_relationships(self, e: usize) -> Seq<usize> {
        self.owned_of_kind(e, "Annotation"@)
    }
}

impl Derivation {
    /// The annotations an element owns.
    pub fn annotation_relationships(&self, e: usize) -> (r: Vec<usize>)
        requires
            self.ok(),
            e < self@.n(),
        ensures
            r@ == self@.annotation_relationships(e),
            all_below(r@, self@.n()),
    {
        proof {
            reveal(DV::annotation_relationships);
        }
        self.owned_of_kind(e, "Annotation")
    }
}

impl DV {
    /// The annotation that owns an element.
    #[verifier::opaque]
    pub open spec fn owning_annotation(self, e: usize) -> Option<usize> {
        match self.owning(e) {
            Some(r) => self.if_type(r, "Annotation"@),
            None => None,
        }
    }
}

impl Derivation {
    /// The annotation that owns an element.
    pub fn owning_annotation(&self, e: usize) -> (r: Option<usize>)
        requires
            self.ok(),
            e < self@.n(),
        ensures
            r == self@.owning_annotation(e),
            below(r, self@.n()),
    {
        proof {
            reveal(DV::owning_annotation);
        }
        match self.owning(e) {
            Some(r) => self.if_type(r, "Annotation"),
            None => None,
        }
    }
}

} // verus!
