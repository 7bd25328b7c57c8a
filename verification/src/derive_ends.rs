//! The ends of relationships, and what types and features lead to.
use crate::derive_base::{
    opt_ref_ok, opt_ref_view, refs_ok, refs_view, Derivation, RefV, Reference, DV,
};
use crate::derive_lists::{
    elem_of, elem_ref, get_elem, get_last, get_nth_ref, join, join_refs, joined, joined_refs, last,
    make_ref, make_unit, make_unit_ref, nth_ref, unit, unit_ref,
};
use crate::state::{all_below, below};
use vstd::prelude::*;

verus! {

impl DV {
    /// The first of two references that a relationship spells.
    #[verifier::opaque]
    pub open spec fn first_link(self, e: usize, a: Seq<char>, b: Seq<char>) -> Option<RefV> {
        match self.link(e, a) {
            Some(r) => Some(r),
            None => self.link(e, b),
        }
    }
}

impl Derivation {
    /// The first of two references that a relationship spells.
    pub fn first_link(&self, e: usize, a: &str, b: &str) -> (r: Option<Reference>)
        requires
            self.ok(),
            e < self@.n(),
        ensures
            opt_ref_view(r) == self@.first_link(e, a@, b@),
            opt_ref_ok(opt_ref_view(r), self@.n()),
    {
        proof {
            reveal(DV::first_link);
        }
        match self.link(e, a) {
            Some(r) => Some(r),
            None => self.link(e, b),
        }
    }
}

impl DV {
    /// A reference that a relationship spells, or else its owner.
    #[verifier::opaque]
    pub open spec fn link_or_owner(self, e: usize, key: Seq<char>) -> Option<RefV> {
        match self.link(e, key) {
            Some(r) => Some(r),
            None => elem_ref(self.carrier(e)),
        }
    }
}

impl Derivation {
    /// A reference that a relationship spells, or else its owner.
    pub fn link_or_owner(&self, e: usize, key: &str) -> (r: Option<Reference>)
        requires
            self.ok(),
            e < self@.n(),
        ensures
            opt_ref_view(r) == self@.link_or_owner(e, key@),
            opt_ref_ok(opt_ref_view(r), self@.n()),
    {
        proof {
            reveal(DV::link_or_owner);
        }
        match self.link(e, key) {
            Some(r) => Some(r),
            None => make_ref(self.carrier(e)),
        }
    }
}

impl DV {
    /// The subsetting feature of a subsetting.
    #[verifier::opaque]
    pub open spec fn subsetting_source(self, e: usize) -> Option<RefV> {
        match self.first_link(e, "subsettingFeature"@, "redefiningFeature"@) {
            Some(r) => Some(r),
            None => match self.first_link(e, "referencingFeature"@, "crossingFeature"@) {
                Some(r) => Some(r),
                None => elem_ref(self.carrier(e)),
            },
        }
    }
}

impl Derivation {
    /// The subsetting feature of a subsetting.
    pub fn subsetting_source(&self, e: usize) -> (r: Option<Reference>)
        requires
            self.ok(),
            e < self@.n(),
        ensures
            opt_ref_view(r) == self@.subsetting_source(e),
            opt_ref_ok(opt_ref_view(r), self@.n()),
    {
        proof {
            reveal(DV::subsetting_source);
        }
        match self.first_link(e, "subsettingFeature", "redefiningFeature") {
            Some(r) => Some(r),
            None => match self.first_link(e, "referencingFeature", "crossingFeature") {
                Some(r) => Some(r),
                None => make_ref(self.carrier(e)),
            },
        }
    }
}

impl DV {
    /// The subsetted feature of a subsetting.
    #[verifier::opaque]
    pub open spec fn subsetting_target(self, e: usize) -> Option<RefV> {
        match self.first_link(e, "subsettedFeature"@, "redefinedFeature"@) {
            Some(r) => Some(r),
            None => self.first_link(e, "referencedFeature"@, "crossedFeature"@),
        }
    }
}

impl Derivation {
    /// The subsetted feature of a subsetting.
    pub fn subsetting_target(&self, e: usize) -> (r: Option<Reference>)
        requires
            self.ok(),
            e < self@.n(),
        ensures
            opt_ref_view(r) == self@.subsetting_target(e),
            opt_ref_ok(opt_ref_view(r), self@.n()),
    {
        proof {
            reveal(DV::subsetting_target);
        }
        match self.first_link(e, "subsettedFeature", "redefinedFeature") {
            Some(r) => Some(r),
            None => self.first_link(e, "referencedFeature", "crossedFeature"),
        }
    }
}

impl DV {
    /// The type that a type operation or chain names, or else owns.
    #[verifier::opaque]
    pub open spec fn operation_target(self, e: usize) -> Option<RefV> {
        match self.first_link(e, "unioningType"@, "intersectingType"@) {
            Some(r) => Some(r),
            None => match self.first_link(e, "differencingType"@, "chainingFeature"@) {
                Some(r) => Some(r),
                None => elem_ref(self.first_child(e)),
            },
        }
    }
}

impl Derivation {
    /// The type that a type operation or chain names, or else owns.
    pub fn operation_target(&self, e: usize) -> (r: Option<Reference>)
        requires
            self.ok(),
            e < self@.n(),
        ensures
            opt_ref_view(r) == self@.operation_target(e),
            opt_ref_ok(opt_ref_view(r), self@.n()),
    {
        proof {
            reveal(DV::operation_target);
        }
        match self.first_link(e, "unioningType", "intersectingType") {
            Some(r) => Some(r),
            None => match self.first_link(e, "differencingType", "chainingFeature") {
                Some(r) => Some(r),
                None => make_ref(self.first_child(e)),
            },
        }
    }
}

impl DV {
    /// Whether a relationship is written as a subsetting.
    #[verifier::opaque]
    pub open spec fn spells_subsetting(self, e: usize) -> bool {
        self.is_type(e, "Subsetting"@) || self.is_type(e, "Redefinition"@) || self.is_type(
            e,
            "ReferenceSubsetting"@,
        ) || self.is_type(e, "CrossSubsetting"@)
    }
}

impl Derivation {
    /// Whether a relationship is written as a subsetting.
    pub fn spells_subsetting(&self, e: usize) -> (r: bool)
        requires
            self.ok(),
            e < self@.n(),
        ensures
            r == self@.spells_subsetting(e),
    {
        proof {
            reveal(DV::spells_subsetting);
        }
        self.is_type(e, "Subsetting") || self.is_type(e, "Redefinition") || self.is_type(
            e,
            "ReferenceSubsetting",
        ) || self.is_type(e, "CrossSubsetting")
    }
}

impl DV {
    /// Whether a relationship is a typing.
    #[verifier::opaque]
    pub open spec fn is_typing(self, e: usize) -> bool {
        self.is_type(e, "FeatureTyping"@) || self.is_type(e, "ConjugatedPortTyping"@)
    }
}

impl Derivation {
    /// Whether a relationship is a typing.
    pub fn is_typing(&self, e: usize) -> (r: bool)
        requires
            self.ok(),
            e < self@.n(),
        ensures
            r == self@.is_typing(e),
    {
        proof {
            reveal(DV::is_typing);
        }
        self.is_type(e, "FeatureTyping") || self.is_type(e, "ConjugatedPortTyping")
    }
}

impl DV {
    /// Whether a relationship is a type operation, a chaining or a value.
    #[verifier::opaque]
    pub open spec fn is_operation(self, e: usize) -> bool {
        self.is_type(e, "Unioning"@) || self.is_type(e, "Intersecting"@) || self.is_type(e, "Differencing"@)
            || self.is_type(e, "FeatureChaining"@) || self.is_type(e, "FeatureValue"@)
    }
}

impl Derivation {
    /// Whether a relationship is a type operation, a chaining or a value.
    pub fn is_operation(&self, e: usize) -> (r: bool)
        requires
            self.ok(),
            e < self@.n(),
        ensures
            r == self@.is_operation(e),
    {
        proof {
            reveal(DV::is_operation);
        }
        self.is_type(e, "Unioning") || self.is_type(e, "Intersecting") || self.is_type(e, "Differencing")
            || self.is_type(e, "FeatureChaining") || self.is_type(e, "FeatureValue")
    }
}

impl DV {
    /// The source of a conjugation, disjoining, inversion or featuring.
    #[verifier::opaque]
    pub open spec fn other_source(self, e: usize) -> Option<RefV> {
        if self.is_type(e, "Conjugation"@) || self.is_type(e, "PortConjugation"@) {
            self.link_or_owner(e, "conjugatedType"@)
        } else if self.is_type(e, "Disjoining"@) {
            self.link_or_owner(e, "typeDisjoined"@)
        } else if self.is_type(e, "FeatureInverting"@) {
            self.link_or_owner(e, "featureInverted"@)
        } else if self.is_type(e, "TypeFeaturing"@) {
            self.link_or_owner(e, "featureOfType"@)
        } else if self.is_operation(e) {
            elem_ref(self.carrier(e))
        } else {
            None
        }
    }
}

impl Derivation {
    /// The source of a conjugation, disjoining, inversion or featuring.
    pub fn other_source(&self, e: usize) -> (r: Option<Reference>)
        requires
            self.ok(),
            e < self@.n(),
        ensures
            opt_ref_view(r) == self@.other_source(e),
            opt_ref_ok(opt_ref_view(r), self@.n()),
    {
        proof {
            reveal(DV::other_source);
        }
        if self.is_type(e, "Conjugation") || self.is_type(e, "PortConjugation") {
            self.link_or_owner(e, "conjugatedType")
        } else if self.is_type(e, "Disjoining") {
            self.link_or_owner(e, "typeDisjoined")
        } else if self.is_type(e, "FeatureInverting") {
            self.link_or_owner(e, "featureInverted")
        } else if self.is_type(e, "TypeFeaturing") {
            self.link_or_owner(e, "featureOfType")
        } else if self.is_operation(e) {
            make_ref(self.carrier(e))
        } else {
            None
        }
    }
}

impl DV {
    /// The target of a conjugation, disjoining, inversion or featuring.
    #[verifier::opaque]
    pub open spec fn other_target(self, e: usize) -> Option<RefV> {
        if self.is_type(e, "Conjugation"@) || self.is_type(e, "PortConjugation"@) {
            self.link(e, "originalType"@)
        } else if self.is_type(e, "Disjoining"@) {
            self.link(e, "disjoiningType"@)
        } else if self.is_type(e, "FeatureInverting"@) {
            self.link(e, "invertingFeature"@)
        } else if self.is_type(e, "TypeFeaturing"@) {
            self.link(e, "featuringType"@)
        } else if self.is_operation(e) {
            self.operation_target(e)
        } else {
            None
        }
    }
}

impl Derivation {
    /// The target of a conjugation, disjoining, inversion or featuring.
    pub fn other_target(&self, e: usize) -> (r: Option<Reference>)
        requires
            self.ok(),
            e < self@.n(),
        ensures
            opt_ref_view(r) == self@.other_target(e),
            opt_ref_ok(opt_ref_view(r), self@.n()),
    {
        proof {
            reveal(DV::other_target);
        }
        if self.is_type(e, "Conjugation") || self.is_type(e, "PortConjugation") {
            self.link(e, "originalType")
        } else if self.is_type(e, "Disjoining") {
            self.link(e, "disjoiningType")
        } else if self.is_type(e, "FeatureInverting") {
            self.link(e, "invertingFeature")
        } else if self.is_type(e, "TypeFeaturing") {
            self.link(e, "featuringType")
        } else if self.is_operation(e) {
            self.operation_target(e)
        } else {
            None
        }
    }
}

impl DV {
    /// The source end of a relationship with one.
    #[verifier::opaque]
    pub open spec fn source_end(self, e: usize) -> Option<RefV> {
        if self.is_kind(e, "Membership"@) || self.is_kind(e, "Import"@) {
            elem_ref(self.carrier(e))
        } else if self.is_type(e, "Subclassification"@) || self.is_type(e, "Specialization"@) {
            self.first_link(e, "subclassifier"@, "specific"@)
        } else if self.is_typing(e) {
            self.link(e, "typedFeature"@)
        } else if self.spells_subsetting(e) {
            self.subsetting_source(e)
        } else if self.is_type(e, "Annotation"@) {
            elem_ref(self.annotating_element(e))
        } else {
            self.other_source(e)
        }
    }
}

impl Derivation {
    /// The source end of a relationship with one.
    pub fn source_end(&self, e: usize) -> (r: Option<Reference>)
        requires
            self.ok(),
            e < self@.n(),
        ensures
            opt_ref_view(r) == self@.source_end(e),
            opt_ref_ok(opt_ref_view(r), self@.n()),
    {
        proof {
            reveal(DV::source_end);
        }
        if self.is_kind(e, "Membership") || self.is_kind(e, "Import") {
            make_ref(self.carrier(e))
        } else if self.is_type(e, "Subclassification") || self.is_type(e, "Specialization") {
            self.first_link(e, "subclassifier", "specific")
        } else if self.is_typing(e) {
            self.link(e, "typedFeature")
        } else if self.spells_subsetting(e) {
            self.subsetting_source(e)
        } else if self.is_type(e, "Annotation") {
            make_ref(self.annotating_element(e))
        } else {
            self.other_source(e)
        }
    }
}

impl DV {
    /// The target end of a relationship with one.
    #[verifier::opaque]
    pub open spec fn target_end(self, e: usize) -> Option<RefV> {
        if self.is_kind(e, "Membership"@) {
            match self.link(e, "memberElement"@) {
                Some(r) => Some(r),
                None => elem_ref(self.first_child(e)),
            }
        } else if self.is_kind(e, "Import"@) {
            self.first_link(e, "importedNamespace"@, "importedMembership"@)
        } else if self.is_type(e, "Subclassification"@) || self.is_type(e, "Specialization"@) {
            self.first_link(e, "superclassifier"@, "general"@)
        } else if self.is_typing(e) {
            self.link(e, "type"@)
        } else if self.spells_subsetting(e) {
            self.subsetting_target(e)
        } else if self.is_type(e, "Annotation"@) {
            self.annotated_element(e)
        } else {
            self.other_target(e)
        }
    }
}

impl Derivation {
    /// The target end of a relationship with one.
    pub fn target_end(&self, e: usize) -> (r: Option<Reference>)
        requires
            self.ok(),
            e < self@.n(),
        ensures
            opt_ref_view(r) == self@.target_end(e),
            opt_ref_ok(opt_ref_view(r), self@.n()),
    {
        proof {
            reveal(DV::target_end);
        }
        if self.is_kind(e, "Membership") {
            match self.link(e, "memberElement") {
                Some(r) => Some(r),
                None => make_ref(self.first_child(e)),
            }
        } else if self.is_kind(e, "Import") {
            self.first_link(e, "importedNamespace", "importedMembership")
        } else if self.is_type(e, "Subclassification") || self.is_type(e, "Specialization") {
            self.first_link(e, "superclassifier", "general")
        } else if self.is_typing(e) {
            self.link(e, "type")
        } else if self.spells_subsetting(e) {
            self.subsetting_target(e)
        } else if self.is_type(e, "Annotation") {
            self.annotated_element(e)
        } else {
            self.other_target(e)
        }
    }
}

impl DV {
    /// Whether a relationship is a dependency with its lists of ends.
    #[verifier::opaque]
    pub open spec fn lists_ends(self, e: usize) -> bool {
        self.is_type(e, "Dependency"@) && !self.is_kind(e, "Membership"@) && !self.is_kind(e, "Import"@)
    }
}

impl Derivation {
    /// Whether a relationship is a dependency with its lists of ends.
    pub fn lists_ends(&self, e: usize) -> (r: bool)
        requires
            self.ok(),
            e < self@.n(),
        ensures
            r == self@.lists_ends(e),
    {
        proof {
            reveal(DV::lists_ends);
        }
        self.is_type(e, "Dependency") && !self.is_kind(e, "Membership") && !self.is_kind(e, "Import")
    }
}

impl DV {
    /// The sources of a relationship.
    #[verifier::opaque]
    pub open spec fn sources(self, e: usize) -> Seq<RefV> {
        if self.lists_ends(e) {
            self.link_list(e, "client"@)
        } else {
            unit_ref(self.source_end(e))
        }
    }
}

impl Derivation {
    /// The sources of a relationship.
    pub fn sources(&self, e: usize) -> (r: Vec<Reference>)
        requires
            self.ok(),
            e < self@.n(),
        ensures
            refs_view(r@) == self@.sources(e),
            refs_ok(refs_view(r@), self@.n()),
    {
        proof {
            reveal(DV::sources);
        }
        if self.lists_ends(e) {
            self.link_list(e, "client")
        } else {
            make_unit_ref(self.source_end(e))
        }
    }
}

impl DV {
    /// The targets of a relationship.
    #[verifier::opaque]
    pub open spec fn ends_targets(self, e: usize) -> Seq<RefV> {
        if self.lists_ends(e) {
            self.link_list(e, "supplier"@)
        } else {
            unit_ref(self.target_end(e))
        }
    }
}

impl Derivation {
    /// The targets of a relationship.
    pub fn ends_targets(&self, e: usize) -> (r: Vec<Reference>)
        requires
            self.ok(),
            e < self@.n(),
        ensures
            refs_view(r@) == self@.ends_targets(e),
            refs_ok(refs_view(r@), self@.n()),
    {
        proof {
            reveal(DV::ends_targets);
        }
        if self.lists_ends(e) {
            self.link_list(e, "supplier")
        } else {
            make_unit_ref(self.target_end(e))
        }
    }
}

impl DV {
    /// A typing.
    #[verifier::opaque]
    pub open spec fn if_typing(self, x: usize) -> Option<usize> {
        if self.is_typing(x) {
            Some(x)
        } else {
            None
        }
    }
}

impl Derivation {
    /// A typing.
    pub fn if_typing(&self, x: usize) -> (r: Option<usize>)
        requires
            self.ok(),
            x < self@.n(),
        ensures
            r == self@.if_typing(x),
            below(r, self@.n()),
    {
        proof {
            reveal(DV::if_typing);
        }
        if self.is_typing(x) {
            Some(x)
        } else {
            None
        }
    }
}

impl DV {
    /// The feature that a subsetting leads to.
    #[verifier::opaque]
    pub open spec fn subsetted(self, x: usize) -> Option<usize> {
        if self.is_typing(x) || !self.is_kind(x, "Subsetting"@) {
            None
        } else if self.is_type(x, "Redefinition"@) {
            self.target(x, "redefinedFeature"@)
        } else if self.is_type(x, "ReferenceSubsetting"@) {
            self.target(x, "referencedFeature"@)
        } else if self.is_type(x, "CrossSubsetting"@) {
            self.target(x, "crossedFeature"@)
        } else {
            self.target(x, "subsettedFeature"@)
        }
    }
}

impl Derivation {
    /// The feature that a subsetting leads to.
    pub fn subsetted(&self, x: usize) -> (r: Option<usize>)
        requires
            self.ok(),
            x < self@.n(),
        ensures
            r == self@.subsetted(x),
            below(r, self@.n()),
    {
        proof {
            reveal(DV::subsetted);
        }
        if self.is_typing(x) || !self.is_kind(x, "Subsetting") {
            None
        } else if self.is_type(x, "Redefinition") {
            self.target(x, "redefinedFeature")
        } else if self.is_type(x, "ReferenceSubsetting") {
            self.target(x, "referencedFeature")
        } else if self.is_type(x, "CrossSubsetting") {
            self.target(x, "crossedFeature")
        } else {
            self.target(x, "subsettedFeature")
        }
    }
}

impl DV {
    /// The type a specialization leads to.
    #[verifier::opaque]
    pub open spec fn general_of(self, x: usize) -> Option<usize> {
        elem_of(nth_ref(self.ends_targets(x), 0))
    }
}

impl Derivation {
    /// The type a specialization leads to.
    pub fn general_of(&self, x: usize) -> (r: Option<usize>)
        requires
            self.ok(),
            x < self@.n(),
        ensures
            r == self@.general_of(x),
            below(r, self@.n()),
    {
        proof {
            reveal(DV::general_of);
        }
        get_elem(&get_nth_ref(&self.ends_targets(x), 0))
    }
}

impl DV {
    /// The typings among relationships.
    pub open spec fn typings_of_from(self, s: Seq<usize>, k: int) -> Seq<usize>
        decreases s.len() - k,
        when 0 <= k
    {
        if k >= s.len() {
            Seq::empty()
        } else {
            match self.if_typing(s[k]) {
                Some(y) => seq![y] + self.typings_of_from(s, k + 1),
                None => self.typings_of_from(s, k + 1),
            }
        }
    }

    #[verifier::opaque]
    pub open spec fn typings_of(self, s: Seq<usize>) -> Seq<usize> {
        self.typings_of_from(s, 0)
    }
}

impl Derivation {
    /// The typings among relationships.
    pub fn typings_of(&self, list: &Vec<usize>) -> (r: Vec<usize>)
        requires
            self.ok(),
            all_below(list@, self@.n()),
        ensures
            r@ == self@.typings_of(list@),
            all_below(r@, self@.n()),
    {
        proof {
            reveal(DV::typings_of);
        }
        let mut out: Vec<usize> = Vec::new();
        let n: usize = list.len();
        let mut k: usize = 0;
        let ghost whole = self@.typings_of_from(list@, 0);
        assert(out@ + whole =~= whole);
        while k < n
            invariant
                self.ok(),
                all_below(list@, self@.n()),
                n == list@.len(),
                k <= n,
                all_below(out@, self@.n()),
                out@ + self@.typings_of_from(list@, k as int) == whole,
            decreases n - k,
        {
            let x: usize = list[k];
            let ghost before = out@;
            let ghost rest = self@.typings_of_from(list@, k + 1);
            if let Some(y) = self.if_typing(x) {
                let ghost yv = y;
                out.push(y);
                assert(out@ =~= before.push(yv));
                assert(before + (seq![yv] + rest) =~= out@ + rest);
            }
            k += 1;
        }
        assert(out@ + Seq::<usize>::empty() =~= out@);
        out
    }
}

impl DV {
    /// The features that subsettings lead to.
    pub open spec fn subsetted_by_from(self, s: Seq<usize>, k: int) -> Seq<usize>
        decreases s.len() - k,
        when 0 <= k
    {
        if k >= s.len() {
            Seq::empty()
        } else {
            match self.subsetted(s[k]) {
                Some(y) => seq![y] + self.subsetted_by_from(s, k + 1),
                None => self.subsetted_by_from(s, k + 1),
            }
        }
    }

    #[verifier::opaque]
    pub open spec fn subsetted_by(self, s: Seq<usize>) -> Seq<usize> {
        self.subsetted_by_from(s, 0)
    }
}

impl Derivation {
    /// The features that subsettings lead to.
    pub fn subsetted_by(&self, list: &Vec<usize>) -> (r: Vec<usize>)
        requires
            self.ok(),
            all_below(list@, self@.n()),
        ensures
            r@ == self@.subsetted_by(list@),
            all_below(r@, self@.n()),
    {
        proof {
            reveal(DV::subsetted_by);
        }
        let mut out: Vec<usize> = Vec::new();
        let n: usize = list.len();
        let mut k: usize = 0;
        let ghost whole = self@.subsetted_by_from(list@, 0);
        assert(out@ + whole =~= whole);
        while k < n
            invariant
                self.ok(),
                all_below(list@, self@.n()),
                n == list@.len(),
                k <= n,
                all_below(out@, self@.n()),
                out@ + self@.subsetted_by_from(list@, k as int) == whole,
            decreases n - k,
        {
            let x: usize = list[k];
            let ghost before = out@;
            let ghost rest = self@.subsetted_by_from(list@, k + 1);
            if let Some(y) = self.subsetted(x) {
                let ghost yv = y;
                out.push(y);
                assert(out@ =~= before.push(yv));
                assert(before + (seq![yv] + rest) =~= out@ + rest);
            }
            k += 1;
        }
        assert(out@ + Seq::<usize>::empty() =~= out@);
        out
    }
}

impl DV {
    /// The types that specializations lead to.
    pub open spec fn generals_of_from(self, s: Seq<usize>, k: int) -> Seq<usize>
        decreases s.len() - k,
        when 0 <= k
    {
        if k >= s.len() {
            Seq::empty()
        } else {
            match self.general_of(s[k]) {
                Some(y) => seq![y] + self.generals_of_from(s, k + 1),
                None => self.generals_of_from(s, k + 1),
            }
        }
    }

    #[verifier::opaque]
    pub open spec fn generals_of(self, s: Seq<usize>) -> Seq<usize> {
        self.generals_of_from(s, 0)
    }
}

impl Derivation {
    /// The types that specializations lead to.
    pub fn generals_of(&self, list: &Vec<usize>) -> (r: Vec<usize>)
        requires
            self.ok(),
            all_below(list@, self@.n()),
        ensures
            r@ == self@.generals_of(list@),
            all_below(r@, self@.n()),
    {
        proof {
            reveal(DV::generals_of);
        }
        let mut out: Vec<usize> = Vec::new();
        let n: usize = list.len();
        let mut k: usize = 0;
        let ghost whole = self@.generals_of_from(list@, 0);
        assert(out@ + whole =~= whole);
        while k < n
            invariant
                self.ok(),
                all_below(list@, self@.n()),
                n == list@.len(),
                k <= n,
                all_below(out@, self@.n()),
                out@ + self@.generals_of_from(list@, k as int) == whole,
            decreases n - k,
        {
            let x: usize = list[k];
            let ghost before = out@;
            let ghost rest = self@.generals_of_from(list@, k + 1);
            if let Some(y) = self.general_of(x) {
                let ghost yv = y;
                out.push(y);
                assert(out@ =~= before.push(yv));
                assert(before + (seq![yv] + rest) =~= out@ + rest);
            }
            k += 1;
        }
        assert(out@ + Seq::<usize>::empty() =~= out@);
        out
    }
}

impl DV {
    /// The types a feature's own typings name, written or implied.
    #[verifier::opaque]
    pub open spec fn own_types(self, f: usize) -> Seq<RefV> {
        self.links(
            self.typings_of(joined(self.owned(f), self.of_type(self.implied(f), "FeatureTyping"@))),
            "type"@,
        )
    }
}

impl Derivation {
    /// The types a feature's own typings name, written or implied.
    pub fn own_types(&self, f: usize) -> (r: Vec<Reference>)
        requires
            self.ok(),
            f < self@.n(),
        ensures
            refs_view(r@) == self@.own_types(f),
            refs_ok(refs_view(r@), self@.n()),
    {
        proof {
            reveal(DV::own_types);
        }
        self.links(
            &self.typings_of(&join(self.owned(f), &self.of_type(&self.implied(f), "FeatureTyping"))),
            "type",
        )
    }
}

impl DV {
    /// The last link of a feature's chain.
    #[verifier::opaque]
    pub open spec fn last_link(self, f: usize) -> Option<usize> {
        match last(self.of_type(self.owned(f), "FeatureChaining"@)) {
            Some(c) => self.target(c, "chainingFeature"@),
            None => None,
        }
    }
}

impl Derivation {
    /// The last link of a feature's chain.
    pub fn last_link(&self, f: usize) -> (r: Option<usize>)
        requires
            self.ok(),
            f < self@.n(),
        ensures
            r == self@.last_link(f),
            below(r, self@.n()),
    {
        proof {
            reveal(DV::last_link);
        }
        match get_last(&self.of_type(&self.owned(f), "FeatureChaining")) {
            Some(c) => self.target(c, "chainingFeature"),
            None => None,
        }
    }
}

impl DV {
    /// The features that a feature takes its types from.
    #[verifier::opaque]
    pub open spec fn typing_features(self, f: usize) -> Seq<usize> {
        joined(self.subsetted_by(self.owned(f)), unit(self.last_link(f)))
    }
}

impl Derivation {
    /// The features that a feature takes its types from.
    pub fn typing_features(&self, f: usize) -> (r: Vec<usize>)
        requires
            self.ok(),
            f < self@.n(),
        ensures
            r@ == self@.typing_features(f),
            all_below(r@, self@.n()),
    {
        proof {
            reveal(DV::typing_features);
        }
        join(self.subsetted_by(&self.owned(f)), &make_unit(self.last_link(f)))
    }
}

impl DV {
    /// The types that an element specializes directly.
    #[verifier::opaque]
    pub open spec fn direct_generals(self, x: usize) -> Seq<usize> {
        self.generals_of(self.owned_specializations(x, "Specialization"@))
    }
}

impl Derivation {
    /// The types that an element specializes directly.
    pub fn direct_generals(&self, x: usize) -> (r: Vec<usize>)
        requires
            self.ok(),
            x < self@.n(),
        ensures
            r@ == self@.direct_generals(x),
            all_below(r@, self@.n()),
    {
        proof {
            reveal(DV::direct_generals);
        }
        self.generals_of(&self.owned_specializations(x, "Specialization"))
    }
}

impl DV {
    /// The ends of a relationship: its sources and its targets.
    #[verifier::opaque]
    pub open spec fn related_elements(self, e: usize) -> Seq<RefV> {
        joined_refs(self.sources(e), self.ends_targets(e))
    }
}

impl Derivation {
    /// The ends of a relationship: its sources and its targets.
    pub fn related_elements(&self, e: usize) -> (r: Vec<Reference>)
        requires
            self.ok(),
            e < self@.n(),
        ensures
            refs_view(r@) == self@.related_elements(e),
            refs_ok(refs_view(r@), self@.n()),
    {
        proof {
            reveal(DV::related_elements);
        }
        join_refs(self.sources(e), &self.ends_targets(e))
    }
}

impl Derivation {
    /// The source and target ends that a relationship spells. A relationship
    /// written on its source side takes its owner as its source.
    pub fn relationship_ends(&self, e: usize) -> (r: (Vec<Reference>, Vec<Reference>))
        requires
            self.ok(),
            e < self@.n(),
        ensures
            refs_view(r.0@) == self@.sources(e),
            refs_view(r.1@) == self@.ends_targets(e),
    {
        (self.sources(e), self.ends_targets(e))
    }
}

/// A relationship other than a dependency has at most one source and one
/// target; a membership or an import has its owner as its source, and none
/// where nothing owns it.
pub proof fn law_relationships_have_one_end_a_side(d: DV, e: usize)
    requires
        !d.lists_ends(e),
    ensures
        d.sources(e).len() <= 1,
        d.ends_targets(e).len() <= 1,
        d.is_kind(e, "Membership"@) || d.is_kind(e, "Import"@) ==> d.sources(e) == (match d.carrier(
            e,
        ) {
            Some(o) => seq![RefV::Element(o)],
            None => Seq::empty(),
        }),
{
    reveal(DV::sources);
    reveal(DV::ends_targets);
    reveal(DV::source_end);
}

impl DV {
    /// Whether an element's metaclass spells ends.
    pub open spec fn spells_ends(self, e: usize) -> bool {
        ||| self.is_kind(e, "Membership"@)
        ||| self.is_kind(e, "Import"@)
        ||| self.is_type(e, "Dependency"@)
        ||| self.is_type(e, "Subclassification"@)
        ||| self.is_type(e, "Specialization"@)
        ||| self.is_type(e, "Annotation"@)
        ||| self.is_type(e, "Conjugation"@)
        ||| self.is_type(e, "PortConjugation"@)
        ||| self.is_type(e, "Disjoining"@)
        ||| self.is_type(e, "FeatureInverting"@)
        ||| self.is_type(e, "TypeFeaturing"@)
        ||| self.is_typing(e)
        ||| self.spells_subsetting(e)
        ||| self.is_operation(e)
    }
}

/// An element whose metaclass is none of those that spell ends has none. With
/// a metamodel that knows these as relationships, that is every element that
/// is no relationship.
pub proof fn law_other_elements_have_no_ends(d: DV, e: usize)
    requires
        !d.spells_ends(e),
    ensures
        d.sources(e).len() == 0,
        d.ends_targets(e).len() == 0,
{
    reveal(DV::sources);
    reveal(DV::ends_targets);
    reveal(DV::source_end);
    reveal(DV::target_end);
    reveal(DV::other_source);
    reveal(DV::other_target);
    reveal(DV::lists_ends);
}

} // verus!
