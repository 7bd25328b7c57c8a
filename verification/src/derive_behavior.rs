//! States, transitions, parameters, expressions, requirements and views.
use crate::derive_base::{DV, Derivation, RefV, Reference, opt_ref_ok, opt_ref_view, refs_ok, refs_view};
use crate::derive_lists::{get_head, get_nth, get_nth_ref, head, nth, nth_ref};
use crate::state::{all_below, below};
use vstd::prelude::*;

verus! {

impl DV {
    /// The entry, do or exit action of a state.
    #[verifier::opaque]
    pub open spec fn state_subaction(self, e: usize, kind: Seq<char>) -> Option<usize> {
        match head(self.with_text(self.owned_of_kind(e, "StateSubactionMembership"@), "kind"@, kind)) {
            Some(m) => self.first_child(m),
            None => None,
        }
    }
}

impl Derivation {
    /// The entry, do or exit action of a state.
    pub fn state_subaction(&self, e: usize, kind: &str) -> (r: Option<usize>)
        requires
            self.ok(),
            e < self@.n(),
        ensures
            r == self@.state_subaction(e, kind@),
            below(r, self@.n()),
    {
        proof {
            reveal(DV::state_subaction);
        }
        match get_head(&self.with_text(&self.owned_of_kind(e, "StateSubactionMembership"), "kind", kind)) {
            Some(m) => self.first_child(m),
            None => None,
        }
    }
}

impl DV {
    /// The triggers, guards or effects of a transition.
    #[verifier::opaque]
    pub open spec fn transition_features(
        self,
        e: usize,
        kind: Seq<char>,
        general: Seq<char>,
    ) -> Seq<usize> {
        self.of_kind(
            self.firsts(
                self.with_text(self.owned_of_kind(e, "TransitionFeatureMembership"@), "kind"@, kind),
            ),
            general,
        )
    }
}

impl Derivation {
    /// The triggers, guards or effects of a transition.
    pub fn transition_features(&self, e: usize, kind: &str, general: &str) -> (r: Vec<usize>)
        requires
            self.ok(),
            e < self@.n(),
        ensures
            r@ == self@.transition_features(e, kind@, general@),
            all_below(r@, self@.n()),
    {
        proof {
            reveal(DV::transition_features);
        }
        self.of_kind(
            &self.firsts(
                &self.with_text(&self.owned_of_kind(e, "TransitionFeatureMembership"), "kind", kind),
            ),
            general,
        )
    }
}

impl DV {
    /// The succession of a transition.
    #[verifier::opaque]
    pub open spec fn succession(self, e: usize) -> Option<usize> {
        head(self.of_kind(self.owned_members(e), "Succession"@))
    }
}

impl Derivation {
    /// The succession of a transition.
    pub fn succession(&self, e: usize) -> (r: Option<usize>)
        requires
            self.ok(),
            e < self@.n(),
        ensures
            r == self@.succession(e),
            below(r, self@.n()),
    {
        proof {
            reveal(DV::succession);
        }
        get_head(&self.of_kind(&self.owned_members(e), "Succession"))
    }
}

impl DV {
    /// What a feature's reference subsetting refers to, at the end of its chain.
    #[verifier::opaque]
    pub open spec fn referenced_feature_target(self, e: usize) -> Option<RefV> {
        match self.reference_subsetting(e) {
            Some(s) => self.chain_end(s),
            None => None,
        }
    }
}

impl Derivation {
    /// What a feature's reference subsetting refers to, at the end of its chain.
    pub fn referenced_feature_target(&self, e: usize) -> (r: Option<Reference>)
        requires
            self.ok(),
            e < self@.n(),
        ensures
            opt_ref_view(r) == self@.referenced_feature_target(e),
            opt_ref_ok(opt_ref_view(r), self@.n()),
    {
        proof {
            reveal(DV::referenced_feature_target);
        }
        match self.reference_subsetting(e) {
            Some(s) => self.chain_end(s),
            None => None,
        }
    }
}

impl DV {
    /// What an element refers to as one of a kind, itself where it refers to
    /// nothing.
    #[verifier::opaque]
    pub open spec fn referenced_or_self(self, e: usize, kind: Seq<char>) -> Option<RefV> {
        match self.referenced_feature_target(e) {
            Some(r) => self.cast(r, kind),
            None => Some(RefV::Element(e)),
        }
    }
}

impl Derivation {
    /// What an element refers to as one of a kind, itself where it refers to
    /// nothing.
    pub fn referenced_or_self(&self, e: usize, kind: &str) -> (r: Option<Reference>)
        requires
            self.ok(),
            e < self@.n(),
        ensures
            opt_ref_view(r) == self@.referenced_or_self(e, kind@),
            opt_ref_ok(opt_ref_view(r), self@.n()),
    {
        proof {
            reveal(DV::referenced_or_self);
        }
        match self.referenced_feature_target(e) {
            Some(r) => self.cast(&r, kind),
            None => Some(Reference::Element(e)),
        }
    }
}

impl DV {
    /// The source of a transition that a membership names.
    #[verifier::opaque]
    pub open spec fn source_through(self, m: usize) -> Option<RefV> {
        match self.member_element(m) {
            Some(RefV::Element(f)) => if self.is_kind(f, "Feature"@) {
                self.cast(self.feature_target(f), "ActionUsage"@)
            } else {
                None
            },
            Some(r) => Some(r),
            None => None,
        }
    }
}

impl Derivation {
    /// The source of a transition that a membership names.
    pub fn source_through(&self, m: usize) -> (r: Option<Reference>)
        requires
            self.ok(),
            m < self@.n(),
        ensures
            opt_ref_view(r) == self@.source_through(m),
            opt_ref_ok(opt_ref_view(r), self@.n()),
    {
        proof {
            reveal(DV::source_through);
        }
        match self.member_element(m) {
            Some(Reference::Element(f)) => if self.is_kind(f, "Feature") {
                self.cast(&self.feature_target(f), "ActionUsage")
            } else {
                None
            },
            Some(r) => Some(r),
            None => None,
        }
    }
}

impl DV {
    /// The target of a transition: what the second end of its succession refers
    /// to.
    #[verifier::opaque]
    pub open spec fn transition_target(self, e: usize) -> Option<RefV> {
        match self.succession(e) {
            Some(s) => match nth(self.ends(self.owned_features(s)), 1) {
                Some(end) => match self.referenced_feature_target(end) {
                    Some(r) => self.cast(r, "ActionUsage"@),
                    None => None,
                },
                None => None,
            },
            None => None,
        }
    }
}

impl Derivation {
    /// The target of a transition: what the second end of its succession refers
    /// to.
    pub fn transition_target(&self, e: usize) -> (r: Option<Reference>)
        requires
            self.ok(),
            e < self@.n(),
        ensures
            opt_ref_view(r) == self@.transition_target(e),
            opt_ref_ok(opt_ref_view(r), self@.n()),
    {
        proof {
            reveal(DV::transition_target);
        }
        match self.succession(e) {
            Some(s) => match get_nth(&self.ends(&self.owned_features(s)), 1) {
                Some(end) => match self.referenced_feature_target(end) {
                    Some(r) => self.cast(&r, "ActionUsage"),
                    None => None,
                },
                None => None,
            },
            None => None,
        }
    }
}

impl DV {
    /// Whether a feature is directed inwards: as spelled, or else by the
    /// parameter membership that owns it.
    #[verifier::opaque]
    pub open spec fn is_input(self, f: usize) -> bool {
        if self.has_direction(f) {
            self.text_is(f, "direction"@, "in"@) || self.text_is(f, "direction"@, "inout"@)
        } else {
            self.default_direction(f, "ParameterMembership"@) && !self.default_direction(
                f,
                "ReturnParameterMembership"@,
            )
        }
    }
}

impl Derivation {
    /// Whether a feature is directed inwards: as spelled, or else by the
    /// parameter membership that owns it.
    pub fn is_input(&self, f: usize) -> (r: bool)
        requires
            self.ok(),
            f < self@.n(),
        ensures
            r == self@.is_input(f),
    {
        proof {
            reveal(DV::is_input);
        }
        if self.has_direction(f) {
            self.text_is(f, "direction", "in") || self.text_is(f, "direction", "inout")
        } else {
            self.default_direction(f, "ParameterMembership") && !self.default_direction(
                f,
                "ReturnParameterMembership",
            )
        }
    }
}

impl DV {
    /// Whether a feature is directed outwards.
    #[verifier::opaque]
    pub open spec fn is_output(self, f: usize) -> bool {
        if self.has_direction(f) {
            self.text_is(f, "direction"@, "out"@) || self.text_is(f, "direction"@, "inout"@)
        } else {
            self.default_direction(f, "ReturnParameterMembership"@)
        }
    }
}

impl Derivation {
    /// Whether a feature is directed outwards.
    pub fn is_output(&self, f: usize) -> (r: bool)
        requires
            self.ok(),
            f < self@.n(),
        ensures
            r == self@.is_output(f),
    {
        proof {
            reveal(DV::is_output);
        }
        if self.has_direction(f) {
            self.text_is(f, "direction", "out") || self.text_is(f, "direction", "inout")
        } else {
            self.default_direction(f, "ReturnParameterMembership")
        }
    }
}

impl DV {
    /// Whether a feature is directed at all.
    #[verifier::opaque]
    pub open spec fn is_directed(self, f: usize) -> bool {
        self.has_direction(f) || self.default_direction(f, "ReturnParameterMembership"@) || self.default_direction(
            f,
            "ParameterMembership"@,
        )
    }
}

impl Derivation {
    /// Whether a feature is directed at all.
    pub fn is_directed(&self, f: usize) -> (r: bool)
        requires
            self.ok(),
            f < self@.n(),
        ensures
            r == self@.is_directed(f),
    {
        proof {
            reveal(DV::is_directed);
        }
        self.has_direction(f) || self.default_direction(f, "ReturnParameterMembership") || self.default_direction(
            f,
            "ParameterMembership",
        )
    }
}

impl DV {
    /// Whether a direction is spelled.
    #[verifier::opaque]
    pub open spec fn has_direction(self, f: usize) -> bool {
        match self.text(f, "direction"@) {
            Some(_) => true,
            None => false,
        }
    }
}

impl Derivation {
    /// Whether a direction is spelled.
    pub fn has_direction(&self, f: usize) -> (r: bool)
        requires
            self.ok(),
            f < self@.n(),
        ensures
            r == self@.has_direction(f),
    {
        proof {
            reveal(DV::has_direction);
        }
        match self.text(f, "direction") {
            Some(_) => true,
            None => false,
        }
    }
}

impl DV {
    /// Whether an unspelled direction comes from an owning membership of a kind.
    #[verifier::opaque]
    pub open spec fn default_direction(self, f: usize, kind: Seq<char>) -> bool {
        if self.is_type(f, "TriggerInvocationExpression"@) {
            false
        } else {
            match self.owning(f) {
                Some(m) => self.is_kind(m, kind),
                None => false,
            }
        }
    }
}

impl Derivation {
    /// Whether an unspelled direction comes from an owning membership of a kind.
    pub fn default_direction(&self, f: usize, kind: &str) -> (r: bool)
        requires
            self.ok(),
            f < self@.n(),
        ensures
            r == self@.default_direction(f, kind@),
    {
        proof {
            reveal(DV::default_direction);
        }
        if self.is_type(f, "TriggerInvocationExpression") {
            false
        } else {
            match self.owning(f) {
                Some(m) => self.is_kind(m, kind),
                None => false,
            }
        }
    }
}

impl DV {
    /// The value of a feature.
    #[verifier::opaque]
    pub open spec fn feature_value_of(self, f: usize) -> Option<usize> {
        match head(self.owned_of_kind(f, "FeatureValue"@)) {
            Some(v) => self.first_child(v),
            None => None,
        }
    }
}

impl Derivation {
    /// The value of a feature.
    pub fn feature_value_of(&self, f: usize) -> (r: Option<usize>)
        requires
            self.ok(),
            f < self@.n(),
        ensures
            r == self@.feature_value_of(f),
            below(r, self@.n()),
    {
        proof {
            reveal(DV::feature_value_of);
        }
        match get_head(&self.owned_of_kind(f, "FeatureValue")) {
            Some(v) => self.first_child(v),
            None => None,
        }
    }
}

impl DV {
    /// The first feature a loop owns, where it is a reference.
    #[verifier::opaque]
    pub open spec fn loop_variable(self, e: usize) -> Option<usize> {
        match head(self.owned_features(e)) {
            Some(f) => self.if_kind(f, "ReferenceUsage"@),
            None => None,
        }
    }
}

impl Derivation {
    /// The first feature a loop owns, where it is a reference.
    pub fn loop_variable(&self, e: usize) -> (r: Option<usize>)
        requires
            self.ok(),
            e < self@.n(),
        ensures
            r == self@.loop_variable(e),
            below(r, self@.n()),
    {
        proof {
            reveal(DV::loop_variable);
        }
        match get_head(&self.owned_features(e)) {
            Some(f) => self.if_kind(f, "ReferenceUsage"),
            None => None,
        }
    }
}

impl DV {
    /// The result parameter.
    #[verifier::opaque]
    pub open spec fn result(self, e: usize) -> Option<usize> {
        match head(self.of_kind(self.feature_memberships(e), "ReturnParameterMembership"@)) {
            Some(m) => self.first_child(m),
            None => None,
        }
    }
}

impl Derivation {
    /// The result parameter.
    pub fn result(&self, e: usize) -> (r: Option<usize>)
        requires
            self.ok(),
            e < self@.n(),
        ensures
            r == self@.result(e),
            below(r, self@.n()),
    {
        proof {
            reveal(DV::result);
        }
        match get_head(&self.of_kind(&self.feature_memberships(e), "ReturnParameterMembership")) {
            Some(m) => self.first_child(m),
            None => None,
        }
    }
}

impl DV {
    /// The memberships of an element that are no feature memberships.
    #[verifier::opaque]
    pub open spec fn plain_memberships(self, e: usize) -> Seq<usize> {
        self.not_kind(self.owned_memberships(e), "FeatureMembership"@)
    }
}

impl Derivation {
    /// The memberships of an element that are no feature memberships.
    pub fn plain_memberships(&self, e: usize) -> (r: Vec<usize>)
        requires
            self.ok(),
            e < self@.n(),
        ensures
            r@ == self@.plain_memberships(e),
            all_below(r@, self@.n()),
    {
        proof {
            reveal(DV::plain_memberships);
        }
        self.not_kind(&self.owned_memberships(e), "FeatureMembership")
    }
}

impl DV {
    /// The first member of the plain memberships that can be of a kind.
    #[verifier::opaque]
    pub open spec fn unowned_member(self, e: usize, kind: Seq<char>) -> Option<RefV> {
        nth_ref(self.cast_all(self.member_elements(self.plain_memberships(e)), kind), 0)
    }
}

impl Derivation {
    /// The first member of the plain memberships that can be of a kind.
    pub fn unowned_member(&self, e: usize, kind: &str) -> (r: Option<Reference>)
        requires
            self.ok(),
            e < self@.n(),
        ensures
            opt_ref_view(r) == self@.unowned_member(e, kind@),
            opt_ref_ok(opt_ref_view(r), self@.n()),
    {
        proof {
            reveal(DV::unowned_member);
        }
        get_nth_ref(&self.cast_all(&self.member_elements(&self.plain_memberships(e)), kind), 0)
    }
}

impl DV {
    /// The type an invocation instantiates.
    #[verifier::opaque]
    pub open spec fn instantiated_type(self, e: usize) -> Option<RefV> {
        if self.is_kind(e, "OperatorExpression"@) || self.is_type(e, "TriggerInvocationExpression"@) {
            self.callee_of(e)
        } else {
            self.unowned_member(e, "Type"@)
        }
    }
}

impl Derivation {
    /// The type an invocation instantiates.
    pub fn instantiated_type(&self, e: usize) -> (r: Option<Reference>)
        requires
            self.ok(),
            e < self@.n(),
        ensures
            opt_ref_view(r) == self@.instantiated_type(e),
            opt_ref_ok(opt_ref_view(r), self@.n()),
    {
        proof {
            reveal(DV::instantiated_type);
        }
        if self.is_kind(e, "OperatorExpression") || self.is_type(e, "TriggerInvocationExpression") {
            self.callee_of(e)
        } else {
            self.unowned_member(e, "Type")
        }
    }
}

impl DV {
    /// The feature that a feature reference refers to.
    #[verifier::opaque]
    pub open spec fn referent(self, e: usize) -> Option<RefV> {
        match head(self.not_kind(self.owned_memberships(e), "ParameterMembership"@)) {
            Some(m) => match self.member_element(m) {
                Some(r) => self.cast(r, "Feature"@),
                None => None,
            },
            None => None,
        }
    }
}

impl Derivation {
    /// The feature that a feature reference refers to.
    pub fn referent(&self, e: usize) -> (r: Option<Reference>)
        requires
            self.ok(),
            e < self@.n(),
        ensures
            opt_ref_view(r) == self@.referent(e),
            opt_ref_ok(opt_ref_view(r), self@.n()),
    {
        proof {
            reveal(DV::referent);
        }
        match get_head(&self.not_kind(&self.owned_memberships(e), "ParameterMembership")) {
            Some(m) => match self.member_element(m) {
                Some(r) => self.cast(&r, "Feature"),
                None => None,
            },
            None => None,
        }
    }
}

impl DV {
    /// The expressions of a function.
    #[verifier::opaque]
    pub open spec fn function_expressions(self, e: usize) -> Seq<usize> {
        self.of_kind(self.features(e), "Expression"@)
    }
}

impl Derivation {
    /// The expressions of a function.
    pub fn function_expressions(&self, e: usize) -> (r: Vec<usize>)
        requires
            self.ok(),
            e < self@.n(),
        ensures
            r@ == self@.function_expressions(e),
            all_below(r@, self@.n()),
    {
        proof {
            reveal(DV::function_expressions);
        }
        self.of_kind(&self.features(e), "Expression")
    }
}

impl DV {
    /// The bounds of a multiplicity range.
    #[verifier::opaque]
    pub open spec fn bounds(self, e: usize) -> Seq<usize> {
        self.of_kind(self.owned_members(e), "Expression"@)
    }
}

impl Derivation {
    /// The bounds of a multiplicity range.
    pub fn bounds(&self, e: usize) -> (r: Vec<usize>)
        requires
            self.ok(),
            e < self@.n(),
        ensures
            r@ == self@.bounds(e),
            all_below(r@, self@.n()),
    {
        proof {
            reveal(DV::bounds);
        }
        self.of_kind(&self.owned_members(e), "Expression")
    }
}

impl DV {
    /// The conditions of a filter.
    #[verifier::opaque]
    pub open spec fn filter_conditions(self, e: usize) -> Seq<usize> {
        self.firsts(self.owned_of_kind(e, "ElementFilterMembership"@))
    }
}

impl Derivation {
    /// The conditions of a filter.
    pub fn filter_conditions(&self, e: usize) -> (r: Vec<usize>)
        requires
            self.ok(),
            e < self@.n(),
        ensures
            r@ == self@.filter_conditions(e),
            all_below(r@, self@.n()),
    {
        proof {
            reveal(DV::filter_conditions);
        }
        self.firsts(&self.owned_of_kind(e, "ElementFilterMembership"))
    }
}

impl DV {
    /// The payload of a flow.
    #[verifier::opaque]
    pub open spec fn payload_feature(self, e: usize) -> Option<usize> {
        head(self.of_kind(self.owned_features(e), "PayloadFeature"@))
    }
}

impl Derivation {
    /// The payload of a flow.
    pub fn payload_feature(&self, e: usize) -> (r: Option<usize>)
        requires
            self.ok(),
            e < self@.n(),
        ensures
            r == self@.payload_feature(e),
            below(r, self@.n()),
    {
        proof {
            reveal(DV::payload_feature);
        }
        get_head(&self.of_kind(&self.owned_features(e), "PayloadFeature"))
    }
}

impl DV {
    /// The conjugated definition of a port definition, or of a conjugation.
    #[verifier::opaque]
    pub open spec fn conjugated_port_definition(self, e: usize) -> Option<usize> {
        if self.is_kind(e, "PortConjugation"@) {
            match self.owning_type_any(e) {
                Some(o) => self.if_kind(o, "ConjugatedPortDefinition"@),
                None => None,
            }
        } else {
            head(self.of_kind(self.owned_members(e), "ConjugatedPortDefinition"@))
        }
    }
}

impl Derivation {
    /// The conjugated definition of a port definition, or of a conjugation.
    pub fn conjugated_port_definition(&self, e: usize) -> (r: Option<usize>)
        requires
            self.ok(),
            e < self@.n(),
        ensures
            r == self@.conjugated_port_definition(e),
            below(r, self@.n()),
    {
        proof {
            reveal(DV::conjugated_port_definition);
        }
        if self.is_kind(e, "PortConjugation") {
            match self.owning_type_any(e) {
                Some(o) => self.if_kind(o, "ConjugatedPortDefinition"),
                None => None,
            }
        } else {
            get_head(&self.of_kind(&self.owned_members(e), "ConjugatedPortDefinition"))
        }
    }
}

impl DV {
    /// The members owned through feature memberships of a kind.
    #[verifier::opaque]
    pub open spec fn members_via(self, e: usize, kind: Seq<char>) -> Seq<usize> {
        self.firsts(self.of_kind(self.feature_memberships(e), kind))
    }
}

impl Derivation {
    /// The members owned through feature memberships of a kind.
    pub fn members_via(&self, e: usize, kind: &str) -> (r: Vec<usize>)
        requires
            self.ok(),
            e < self@.n(),
        ensures
            r@ == self@.members_via(e, kind@),
            all_below(r@, self@.n()),
    {
        proof {
            reveal(DV::members_via);
        }
        self.firsts(&self.of_kind(&self.feature_memberships(e), kind))
    }
}

impl DV {
    /// The first member owned through a feature membership of a kind.
    #[verifier::opaque]
    pub open spec fn member_via(self, e: usize, kind: Seq<char>) -> Option<usize> {
        head(self.members_via(e, kind))
    }
}

impl Derivation {
    /// The first member owned through a feature membership of a kind.
    pub fn member_via(&self, e: usize, kind: &str) -> (r: Option<usize>)
        requires
            self.ok(),
            e < self@.n(),
        ensures
            r == self@.member_via(e, kind@),
            below(r, self@.n()),
    {
        proof {
            reveal(DV::member_via);
        }
        get_head(&self.members_via(e, kind))
    }
}

impl DV {
    /// The constraints of a requirement that are required, or assumed.
    #[verifier::opaque]
    pub open spec fn requirement_constraints(self, e: usize, kind: Seq<char>) -> Seq<usize> {
        self.firsts(
            self.with_text(self.owned_of_kind(e, "RequirementConstraintMembership"@), "kind"@, kind),
        )
    }
}

impl Derivation {
    /// The constraints of a requirement that are required, or assumed.
    pub fn requirement_constraints(&self, e: usize, kind: &str) -> (r: Vec<usize>)
        requires
            self.ok(),
            e < self@.n(),
        ensures
            r@ == self@.requirement_constraints(e, kind@),
            all_below(r@, self@.n()),
    {
        proof {
            reveal(DV::requirement_constraints);
        }
        self.firsts(
            &self.with_text(&self.owned_of_kind(e, "RequirementConstraintMembership"), "kind", kind),
        )
    }
}

impl DV {
    /// What the member of a membership refers to, or the member.
    #[verifier::opaque]
    pub open spec fn referenced_member(self, m: usize, kind: Seq<char>) -> Option<RefV> {
        match self.first_child(m) {
            Some(k) => self.referenced_or_self(k, kind),
            None => None,
        }
    }
}

impl Derivation {
    /// What the member of a membership refers to, or the member.
    pub fn referenced_member(&self, m: usize, kind: &str) -> (r: Option<Reference>)
        requires
            self.ok(),
            m < self@.n(),
        ensures
            opt_ref_view(r) == self@.referenced_member(m, kind@),
            opt_ref_ok(opt_ref_view(r), self@.n()),
    {
        proof {
            reveal(DV::referenced_member);
        }
        match self.first_child(m) {
            Some(k) => self.referenced_or_self(k, kind),
            None => None,
        }
    }
}

impl DV {
    /// The feature bound to the subject of a satisfaction.
    #[verifier::opaque]
    pub open spec fn satisfying_feature(self, e: usize) -> Option<RefV> {
        match self.member_via(e, "SubjectMembership"@) {
            Some(s) => match self.feature_value_of(s) {
                Some(v) => if self.is_kind(v, "FeatureReferenceExpression"@) {
                    match self.referent(v) {
                        Some(RefV::Element(f)) => Some(self.feature_target(f)),
                        Some(r) => Some(r),
                        None => None,
                    }
                } else {
                    None
                },
                None => None,
            },
            None => None,
        }
    }
}

impl Derivation {
    /// The feature bound to the subject of a satisfaction.
    pub fn satisfying_feature(&self, e: usize) -> (r: Option<Reference>)
        requires
            self.ok(),
            e < self@.n(),
        ensures
            opt_ref_view(r) == self@.satisfying_feature(e),
            opt_ref_ok(opt_ref_view(r), self@.n()),
    {
        proof {
            reveal(DV::satisfying_feature);
        }
        match self.member_via(e, "SubjectMembership") {
            Some(s) => match self.feature_value_of(s) {
                Some(v) => if self.is_kind(v, "FeatureReferenceExpression") {
                    match self.referent(v) {
                        Some(Reference::Element(f)) => Some(self.feature_target(f)),
                        Some(r) => Some(r),
                        None => None,
                    }
                } else {
                    None
                },
                None => None,
            },
            None => None,
        }
    }
}

impl DV {
    /// The rendering of a view.
    #[verifier::opaque]
    pub open spec fn rendering_of(self, e: usize) -> Option<RefV> {
        match head(self.of_kind(self.feature_memberships(e), "ViewRenderingMembership"@)) {
            Some(m) => self.referenced_member(m, "RenderingUsage"@),
            None => None,
        }
    }
}

impl Derivation {
    /// The rendering of a view.
    pub fn rendering_of(&self, e: usize) -> (r: Option<Reference>)
        requires
            self.ok(),
            e < self@.n(),
        ensures
            opt_ref_view(r) == self@.rendering_of(e),
            opt_ref_ok(opt_ref_view(r), self@.n()),
    {
        proof {
            reveal(DV::rendering_of);
        }
        match get_head(&self.of_kind(&self.feature_memberships(e), "ViewRenderingMembership")) {
            Some(m) => self.referenced_member(m, "RenderingUsage"),
            None => None,
        }
    }
}

impl DV {
    /// The viewpoints a view satisfies.
    #[verifier::opaque]
    pub open spec fn satisfied_viewpoints(self, e: usize) -> Seq<usize> {
        self.flagged(self.of_kind(self.owned_features(e), "ViewpointUsage"@), "isComposite"@)
    }
}

impl Derivation {
    /// The viewpoints a view satisfies.
    pub fn satisfied_viewpoints(&self, e: usize) -> (r: Vec<usize>)
        requires
            self.ok(),
            e < self@.n(),
        ensures
            r@ == self@.satisfied_viewpoints(e),
            all_below(r@, self@.n()),
    {
        proof {
            reveal(DV::satisfied_viewpoints);
        }
        self.flagged(&self.of_kind(&self.owned_features(e), "ViewpointUsage"), "isComposite")
    }
}

impl DV {
    /// The targets of a type operation.
    #[verifier::opaque]
    pub open spec fn operation_types(self, e: usize, kind: Seq<char>, key: Seq<char>) -> Seq<RefV> {
        self.links(self.owned_of_kind(e, kind), key)
    }
}

impl Derivation {
    /// The targets of a type operation.
    pub fn operation_types(&self, e: usize, kind: &str, key: &str) -> (r: Vec<Reference>)
        requires
            self.ok(),
            e < self@.n(),
        ensures
            refs_view(r@) == self@.operation_types(e, kind@, key@),
            refs_ok(refs_view(r@), self@.n()),
    {
        proof {
            reveal(DV::operation_types);
        }
        self.links(&self.owned_of_kind(e, kind), key)
    }
}

impl DV {
    /// The first feature owned by one of the ends of a flow.
    #[verifier::opaque]
    pub open spec fn flow_end_feature(self, e: usize, position: usize) -> Option<usize> {
        match nth(self.of_type(self.ends(self.features(e)), "FlowEnd"@), position as int) {
            Some(end) => head(self.owned_features(end)),
            None => None,
        }
    }
}

impl Derivation {
    /// The first feature owned by one of the ends of a flow.
    pub fn flow_end_feature(&self, e: usize, position: usize) -> (r: Option<usize>)
        requires
            self.ok(),
            e < self@.n(),
        ensures
            r == self@.flow_end_feature(e, position),
            below(r, self@.n()),
    {
        proof {
            reveal(DV::flow_end_feature);
        }
        match get_nth(&self.of_type(&self.ends(&self.features(e)), "FlowEnd"), position) {
            Some(end) => get_head(&self.owned_features(end)),
            None => None,
        }
    }
}

} // verus!
