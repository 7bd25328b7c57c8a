//! The names of elements: declared, or taken from the feature that names an
//! unnamed one.
use crate::derive_base::{Derivation, RefV, Reference, DV};
use crate::derive_lists::{get_head, get_last, get_nth, head, last, nth};
use crate::graph_get::{link_prop, opt_text};
use crate::libcache::texts;
use crate::props::{Link, LinkV};
use crate::refname::{push_escaped, push_text, escaped};
use crate::state::{all_below, below};
use vstd::prelude::*;

verus! {

impl DV {
    /// Whether an element declares a name or a short name.
    #[verifier::opaque]
    pub open spec fn declares_a_name(self, e: usize) -> bool {
        match self.text(e, "declaredName"@) {
            Some(_) => true,
            None => match self.text(e, "declaredShortName"@) {
                Some(_) => true,
                None => false,
            },
        }
    }
}

impl Derivation {
    /// Whether an element declares a name or a short name.
    pub fn declares_a_name(&self, e: usize) -> (r: bool)
        requires
            self.ok(),
            e < self@.n(),
        ensures
            r == self@.declares_a_name(e),
    {
        proof {
            reveal(DV::declares_a_name);
        }
        match self.text(e, "declaredName") {
            Some(_) => true,
            None => match self.text(e, "declaredShortName") {
                Some(_) => true,
                None => false,
            },
        }
    }
}

impl DV {
    /// A reference subsetting that names a feature.
    #[verifier::opaque]
    pub open spec fn if_referencing(self, x: usize) -> Option<usize> {
        match self.link(x, "referencedFeature"@) {
            Some(_) => Some(x),
            None => None,
        }
    }
}

impl Derivation {
    /// A reference subsetting that names a feature.
    pub fn if_referencing(&self, x: usize) -> (r: Option<usize>)
        requires
            self.ok(),
            x < self@.n(),
        ensures
            r == self@.if_referencing(x),
            below(r, self@.n()),
    {
        proof {
            reveal(DV::if_referencing);
        }
        match self.link(x, "referencedFeature") {
            Some(_) => Some(x),
            None => None,
        }
    }
}

impl DV {
    /// Whether an element is a parameter by reference.
    #[verifier::opaque]
    pub open spec fn is_plain_reference(self, k: usize) -> bool {
        self.is_type(k, "ReferenceUsage"@) || self.is_type(k, "Feature"@)
    }
}

impl Derivation {
    /// Whether an element is a parameter by reference.
    pub fn is_plain_reference(&self, k: usize) -> (r: bool)
        requires
            self.ok(),
            k < self@.n(),
        ensures
            r == self@.is_plain_reference(k),
    {
        proof {
            reveal(DV::is_plain_reference);
        }
        self.is_type(k, "ReferenceUsage") || self.is_type(k, "Feature")
    }
}

impl DV {
    /// A parameter membership of a reference.
    #[verifier::opaque]
    pub open spec fn if_reference_parameter(self, x: usize) -> Option<usize> {
        if self.is_type(x, "ParameterMembership"@) {
            match self.first_child(x) {
                Some(k) => if self.is_plain_reference(k) {
                    Some(x)
                } else {
                    None
                },
                None => None,
            }
        } else {
            None
        }
    }
}

impl Derivation {
    /// A parameter membership of a reference.
    pub fn if_reference_parameter(&self, x: usize) -> (r: Option<usize>)
        requires
            self.ok(),
            x < self@.n(),
        ensures
            r == self@.if_reference_parameter(x),
            below(r, self@.n()),
    {
        proof {
            reveal(DV::if_reference_parameter);
        }
        if self.is_type(x, "ParameterMembership") {
            match self.first_child(x) {
                Some(k) => if self.is_plain_reference(k) {
                    Some(x)
                } else {
                    None
                },
                None => None,
            }
        } else {
            None
        }
    }
}

impl DV {
    /// A membership that names a callee.
    #[verifier::opaque]
    pub open spec fn if_callee_membership(self, x: usize) -> Option<usize> {
        if self.is_type(x, "Membership"@) || self.is_type(x, "OwningMembership"@) {
            Some(x)
        } else {
            None
        }
    }
}

impl Derivation {
    /// A membership that names a callee.
    pub fn if_callee_membership(&self, x: usize) -> (r: Option<usize>)
        requires
            self.ok(),
            x < self@.n(),
        ensures
            r == self@.if_callee_membership(x),
            below(r, self@.n()),
    {
        proof {
            reveal(DV::if_callee_membership);
        }
        if self.is_type(x, "Membership") || self.is_type(x, "OwningMembership") {
            Some(x)
        } else {
            None
        }
    }
}

impl DV {
    /// A feature spelled as an input.
    #[verifier::opaque]
    pub open spec fn if_spelled_input(self, k: usize) -> Option<usize> {
        if self.text_is(k, "direction"@, "in"@) || self.text_is(k, "direction"@, "inout"@) {
            Some(k)
        } else {
            None
        }
    }
}

impl Derivation {
    /// A feature spelled as an input.
    pub fn if_spelled_input(&self, k: usize) -> (r: Option<usize>)
        requires
            self.ok(),
            k < self@.n(),
        ensures
            r == self@.if_spelled_input(k),
            below(r, self@.n()),
    {
        proof {
            reveal(DV::if_spelled_input);
        }
        if self.text_is(k, "direction", "in") || self.text_is(k, "direction", "inout") {
            Some(k)
        } else {
            None
        }
    }
}

impl DV {
    /// Whether the two ends of a connector are named after what comes earlier
    /// and what comes later.
    #[verifier::opaque]
    pub open spec fn orders_ends(self, o: usize) -> bool {
        self.is_type(o, "SuccessionAsUsage"@) || self.is_type(o, "Succession"@) || self.is_type(
            o,
            "TransitionUsage"@,
        )
    }
}

impl Derivation {
    /// Whether the two ends of a connector are named after what comes earlier
    /// and what comes later.
    pub fn orders_ends(&self, o: usize) -> (r: bool)
        requires
            self.ok(),
            o < self@.n(),
        ensures
            r == self@.orders_ends(o),
    {
        proof {
            reveal(DV::orders_ends);
        }
        self.is_type(o, "SuccessionAsUsage") || self.is_type(o, "Succession") || self.is_type(
            o,
            "TransitionUsage",
        )
    }
}

impl DV {
    /// Whether the two ends of a connector are named as the same thing.
    #[verifier::opaque]
    pub open spec fn binds_ends(self, o: usize) -> bool {
        self.is_type(o, "BindingConnectorAsUsage"@) || self.is_type(o, "BindingConnector"@)
    }
}

impl Derivation {
    /// Whether the two ends of a connector are named as the same thing.
    pub fn binds_ends(&self, o: usize) -> (r: bool)
        requires
            self.ok(),
            o < self@.n(),
        ensures
            r == self@.binds_ends(o),
    {
        proof {
            reveal(DV::binds_ends);
        }
        self.is_type(o, "BindingConnectorAsUsage") || self.is_type(o, "BindingConnector")
    }
}

impl DV {
    /// Whether the two ends of a connector are its source and target.
    #[verifier::opaque]
    pub open spec fn directs_ends(self, o: usize) -> bool {
        self.is_type(o, "ConnectionUsage"@) || self.is_type(o, "AllocationUsage"@) || self.is_type(
            o,
            "InterfaceUsage"@,
        ) || self.is_type(o, "Connector"@) || self.is_type(o, "FlowUsage"@) || self.is_type(
            o,
            "SuccessionFlowUsage"@,
        ) || self.is_type(o, "Flow"@) || self.is_type(o, "SuccessionFlow"@)
    }
}

impl Derivation {
    /// Whether the two ends of a connector are its source and target.
    pub fn directs_ends(&self, o: usize) -> (r: bool)
        requires
            self.ok(),
            o < self@.n(),
        ensures
            r == self@.directs_ends(o),
    {
        proof {
            reveal(DV::directs_ends);
        }
        self.is_type(o, "ConnectionUsage") || self.is_type(o, "AllocationUsage") || self.is_type(
            o,
            "InterfaceUsage",
        ) || self.is_type(o, "Connector") || self.is_type(o, "FlowUsage") || self.is_type(
            o,
            "SuccessionFlowUsage",
        ) || self.is_type(o, "Flow") || self.is_type(o, "SuccessionFlow")
    }
}

impl DV {
    /// The reference subsettings that name a feature.
    pub open spec fn referencing_from(self, s: Seq<usize>, k: int) -> Seq<usize>
        decreases s.len() - k,
        when 0 <= k
    {
        if k >= s.len() {
            Seq::empty()
        } else {
            match self.if_referencing(s[k]) {
                Some(y) => seq![y] + self.referencing_from(s, k + 1),
                None => self.referencing_from(s, k + 1),
            }
        }
    }

    #[verifier::opaque]
    pub open spec fn referencing(self, s: Seq<usize>) -> Seq<usize> {
        self.referencing_from(s, 0)
    }
}

impl Derivation {
    /// The reference subsettings that name a feature.
    pub fn referencing(&self, list: &Vec<usize>) -> (r: Vec<usize>)
        requires
            self.ok(),
            all_below(list@, self@.n()),
        ensures
            r@ == self@.referencing(list@),
            all_below(r@, self@.n()),
    {
        proof {
            reveal(DV::referencing);
        }
        let mut out: Vec<usize> = Vec::new();
        let n: usize = list.len();
        let mut k: usize = 0;
        let ghost whole = self@.referencing_from(list@, 0);
        assert(out@ + whole =~= whole);
        while k < n
            invariant
                self.ok(),
                all_below(list@, self@.n()),
                n == list@.len(),
                k <= n,
                all_below(out@, self@.n()),
                out@ + self@.referencing_from(list@, k as int) == whole,
            decreases n - k,
        {
            let x: usize = list[k];
            let ghost before = out@;
            let ghost rest = self@.referencing_from(list@, k + 1);
            if let Some(y) = self.if_referencing(x) {
                let ghost yv = y;
                out.push(y);
                assert(out@ =~= before.push(yv));
                assert(before + (seq![yv] + rest) =~= out@ + rest);
            }
            k += 1;
        }
        assert(out@ + Seq::<usize>::empty() =~= out@);
        out
    }
}

impl DV {
    /// The parameter memberships of references.
    pub open spec fn reference_parameters_from(self, s: Seq<usize>, k: int) -> Seq<usize>
        decreases s.len() - k,
        when 0 <= k
    {
        if k >= s.len() {
            Seq::empty()
        } else {
            match self.if_reference_parameter(s[k]) {
                Some(y) => seq![y] + self.reference_parameters_from(s, k + 1),
                None => self.reference_parameters_from(s, k + 1),
            }
        }
    }

    #[verifier::opaque]
    pub open spec fn reference_parameters(self, s: Seq<usize>) -> Seq<usize> {
        self.reference_parameters_from(s, 0)
    }
}

impl Derivation {
    /// The parameter memberships of references.
    pub fn reference_parameters(&self, list: &Vec<usize>) -> (r: Vec<usize>)
        requires
            self.ok(),
            all_below(list@, self@.n()),
        ensures
            r@ == self@.reference_parameters(list@),
            all_below(r@, self@.n()),
    {
        proof {
            reveal(DV::reference_parameters);
        }
        let mut out: Vec<usize> = Vec::new();
        let n: usize = list.len();
        let mut k: usize = 0;
        let ghost whole = self@.reference_parameters_from(list@, 0);
        assert(out@ + whole =~= whole);
        while k < n
            invariant
                self.ok(),
                all_below(list@, self@.n()),
                n == list@.len(),
                k <= n,
                all_below(out@, self@.n()),
                out@ + self@.reference_parameters_from(list@, k as int) == whole,
            decreases n - k,
        {
            let x: usize = list[k];
            let ghost before = out@;
            let ghost rest = self@.reference_parameters_from(list@, k + 1);
            if let Some(y) = self.if_reference_parameter(x) {
                let ghost yv = y;
                out.push(y);
                assert(out@ =~= before.push(yv));
                assert(before + (seq![yv] + rest) =~= out@ + rest);
            }
            k += 1;
        }
        assert(out@ + Seq::<usize>::empty() =~= out@);
        out
    }
}

impl DV {
    /// The memberships that can name a callee.
    pub open spec fn callee_memberships_from(self, s: Seq<usize>, k: int) -> Seq<usize>
        decreases s.len() - k,
        when 0 <= k
    {
        if k >= s.len() {
            Seq::empty()
        } else {
            match self.if_callee_membership(s[k]) {
                Some(y) => seq![y] + self.callee_memberships_from(s, k + 1),
                None => self.callee_memberships_from(s, k + 1),
            }
        }
    }

    #[verifier::opaque]
    pub open spec fn callee_memberships(self, s: Seq<usize>) -> Seq<usize> {
        self.callee_memberships_from(s, 0)
    }
}

impl Derivation {
    /// The memberships that can name a callee.
    pub fn callee_memberships(&self, list: &Vec<usize>) -> (r: Vec<usize>)
        requires
            self.ok(),
            all_below(list@, self@.n()),
        ensures
            r@ == self@.callee_memberships(list@),
            all_below(r@, self@.n()),
    {
        proof {
            reveal(DV::callee_memberships);
        }
        let mut out: Vec<usize> = Vec::new();
        let n: usize = list.len();
        let mut k: usize = 0;
        let ghost whole = self@.callee_memberships_from(list@, 0);
        assert(out@ + whole =~= whole);
        while k < n
            invariant
                self.ok(),
                all_below(list@, self@.n()),
                n == list@.len(),
                k <= n,
                all_below(out@, self@.n()),
                out@ + self@.callee_memberships_from(list@, k as int) == whole,
            decreases n - k,
        {
            let x: usize = list[k];
            let ghost before = out@;
            let ghost rest = self@.callee_memberships_from(list@, k + 1);
            if let Some(y) = self.if_callee_membership(x) {
                let ghost yv = y;
                out.push(y);
                assert(out@ =~= before.push(yv));
                assert(before + (seq![yv] + rest) =~= out@ + rest);
            }
            k += 1;
        }
        assert(out@ + Seq::<usize>::empty() =~= out@);
        out
    }
}

impl DV {
    /// The features spelled as inputs.
    pub open spec fn spelled_inputs_from(self, s: Seq<usize>, k: int) -> Seq<usize>
        decreases s.len() - k,
        when 0 <= k
    {
        if k >= s.len() {
            Seq::empty()
        } else {
            match self.if_spelled_input(s[k]) {
                Some(y) => seq![y] + self.spelled_inputs_from(s, k + 1),
                None => self.spelled_inputs_from(s, k + 1),
            }
        }
    }

    #[verifier::opaque]
    pub open spec fn spelled_inputs(self, s: Seq<usize>) -> Seq<usize> {
        self.spelled_inputs_from(s, 0)
    }
}

impl Derivation {
    /// The features spelled as inputs.
    pub fn spelled_inputs(&self, list: &Vec<usize>) -> (r: Vec<usize>)
        requires
            self.ok(),
            all_below(list@, self@.n()),
        ensures
            r@ == self@.spelled_inputs(list@),
            all_below(r@, self@.n()),
    {
        proof {
            reveal(DV::spelled_inputs);
        }
        let mut out: Vec<usize> = Vec::new();
        let n: usize = list.len();
        let mut k: usize = 0;
        let ghost whole = self@.spelled_inputs_from(list@, 0);
        assert(out@ + whole =~= whole);
        while k < n
            invariant
                self.ok(),
                all_below(list@, self@.n()),
                n == list@.len(),
                k <= n,
                all_below(out@, self@.n()),
                out@ + self@.spelled_inputs_from(list@, k as int) == whole,
            decreases n - k,
        {
            let x: usize = list[k];
            let ghost before = out@;
            let ghost rest = self@.spelled_inputs_from(list@, k + 1);
            if let Some(y) = self.if_spelled_input(x) {
                let ghost yv = y;
                out.push(y);
                assert(out@ =~= before.push(yv));
                assert(before + (seq![yv] + rest) =~= out@ + rest);
            }
            k += 1;
        }
        assert(out@ + Seq::<usize>::empty() =~= out@);
        out
    }
}

/// The feature that names an unnamed one: a feature of the model, one
/// outside it by its name, or a position with a fixed name.
pub enum Naming {
    Feature(usize),
    Named(String),
}

pub enum NamingV {
    Feature(usize),
    Named(Seq<char>),
}

impl Naming {
    pub open spec fn view(&self) -> NamingV {
        match self {
            Naming::Feature(t) => NamingV::Feature(*t),
            Naming::Named(s) => NamingV::Named(s@),
        }
    }
}

pub open spec fn opt_naming(o: Option<Naming>) -> Option<NamingV> {
    match o {
        Some(x) => Some(x@),
        None => None,
    }
}

pub open spec fn naming_ok(o: Option<NamingV>, n: nat) -> bool {
    match o {
        Some(NamingV::Feature(t)) => t < n,
        _ => true,
    }
}

pub open spec fn position(s: Seq<usize>, x: usize, k: int) -> Option<int>
    decreases s.len() - k,
    when 0 <= k
{
    if k >= s.len() {
        None
    } else if s[k] == x {
        Some(k)
    } else {
        position(s, x, k + 1)
    }
}

fn position_of(s: &Vec<usize>, x: usize) -> (r: Option<usize>)
    ensures
        position(s@, x, 0) == (match r {
            Some(k) => Some(k as int),
            None => None,
        }),
        r is Some ==> r->0 < s@.len(),
{
    let n: usize = s.len();
    let mut k: usize = 0;
    while k < n
        invariant
            n == s@.len(),
            k <= n,
            position(s@, x, 0) == position(s@, x, k as int),
        decreases n - k,
    {
        if s[k] == x {
            return Some(k);
        }
        k += 1;
    }
    None
}

fn named(s: &str) -> (r: Option<String>)
    ensures
        opt_text(r) == Some(s@),
{
    Some(s.to_owned())
}

impl DV {
    /// What a relationship's target gives as a naming feature.
    #[verifier::opaque]
    pub open spec fn naming_at(self, r: usize, key: Seq<char>) -> Option<NamingV> {
        match link_prop(self.g.elements[r as int].props, key) {
            Some(LinkV::Id(id)) => match self.by_id(id) {
                RefV::Element(t) => Some(NamingV::Feature(t)),
                _ => match self.external_name(id) {
                    Some(s) => Some(NamingV::Named(s)),
                    None => None,
                },
            },
            _ => None,
        }
    }

    /// The first of the redefinitions from `k` on that names a feature.
    pub open spec fn redefinition_naming(self, s: Seq<usize>, k: int) -> Option<NamingV>
        decreases s.len() - k,
        when 0 <= k
    {
        if k >= s.len() {
            None
        } else {
            match self.naming_at(s[k], "redefinedFeature"@) {
                Some(x) => Some(x),
                None => self.redefinition_naming(s, k + 1),
            }
        }
    }

    /// The name of an argument after the callee's input at its position.
    #[verifier::opaque]
    pub open spec fn callee_input_name(self, o: usize, rel: usize) -> Option<Seq<char>> {
        match head(self.callee_memberships(self.owned(o))) {
            Some(m) => match self.target(m, "memberElement"@) {
                Some(callee) => match position(
                    self.of_type(self.owned(o), "ParameterMembership"@),
                    rel,
                    0,
                ) {
                    Some(k) => match nth(self.spelled_inputs(self.firsts(self.owned(callee))), k) {
                        Some(p) => self.text(p, "declaredName"@),
                        None => None,
                    },
                    None => None,
                },
                None => None,
            },
            None => None,
        }
    }

    /// The name of an accept action's reference parameter.
    #[verifier::opaque]
    pub open spec fn accept_parameter_name(self, o: usize, rel: usize) -> Option<Seq<char>> {
        match position(self.reference_parameters(self.owned(o)), rel, 0) {
            Some(k) => if k == 0 {
                Some("payload"@)
            } else if k == 1 {
                Some("receiver"@)
            } else {
                None
            },
            None => None,
        }
    }

    /// The positional name of an invocation's argument. One that redefines a
    /// parameter keeps that name.
    #[verifier::opaque]
    pub open spec fn invocation_arg_name(self, e: usize, rel: usize) -> Option<Seq<char>> {
        if head(self.of_type(self.owned(e), "Redefinition"@)) is Some {
            None
        } else {
            match self.carrier(rel) {
                Some(o) => if self.is_type(o, "AcceptActionUsage"@) {
                    self.accept_parameter_name(o, rel)
                } else if self.is_type(o, "InvocationExpression"@) || self.is_type(
                    o,
                    "ConstructorExpression"@,
                ) {
                    self.callee_input_name(o, rel)
                } else {
                    None
                },
                None => None,
            }
        }
    }

    /// The name of a connector's first end, or of its second.
    #[verifier::opaque]
    pub open spec fn end_role(self, o: usize, second: bool) -> Option<Seq<char>> {
        if self.orders_ends(o) {
            Some(if second { "laterOccurrence"@ } else { "earlierOccurrence"@ })
        } else if self.binds_ends(o) {
            Some(if second { "sameThing"@ } else { "thisThing"@ })
        } else if self.directs_ends(o) {
            Some(if second { "target"@ } else { "source"@ })
        } else {
            None
        }
    }

    /// The name of one of the two ends of a binary connector.
    #[verifier::opaque]
    pub open spec fn end_name(self, rel: usize) -> Option<Seq<char>> {
        match self.carrier(rel) {
            Some(o) => {
                let ends = self.of_type(self.owned(o), "EndFeatureMembership"@);
                if ends.len() != 2 {
                    None
                } else {
                    match position(ends, rel, 0) {
                        Some(k) => self.end_role(o, k == 1),
                        None => None,
                    }
                }
            },
            None => None,
        }
    }

    /// The fixed name of a member of some memberships.
    #[verifier::opaque]
    pub open spec fn fixed_name(self, rel: usize) -> Option<Seq<char>> {
        if self.is_type(rel, "ReturnParameterMembership"@) {
            Some("result"@)
        } else if self.is_type(rel, "SubjectMembership"@) {
            Some("subj"@)
        } else if self.is_type(rel, "ObjectiveMembership"@) {
            Some("obj"@)
        } else if self.is_type(rel, "ViewRenderingMembership"@) {
            Some("viewRendering"@)
        } else {
            None
        }
    }

    /// The name that a member takes from the library feature it implicitly
    /// redefines.
    #[verifier::opaque]
    pub open spec fn implied_member_name(self, e: usize) -> Option<Seq<char>> {
        match self.owning(e) {
            Some(rel) => if self.is_type(e, "PayloadFeature"@) {
                Some("payload"@)
            } else if self.is_type(e, "AcceptActionUsage"@) && self.is_type(
                rel,
                "TransitionFeatureMembership"@,
            ) {
                Some("accepter"@)
            } else {
                match self.fixed_name(rel) {
                    Some(s) => Some(s),
                    None => if self.is_type(rel, "ParameterMembership"@) {
                        self.invocation_arg_name(e, rel)
                    } else if self.is_type(rel, "EndFeatureMembership"@) {
                        self.end_name(rel)
                    } else {
                        None
                    },
                }
            },
            None => None,
        }
    }

    /// Whether an element is an actor or stakeholder, whose reference gives
    /// no name.
    #[verifier::opaque]
    pub open spec fn is_party(self, e: usize) -> bool {
        match self.owning(e) {
            Some(r) => self.is_type(r, "ActorMembership"@) || self.is_type(r, "StakeholderMembership"@),
            None => false,
        }
    }

    /// The naming feature through a reference, or else through the last link
    /// of a chain.
    #[verifier::opaque]
    pub open spec fn reference_naming(self, e: usize) -> Option<NamingV> {
        let by_reference = match head(self.referencing(self.of_type(self.owned(e), "ReferenceSubsetting"@))) {
            Some(r) => self.naming_at(r, "referencedFeature"@),
            None => None,
        };
        match by_reference {
            Some(x) => Some(x),
            None => match last(self.of_type(self.owned(e), "FeatureChaining"@)) {
                Some(c) => self.naming_at(c, "chainingFeature"@),
                None => None,
            },
        }
    }

    /// The naming feature of an unnamed element: what it redefines, the name
    /// of its position, what it references, the end of its chain.
    #[verifier::opaque]
    pub open spec fn naming_feature(self, e: usize) -> Option<NamingV> {
        match self.redefinition_naming(self.of_type(self.owned(e), "Redefinition"@), 0) {
            Some(x) => Some(x),
            None => match self.implied_member_name(e) {
                Some(s) => Some(NamingV::Named(s)),
                None => if self.is_party(e) {
                    None
                } else {
                    self.reference_naming(e)
                },
            },
        }
    }

    /// The name of an element along at most `fuel` naming features.
    pub open spec fn name_within(self, e: usize, fuel: nat) -> Option<Seq<char>>
        decreases fuel,
    {
        if fuel == 0 {
            None
        } else if self.declares_a_name(e) {
            self.text(e, "declaredName"@)
        } else {
            match self.naming_feature(e) {
                Some(NamingV::Feature(t)) => self.name_within(t, (fuel - 1) as nat),
                Some(NamingV::Named(s)) => Some(s),
                None => None,
            }
        }
    }

    /// The short name of an element along at most `fuel` naming features.
    pub open spec fn short_name_within(self, e: usize, fuel: nat) -> Option<Seq<char>>
        decreases fuel,
    {
        if fuel == 0 {
            None
        } else if self.declares_a_name(e) {
            self.text(e, "declaredShortName"@)
        } else {
            match self.naming_feature(e) {
                Some(NamingV::Feature(t)) => self.short_name_within(t, (fuel - 1) as nat),
                _ => None,
            }
        }
    }

    /// The effective name of an element.
    #[verifier::opaque]
    pub open spec fn name(self, e: usize) -> Option<Seq<char>> {
        self.name_within(e, 33)
    }

    /// The effective short name of an element.
    #[verifier::opaque]
    pub open spec fn short_name(self, e: usize) -> Option<Seq<char>> {
        self.short_name_within(e, 33)
    }

    /// The name of an element, or else its short name.
    #[verifier::opaque]
    pub open spec fn segment(self, e: usize) -> Option<Seq<char>> {
        match self.name(e) {
            Some(s) => Some(s),
            None => self.short_name(e),
        }
    }

    /// The segments from the root down to an element, through memberships
    /// only; none where one of them has no name.
    pub open spec fn segments(self, e: usize) -> Option<Seq<Seq<char>>>
        decreases e,
    {
        match self.owning(e) {
            None => Some(Seq::empty()),
            Some(rel) => if !self.is_kind(rel, "Membership"@) {
                None
            } else {
                match (self.segment(e), self.carrier(rel)) {
                    (Some(s), Some(c)) => if c < e {
                        match self.segments(c) {
                            Some(x) => Some(x.push(s)),
                            None => None,
                        }
                    } else {
                        None
                    },
                    _ => None,
                }
            },
        }
    }

    /// The segments of an element's qualified name; the root has none.
    #[verifier::opaque]
    pub open spec fn qualified_segments(self, e: usize) -> Option<Seq<Seq<char>>> {
        match self.segments(e) {
            Some(x) => if x.len() == 0 {
                None
            } else {
                Some(x)
            },
            None => None,
        }
    }

    /// The qualified name of an element.
    #[verifier::opaque]
    pub open spec fn qualified_name(self, e: usize) -> Option<Seq<char>> {
        match self.qualified_segments(e) {
            Some(x) => Some(path_text(x, x.len() as int)),
            None => None,
        }
    }
}

/// The first `k` segments, escaped and joined.
pub open spec fn path_text(s: Seq<Seq<char>>, k: int) -> Seq<char>
    decreases k,
{
    if k <= 0 {
        Seq::empty()
    } else if k == 1 {
        escaped(s[0])
    } else {
        path_text(s, k - 1) + "::"@ + escaped(s[k - 1])
    }
}

pub open spec fn opt_texts(o: Option<Vec<String>>) -> Option<Seq<Seq<char>>> {
    match o {
        Some(v) => Some(texts(v@)),
        None => None,
    }
}

impl Derivation {
    fn naming_at(&self, r: usize, key: &str) -> (o: Option<Naming>)
        requires
            self.ok(),
            r < self@.n(),
        ensures
            opt_naming(o) == self@.naming_at(r, key@),
            naming_ok(opt_naming(o), self@.n()),
    {
        proof {
            reveal(DV::naming_at);
            reveal(Derivation::view);
        }
        match self.graph.link_of(r, key) {
            Some(Link::Id(id)) => match self.by_id(id) {
                Reference::Element(t) => Some(Naming::Feature(t)),
                _ => match self.external_name(id) {
                    Some(s) => Some(Naming::Named(s)),
                    None => None,
                },
            },
            _ => None,
        }
    }

    fn redefinition_naming(&self, s: &Vec<usize>) -> (o: Option<Naming>)
        requires
            self.ok(),
            all_below(s@, self@.n()),
        ensures
            opt_naming(o) == self@.redefinition_naming(s@, 0),
            naming_ok(opt_naming(o), self@.n()),
    {
        let n: usize = s.len();
        let mut k: usize = 0;
        while k < n
            invariant
                self.ok(),
                all_below(s@, self@.n()),
                n == s@.len(),
                k <= n,
                self@.redefinition_naming(s@, 0) == self@.redefinition_naming(s@, k as int),
            decreases n - k,
        {
            let x = self.naming_at(s[k], "redefinedFeature");
            if x.is_some() {
                return x;
            }
            k += 1;
        }
        None
    }

    fn callee_input_name(&self, o: usize, rel: usize) -> (r: Option<String>)
        requires
            self.ok(),
            o < self@.n(),
        ensures
            opt_text(r) == self@.callee_input_name(o, rel),
    {
        proof {
            reveal(DV::callee_input_name);
        }
        match get_head(&self.callee_memberships(&self.owned(o))) {
            Some(m) => match self.target(m, "memberElement") {
                Some(callee) => match position_of(
                    &self.of_type(&self.owned(o), "ParameterMembership"),
                    rel,
                ) {
                    Some(k) => match get_nth(
                        &self.spelled_inputs(&self.firsts(&self.owned(callee))),
                        k,
                    ) {
                        Some(p) => self.text(p, "declaredName"),
                        None => None,
                    },
                    None => None,
                },
                None => None,
            },
            None => None,
        }
    }

    fn accept_parameter_name(&self, o: usize, rel: usize) -> (r: Option<String>)
        requires
            self.ok(),
            o < self@.n(),
        ensures
            opt_text(r) == self@.accept_parameter_name(o, rel),
    {
        proof {
            reveal(DV::accept_parameter_name);
        }
        match position_of(&self.reference_parameters(&self.owned(o)), rel) {
            Some(k) => if k == 0 {
                named("payload")
            } else if k == 1 {
                named("receiver")
            } else {
                None
            },
            None => None,
        }
    }

    fn invocation_arg_name(&self, e: usize, rel: usize) -> (r: Option<String>)
        requires
            self.ok(),
            e < self@.n(),
            rel < self@.n(),
        ensures
            opt_text(r) == self@.invocation_arg_name(e, rel),
    {
        proof {
            reveal(DV::invocation_arg_name);
        }
        if get_head(&self.of_type(&self.owned(e), "Redefinition")).is_some() {
            return None;
        }
        match self.carrier(rel) {
            Some(o) => if self.is_type(o, "AcceptActionUsage") {
                self.accept_parameter_name(o, rel)
            } else if self.is_type(o, "InvocationExpression") || self.is_type(
                o,
                "ConstructorExpression",
            ) {
                self.callee_input_name(o, rel)
            } else {
                None
            },
            None => None,
        }
    }

    fn end_role(&self, o: usize, second: bool) -> (r: Option<String>)
        requires
            self.ok(),
            o < self@.n(),
        ensures
            opt_text(r) == self@.end_role(o, second),
    {
        proof {
            reveal(DV::end_role);
        }
        if self.orders_ends(o) {
            named(if second { "laterOccurrence" } else { "earlierOccurrence" })
        } else if self.binds_ends(o) {
            named(if second { "sameThing" } else { "thisThing" })
        } else if self.directs_ends(o) {
            named(if second { "target" } else { "source" })
        } else {
            None
        }
    }

    fn end_name(&self, rel: usize) -> (r: Option<String>)
        requires
            self.ok(),
            rel < self@.n(),
        ensures
            opt_text(r) == self@.end_name(rel),
    {
        proof {
            reveal(DV::end_name);
        }
        match self.carrier(rel) {
            Some(o) => {
                let ends: Vec<usize> = self.of_type(&self.owned(o), "EndFeatureMembership");
                if ends.len() != 2 {
                    return None;
                }
                match position_of(&ends, rel) {
                    Some(k) => self.end_role(o, k == 1),
                    None => None,
                }
            },
            None => None,
        }
    }

    fn fixed_name(&self, rel: usize) -> (r: Option<String>)
        requires
            self.ok(),
            rel < self@.n(),
        ensures
            opt_text(r) == self@.fixed_name(rel),
    {
        proof {
            reveal(DV::fixed_name);
        }
        if self.is_type(rel, "ReturnParameterMembership") {
            named("result")
        } else if self.is_type(rel, "SubjectMembership") {
            named("subj")
        } else if self.is_type(rel, "ObjectiveMembership") {
            named("obj")
        } else if self.is_type(rel, "ViewRenderingMembership") {
            named("viewRendering")
        } else {
            None
        }
    }

    fn implied_member_name(&self, e: usize) -> (r: Option<String>)
        requires
            self.ok(),
            e < self@.n(),
        ensures
            opt_text(r) == self@.implied_member_name(e),
    {
        proof {
            reveal(DV::implied_member_name);
        }
        match self.owning(e) {
            Some(rel) => {
                if self.is_type(e, "PayloadFeature") {
                    return named("payload");
                }
                if self.is_type(e, "AcceptActionUsage") && self.is_type(
                    rel,
                    "TransitionFeatureMembership",
                ) {
                    return named("accepter");
                }
                match self.fixed_name(rel) {
                    Some(s) => Some(s),
                    None => if self.is_type(rel, "ParameterMembership") {
                        self.invocation_arg_name(e, rel)
                    } else if self.is_type(rel, "EndFeatureMembership") {
                        self.end_name(rel)
                    } else {
                        None
                    },
                }
            },
            None => None,
        }
    }

    fn is_party(&self, e: usize) -> (r: bool)
        requires
            self.ok(),
            e < self@.n(),
        ensures
            r == self@.is_party(e),
    {
        proof {
            reveal(DV::is_party);
        }
        match self.owning(e) {
            Some(r) => self.is_type(r, "ActorMembership") || self.is_type(r, "StakeholderMembership"),
            None => false,
        }
    }

    fn reference_naming(&self, e: usize) -> (r: Option<Naming>)
        requires
            self.ok(),
            e < self@.n(),
        ensures
            opt_naming(r) == self@.reference_naming(e),
            naming_ok(opt_naming(r), self@.n()),
    {
        proof {
            reveal(DV::reference_naming);
        }
        let by_reference: Option<Naming> = match get_head(
            &self.referencing(&self.of_type(&self.owned(e), "ReferenceSubsetting")),
        ) {
            Some(r) => self.naming_at(r, "referencedFeature"),
            None => None,
        };
        if by_reference.is_some() {
            return by_reference;
        }
        match get_last(&self.of_type(&self.owned(e), "FeatureChaining")) {
            Some(c) => self.naming_at(c, "chainingFeature"),
            None => None,
        }
    }

    fn naming_feature(&self, e: usize) -> (r: Option<Naming>)
        requires
            self.ok(),
            e < self@.n(),
        ensures
            opt_naming(r) == self@.naming_feature(e),
            naming_ok(opt_naming(r), self@.n()),
    {
        proof {
            reveal(DV::naming_feature);
        }
        let redefined = self.redefinition_naming(&self.of_type(&self.owned(e), "Redefinition"));
        if redefined.is_some() {
            return redefined;
        }
        match self.implied_member_name(e) {
            Some(s) => Some(Naming::Named(s)),
            None => if self.is_party(e) {
                None
            } else {
                self.reference_naming(e)
            },
        }
    }

    fn name_within(&self, e: usize, fuel: u8) -> (r: Option<String>)
        requires
            self.ok(),
            e < self@.n(),
        ensures
            opt_text(r) == self@.name_within(e, fuel as nat),
        decreases fuel,
    {
        if fuel == 0 {
            return None;
        }
        if self.declares_a_name(e) {
            return self.text(e, "declaredName");
        }
        match self.naming_feature(e) {
            Some(Naming::Feature(t)) => self.name_within(t, fuel - 1),
            Some(Naming::Named(s)) => Some(s),
            None => None,
        }
    }

    fn short_name_within(&self, e: usize, fuel: u8) -> (r: Option<String>)
        requires
            self.ok(),
            e < self@.n(),
        ensures
            opt_text(r) == self@.short_name_within(e, fuel as nat),
        decreases fuel,
    {
        if fuel == 0 {
            return None;
        }
        if self.declares_a_name(e) {
            return self.text(e, "declaredShortName");
        }
        match self.naming_feature(e) {
            Some(Naming::Feature(t)) => self.short_name_within(t, fuel - 1),
            _ => None,
        }
    }

    /// The effective name of an element: declared, or else that of its
    /// naming feature.
    pub fn name(&self, e: usize) -> (r: Option<String>)
        requires
            self.ok(),
            e < self@.n(),
        ensures
            opt_text(r) == self@.name(e),
    {
        proof {
            reveal(DV::name);
        }
        self.name_within(e, 33)
    }

    /// The effective short name of an element.
    pub fn short_name(&self, e: usize) -> (r: Option<String>)
        requires
            self.ok(),
            e < self@.n(),
        ensures
            opt_text(r) == self@.short_name(e),
    {
        proof {
            reveal(DV::short_name);
        }
        self.short_name_within(e, 33)
    }

    fn segment(&self, e: usize) -> (r: Option<String>)
        requires
            self.ok(),
            e < self@.n(),
        ensures
            opt_text(r) == self@.segment(e),
    {
        proof {
            reveal(DV::segment);
        }
        match self.name(e) {
            Some(s) => Some(s),
            None => self.short_name(e),
        }
    }

    fn segments(&self, e: usize) -> (r: Option<Vec<String>>)
        requires
            self.ok(),
            e < self@.n(),
        ensures
            opt_texts(r) == self@.segments(e),
        decreases e,
    {
        match self.owning(e) {
            None => {
                let none: Vec<String> = Vec::new();
                assert(texts(none@) =~= Seq::<Seq<char>>::empty());
                Some(none)
            },
            Some(rel) => {
                if !self.is_kind(rel, "Membership") {
                    return None;
                }
                match (self.segment(e), self.carrier(rel)) {
                    (Some(s), Some(c)) => match self.segments(c) {
                        Some(x) => {
                            let mut x: Vec<String> = x;
                            let ghost before = texts(x@);
                            let ghost sv = s@;
                            x.push(s);
                            assert(texts(x@) =~= before.push(sv));
                            Some(x)
                        },
                        None => None,
                    },
                    _ => None,
                }
            },
        }
    }

    /// The segments of an element's qualified name, root first.
    pub fn qualified_segments(&self, e: usize) -> (r: Option<Vec<String>>)
        requires
            self.ok(),
            e < self@.n(),
        ensures
            opt_texts(r) == self@.qualified_segments(e),
            r is Some ==> r->0@.len() > 0,
    {
        proof {
            reveal(DV::qualified_segments);
        }
        match self.segments(e) {
            Some(x) => {
                assert(texts(x@).len() == x@.len());
                if x.len() == 0 {
                    None
                } else {
                    Some(x)
                }
            },
            None => None,
        }
    }

    /// The qualified name of an element, restricted names quoted.
    pub fn qualified_name(&self, e: usize) -> (r: Option<String>)
        requires
            self.ok(),
            e < self@.n(),
        ensures
            opt_text(r) == self@.qualified_name(e),
    {
        proof {
            reveal(DV::qualified_name);
        }
        match self.qualified_segments(e) {
            Some(x) => {
                let mut s: String = String::new();
                push_escaped(&mut s, x[0].as_str());
                assert(texts(x@)[0] == x@[0]@);
                assert(s@ =~= path_text(texts(x@), 1));
                let n: usize = x.len();
                let mut k: usize = 1;
                while k < n
                    invariant
                        n == x@.len(),
                        1 <= k <= n,
                        s@ == path_text(texts(x@), k as int),
                    decreases n - k,
                {
                    push_text(&mut s, "::");
                    push_escaped(&mut s, x[k].as_str());
                    assert(texts(x@)[k as int] == x@[k as int]@);
                    k += 1;
                }
                Some(s)
            },
            None => None,
        }
    }
}

/// An element that declares either name declares both: its effective names
/// are the declared ones.
pub proof fn law_declared_names_are_effective(d: DV, e: usize)
    requires
        d.declares_a_name(e),
    ensures
        d.name(e) == d.text(e, "declaredName"@),
        d.short_name(e) == d.text(e, "declaredShortName"@),
{
    reveal(DV::name);
    reveal(DV::short_name);
}

} // verus!
