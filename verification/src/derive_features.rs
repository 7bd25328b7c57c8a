//! Annotations, specializations, parameters and arguments.
use crate::derive_base::{
    opt_ref_ok, opt_ref_view, refs_ok, refs_view, Derivation, RefV, Reference, DV,
};
use crate::derive_lists::{
    elem_ref, empty_refs, get_head, get_nth, get_nth_ref, head, join, joined, make_ref, make_unit,
    make_unit_ref, nth, nth_ref, unit, unit_ref, unite_refs, united_refs,
};
use crate::state::{all_below, below};
use vstd::prelude::*;

verus! {

impl DV {
    /// The annotation, where it annotates its owner, or does not.
    #[verifier::opaque]
    pub open spec fn annotates_owner(self, a: usize, e: usize) -> bool {
        match self.target(a, "annotatedElement"@) {
            Some(t) => t == e,
            None => match self.owned_annotating_element(a) {
                Some(_) => true,
                None => false,
            },
        }
    }
}

impl Derivation {
    /// The annotation, where it annotates its owner, or does not.
    pub fn annotates_owner(&self, a: usize, e: usize) -> (r: bool)
        requires
            self.ok(),
            a < self@.n(),
            e < self@.n(),
        ensures
            r == self@.annotates_owner(a, e),
    {
        proof {
            reveal(DV::annotates_owner);
        }
        match self.target(a, "annotatedElement") {
            Some(t) => t == e,
            None => match self.owned_annotating_element(a) {
                Some(_) => true,
                None => false,
            },
        }
    }
}

impl DV {
    /// An owned annotation that annotates its owner.
    #[verifier::opaque]
    pub open spec fn if_annotates(self, a: usize, e: usize) -> Option<usize> {
        if self.annotates_owner(a, e) {
            Some(a)
        } else {
            None
        }
    }
}

impl Derivation {
    /// An owned annotation that annotates its owner.
    pub fn if_annotates(&self, a: usize, e: usize) -> (r: Option<usize>)
        requires
            self.ok(),
            a < self@.n(),
            e < self@.n(),
        ensures
            r == self@.if_annotates(a, e),
            below(r, self@.n()),
    {
        proof {
            reveal(DV::if_annotates);
        }
        if self.annotates_owner(a, e) {
            Some(a)
        } else {
            None
        }
    }
}

impl DV {
    /// An owned annotation that annotates another element.
    #[verifier::opaque]
    pub open spec fn if_about(self, a: usize, e: usize) -> Option<usize> {
        if self.annotates_owner(a, e) {
            None
        } else {
            Some(a)
        }
    }
}

impl Derivation {
    /// An owned annotation that annotates another element.
    pub fn if_about(&self, a: usize, e: usize) -> (r: Option<usize>)
        requires
            self.ok(),
            a < self@.n(),
            e < self@.n(),
        ensures
            r == self@.if_about(a, e),
            below(r, self@.n()),
    {
        proof {
            reveal(DV::if_about);
        }
        if self.annotates_owner(a, e) {
            None
        } else {
            Some(a)
        }
    }
}

impl DV {
    /// A relationship whose source is its owner, or is not spelled.
    #[verifier::opaque]
    pub open spec fn if_sourced(self, a: usize, e: usize) -> Option<usize> {
        match self.relationship_source(a) {
            Some(s) => if s == e {
                Some(a)
            } else {
                None
            },
            None => Some(a),
        }
    }
}

impl Derivation {
    /// A relationship whose source is its owner, or is not spelled.
    pub fn if_sourced(&self, a: usize, e: usize) -> (r: Option<usize>)
        requires
            self.ok(),
            a < self@.n(),
            e < self@.n(),
        ensures
            r == self@.if_sourced(a, e),
            below(r, self@.n()),
    {
        proof {
            reveal(DV::if_sourced);
        }
        match self.relationship_source(a) {
            Some(s) => if s == e {
                Some(a)
            } else {
                None
            },
            None => Some(a),
        }
    }
}

impl DV {
    /// A feature that is directed inwards.
    #[verifier::opaque]
    pub open spec fn if_input(self, f: usize) -> Option<usize> {
        if self.is_input(f) {
            Some(f)
        } else {
            None
        }
    }
}

impl Derivation {
    /// A feature that is directed inwards.
    pub fn if_input(&self, f: usize) -> (r: Option<usize>)
        requires
            self.ok(),
            f < self@.n(),
        ensures
            r == self@.if_input(f),
            below(r, self@.n()),
    {
        proof {
            reveal(DV::if_input);
        }
        if self.is_input(f) {
            Some(f)
        } else {
            None
        }
    }
}

impl DV {
    /// A feature that is directed outwards.
    #[verifier::opaque]
    pub open spec fn if_output(self, f: usize) -> Option<usize> {
        if self.is_output(f) {
            Some(f)
        } else {
            None
        }
    }
}

impl Derivation {
    /// A feature that is directed outwards.
    pub fn if_output(&self, f: usize) -> (r: Option<usize>)
        requires
            self.ok(),
            f < self@.n(),
        ensures
            r == self@.if_output(f),
            below(r, self@.n()),
    {
        proof {
            reveal(DV::if_output);
        }
        if self.is_output(f) {
            Some(f)
        } else {
            None
        }
    }
}

impl DV {
    /// A feature that is directed.
    #[verifier::opaque]
    pub open spec fn if_directed(self, f: usize) -> Option<usize> {
        if self.is_directed(f) {
            Some(f)
        } else {
            None
        }
    }
}

impl Derivation {
    /// A feature that is directed.
    pub fn if_directed(&self, f: usize) -> (r: Option<usize>)
        requires
            self.ok(),
            f < self@.n(),
        ensures
            r == self@.if_directed(f),
            below(r, self@.n()),
    {
        proof {
            reveal(DV::if_directed);
        }
        if self.is_directed(f) {
            Some(f)
        } else {
            None
        }
    }
}

impl DV {
    /// The feature that an end's reference subsetting names.
    #[verifier::opaque]
    pub open spec fn end_reference(self, e: usize) -> Option<RefV> {
        match self.reference_subsetting(e) {
            Some(s) => self.link(s, "referencedFeature"@),
            None => None,
        }
    }
}

impl Derivation {
    /// The feature that an end's reference subsetting names.
    pub fn end_reference(&self, e: usize) -> (r: Option<Reference>)
        requires
            self.ok(),
            e < self@.n(),
        ensures
            opt_ref_view(r) == self@.end_reference(e),
            opt_ref_ok(opt_ref_view(r), self@.n()),
    {
        proof {
            reveal(DV::end_reference);
        }
        match self.reference_subsetting(e) {
            Some(s) => self.link(s, "referencedFeature"),
            None => None,
        }
    }
}

impl DV {
    /// The feature a redefining feature redefines.
    #[verifier::opaque]
    pub open spec fn redefined_by(self, p: usize) -> Option<usize> {
        head(self.targets(self.owned_of_kind(p, "Redefinition"@), "redefinedFeature"@))
    }
}

impl Derivation {
    /// The feature a redefining feature redefines.
    pub fn redefined_by(&self, p: usize) -> (r: Option<usize>)
        requires
            self.ok(),
            p < self@.n(),
        ensures
            r == self@.redefined_by(p),
            below(r, self@.n()),
    {
        proof {
            reveal(DV::redefined_by);
        }
        get_head(&self.targets(&self.owned_of_kind(p, "Redefinition"), "redefinedFeature"))
    }
}

impl DV {
    /// Whether a parameter is owned by a trigger, as its membership spells.
    #[verifier::opaque]
    pub open spec fn in_trigger(self, p: usize) -> bool {
        match self.owning(p) {
            Some(m) => match self.target(m, "owningRelatedElement"@) {
                Some(o) => self.is_type(o, "TriggerInvocationExpression"@),
                None => false,
            },
            None => false,
        }
    }
}

impl Derivation {
    /// Whether a parameter is owned by a trigger, as its membership spells.
    pub fn in_trigger(&self, p: usize) -> (r: bool)
        requires
            self.ok(),
            p < self@.n(),
        ensures
            r == self@.in_trigger(p),
    {
        proof {
            reveal(DV::in_trigger);
        }
        match self.owning(p) {
            Some(m) => match self.target(m, "owningRelatedElement") {
                Some(o) => self.is_type(o, "TriggerInvocationExpression"),
                None => false,
            },
            None => false,
        }
    }
}

impl DV {
    /// The argument that an input parameter carries: its value, or else the
    /// parameter where it is itself an expression of a trigger.
    #[verifier::opaque]
    pub open spec fn argument_of(self, p: usize) -> Option<usize> {
        match self.feature_value_of(p) {
            Some(v) => Some(v),
            None => if self.in_trigger(p) {
                self.if_kind(p, "Expression"@)
            } else {
                None
            },
        }
    }
}

impl Derivation {
    /// The argument that an input parameter carries: its value, or else the
    /// parameter where it is itself an expression of a trigger.
    pub fn argument_of(&self, p: usize) -> (r: Option<usize>)
        requires
            self.ok(),
            p < self@.n(),
        ensures
            r == self@.argument_of(p),
            below(r, self@.n()),
    {
        proof {
            reveal(DV::argument_of);
        }
        match self.feature_value_of(p) {
            Some(v) => Some(v),
            None => if self.in_trigger(p) {
                self.if_kind(p, "Expression")
            } else {
                None
            },
        }
    }
}

impl DV {
    /// The element of an individual's definition.
    #[verifier::opaque]
    pub open spec fn if_individual(self, t: usize) -> Option<usize> {
        if self.is_kind(t, "OccurrenceDefinition"@) && self.flag(t, "isIndividual"@) {
            Some(t)
        } else {
            None
        }
    }
}

impl Derivation {
    /// The element of an individual's definition.
    pub fn if_individual(&self, t: usize) -> (r: Option<usize>)
        requires
            self.ok(),
            t < self@.n(),
        ensures
            r == self@.if_individual(t),
            below(r, self@.n()),
    {
        proof {
            reveal(DV::if_individual);
        }
        if self.is_kind(t, "OccurrenceDefinition") && self.flag(t, "isIndividual") {
            Some(t)
        } else {
            None
        }
    }
}

impl DV {
    /// A parameter that redefines nothing.
    #[verifier::opaque]
    pub open spec fn if_positional(self, p: usize) -> Option<usize> {
        match self.redefined_by(p) {
            Some(_) => None,
            None => Some(p),
        }
    }
}

impl Derivation {
    /// A parameter that redefines nothing.
    pub fn if_positional(&self, p: usize) -> (r: Option<usize>)
        requires
            self.ok(),
            p < self@.n(),
        ensures
            r == self@.if_positional(p),
            below(r, self@.n()),
    {
        proof {
            reveal(DV::if_positional);
        }
        match self.redefined_by(p) {
            Some(_) => None,
            None => Some(p),
        }
    }
}

impl DV {
    /// A parameter that redefines a given feature.
    #[verifier::opaque]
    pub open spec fn if_redefines(self, p: usize, f: usize) -> Option<usize> {
        match self.redefined_by(p) {
            Some(t) => if t == f {
                Some(p)
            } else {
                None
            },
            None => None,
        }
    }
}

impl Derivation {
    /// A parameter that redefines a given feature.
    pub fn if_redefines(&self, p: usize, f: usize) -> (r: Option<usize>)
        requires
            self.ok(),
            p < self@.n(),
            f < self@.n(),
        ensures
            r == self@.if_redefines(p, f),
            below(r, self@.n()),
    {
        proof {
            reveal(DV::if_redefines);
        }
        match self.redefined_by(p) {
            Some(t) => if t == f {
                Some(p)
            } else {
                None
            },
            None => None,
        }
    }
}

impl DV {
    /// The requirement a verification membership verifies.
    #[verifier::opaque]
    pub open spec fn verified_by(self, m: usize) -> Option<RefV> {
        self.referenced_member(m, "RequirementUsage"@)
    }
}

impl Derivation {
    /// The requirement a verification membership verifies.
    pub fn verified_by(&self, m: usize) -> (r: Option<Reference>)
        requires
            self.ok(),
            m < self@.n(),
        ensures
            opt_ref_view(r) == self@.verified_by(m),
            opt_ref_ok(opt_ref_view(r), self@.n()),
    {
        proof {
            reveal(DV::verified_by);
        }
        self.referenced_member(m, "RequirementUsage")
    }
}

impl DV {
    /// The use case an inclusion includes.
    #[verifier::opaque]
    pub open spec fn included_by(self, f: usize) -> Option<RefV> {
        self.referenced_or_self(f, "UseCaseUsage"@)
    }
}

impl Derivation {
    /// The use case an inclusion includes.
    pub fn included_by(&self, f: usize) -> (r: Option<Reference>)
        requires
            self.ok(),
            f < self@.n(),
        ensures
            opt_ref_view(r) == self@.included_by(f),
            opt_ref_ok(opt_ref_view(r), self@.n()),
    {
        proof {
            reveal(DV::included_by);
        }
        self.referenced_or_self(f, "UseCaseUsage")
    }
}

impl DV {
    /// The annotations that annotate their owner.
    pub open spec fn annotating_owner_from(self, s: Seq<usize>, e: usize, k: int) -> Seq<usize>
        decreases s.len() - k,
        when 0 <= k
    {
        if k >= s.len() {
            Seq::empty()
        } else {
            match self.if_annotates(s[k], e) {
                Some(y) => seq![y] + self.annotating_owner_from(s, e, k + 1),
                None => self.annotating_owner_from(s, e, k + 1),
            }
        }
    }

    #[verifier::opaque]
    pub open spec fn annotating_owner(self, s: Seq<usize>, e: usize) -> Seq<usize> {
        self.annotating_owner_from(s, e, 0)
    }
}

impl Derivation {
    /// The annotations that annotate their owner.
    pub fn annotating_owner(&self, list: &Vec<usize>, e: usize) -> (r: Vec<usize>)
        requires
            self.ok(),
            all_below(list@, self@.n()),
            e < self@.n(),
        ensures
            r@ == self@.annotating_owner(list@, e),
            all_below(r@, self@.n()),
    {
        proof {
            reveal(DV::annotating_owner);
        }
        let mut out: Vec<usize> = Vec::new();
        let n: usize = list.len();
        let mut k: usize = 0;
        let ghost whole = self@.annotating_owner_from(list@, e, 0);
        assert(out@ + whole =~= whole);
        while k < n
            invariant
                self.ok(),
                all_below(list@, self@.n()),
            e < self@.n(),
                n == list@.len(),
                k <= n,
                all_below(out@, self@.n()),
                out@ + self@.annotating_owner_from(list@, e, k as int) == whole,
            decreases n - k,
        {
            let x: usize = list[k];
            let ghost before = out@;
            let ghost rest = self@.annotating_owner_from(list@, e, k + 1);
            if let Some(y) = self.if_annotates(x, e) {
                let ghost yv = y;
                out.push(y);
                assert(out@ =~= before.push(yv));
                assert(before + (seq![yv] + rest) =~= out@ + rest);
            }
            k += 1;
        }
        assert(out@ + Seq::<usize>::empty() =~= out@);
        out
    }
}

impl DV {
    /// The annotations that annotate another element than their owner.
    pub open spec fn annotating_others_from(self, s: Seq<usize>, e: usize, k: int) -> Seq<usize>
        decreases s.len() - k,
        when 0 <= k
    {
        if k >= s.len() {
            Seq::empty()
        } else {
            match self.if_about(s[k], e) {
                Some(y) => seq![y] + self.annotating_others_from(s, e, k + 1),
                None => self.annotating_others_from(s, e, k + 1),
            }
        }
    }

    #[verifier::opaque]
    pub open spec fn annotating_others(self, s: Seq<usize>, e: usize) -> Seq<usize> {
        self.annotating_others_from(s, e, 0)
    }
}

impl Derivation {
    /// The annotations that annotate another element than their owner.
    pub fn annotating_others(&self, list: &Vec<usize>, e: usize) -> (r: Vec<usize>)
        requires
            self.ok(),
            all_below(list@, self@.n()),
            e < self@.n(),
        ensures
            r@ == self@.annotating_others(list@, e),
            all_below(r@, self@.n()),
    {
        proof {
            reveal(DV::annotating_others);
        }
        let mut out: Vec<usize> = Vec::new();
        let n: usize = list.len();
        let mut k: usize = 0;
        let ghost whole = self@.annotating_others_from(list@, e, 0);
        assert(out@ + whole =~= whole);
        while k < n
            invariant
                self.ok(),
                all_below(list@, self@.n()),
            e < self@.n(),
                n == list@.len(),
                k <= n,
                all_below(out@, self@.n()),
                out@ + self@.annotating_others_from(list@, e, k as int) == whole,
            decreases n - k,
        {
            let x: usize = list[k];
            let ghost before = out@;
            let ghost rest = self@.annotating_others_from(list@, e, k + 1);
            if let Some(y) = self.if_about(x, e) {
                let ghost yv = y;
                out.push(y);
                assert(out@ =~= before.push(yv));
                assert(before + (seq![yv] + rest) =~= out@ + rest);
            }
            k += 1;
        }
        assert(out@ + Seq::<usize>::empty() =~= out@);
        out
    }
}

impl DV {
    /// The relationships whose source is an element, or is not spelled.
    pub open spec fn sourced_by_from(self, s: Seq<usize>, e: usize, k: int) -> Seq<usize>
        decreases s.len() - k,
        when 0 <= k
    {
        if k >= s.len() {
            Seq::empty()
        } else {
            match self.if_sourced(s[k], e) {
                Some(y) => seq![y] + self.sourced_by_from(s, e, k + 1),
                None => self.sourced_by_from(s, e, k + 1),
            }
        }
    }

    #[verifier::opaque]
    pub open spec fn sourced_by(self, s: Seq<usize>, e: usize) -> Seq<usize> {
        self.sourced_by_from(s, e, 0)
    }
}

impl Derivation {
    /// The relationships whose source is an element, or is not spelled.
    pub fn sourced_by(&self, list: &Vec<usize>, e: usize) -> (r: Vec<usize>)
        requires
            self.ok(),
            all_below(list@, self@.n()),
            e < self@.n(),
        ensures
            r@ == self@.sourced_by(list@, e),
            all_below(r@, self@.n()),
    {
        proof {
            reveal(DV::sourced_by);
        }
        let mut out: Vec<usize> = Vec::new();
        let n: usize = list.len();
        let mut k: usize = 0;
        let ghost whole = self@.sourced_by_from(list@, e, 0);
        assert(out@ + whole =~= whole);
        while k < n
            invariant
                self.ok(),
                all_below(list@, self@.n()),
            e < self@.n(),
                n == list@.len(),
                k <= n,
                all_below(out@, self@.n()),
                out@ + self@.sourced_by_from(list@, e, k as int) == whole,
            decreases n - k,
        {
            let x: usize = list[k];
            let ghost before = out@;
            let ghost rest = self@.sourced_by_from(list@, e, k + 1);
            if let Some(y) = self.if_sourced(x, e) {
                let ghost yv = y;
                out.push(y);
                assert(out@ =~= before.push(yv));
                assert(before + (seq![yv] + rest) =~= out@ + rest);
            }
            k += 1;
        }
        assert(out@ + Seq::<usize>::empty() =~= out@);
        out
    }
}

impl DV {
    /// The features directed inwards.
    pub open spec fn inputs_from(self, s: Seq<usize>, k: int) -> Seq<usize>
        decreases s.len() - k,
        when 0 <= k
    {
        if k >= s.len() {
            Seq::empty()
        } else {
            match self.if_input(s[k]) {
                Some(y) => seq![y] + self.inputs_from(s, k + 1),
                None => self.inputs_from(s, k + 1),
            }
        }
    }

    #[verifier::opaque]
    pub open spec fn inputs(self, s: Seq<usize>) -> Seq<usize> {
        self.inputs_from(s, 0)
    }
}

impl Derivation {
    /// The features directed inwards.
    pub fn inputs(&self, list: &Vec<usize>) -> (r: Vec<usize>)
        requires
            self.ok(),
            all_below(list@, self@.n()),
        ensures
            r@ == self@.inputs(list@),
            all_below(r@, self@.n()),
    {
        proof {
            reveal(DV::inputs);
        }
        let mut out: Vec<usize> = Vec::new();
        let n: usize = list.len();
        let mut k: usize = 0;
        let ghost whole = self@.inputs_from(list@, 0);
        assert(out@ + whole =~= whole);
        while k < n
            invariant
                self.ok(),
                all_below(list@, self@.n()),
                n == list@.len(),
                k <= n,
                all_below(out@, self@.n()),
                out@ + self@.inputs_from(list@, k as int) == whole,
            decreases n - k,
        {
            let x: usize = list[k];
            let ghost before = out@;
            let ghost rest = self@.inputs_from(list@, k + 1);
            if let Some(y) = self.if_input(x) {
                let ghost yv = y;
                out.push(y);
                assert(out@ =~= before.push(yv));
                assert(before + (seq![yv] + rest) =~= out@ + rest);
            }
            k += 1;
        }
        assert(out@ + Seq::<usize>::empty() =~= out@);
        out
    }
}

impl DV {
    /// The features directed outwards.
    pub open spec fn outputs_from(self, s: Seq<usize>, k: int) -> Seq<usize>
        decreases s.len() - k,
        when 0 <= k
    {
        if k >= s.len() {
            Seq::empty()
        } else {
            match self.if_output(s[k]) {
                Some(y) => seq![y] + self.outputs_from(s, k + 1),
                None => self.outputs_from(s, k + 1),
            }
        }
    }

    #[verifier::opaque]
    pub open spec fn outputs(self, s: Seq<usize>) -> Seq<usize> {
        self.outputs_from(s, 0)
    }
}

impl Derivation {
    /// The features directed outwards.
    pub fn outputs(&self, list: &Vec<usize>) -> (r: Vec<usize>)
        requires
            self.ok(),
            all_below(list@, self@.n()),
        ensures
            r@ == self@.outputs(list@),
            all_below(r@, self@.n()),
    {
        proof {
            reveal(DV::outputs);
        }
        let mut out: Vec<usize> = Vec::new();
        let n: usize = list.len();
        let mut k: usize = 0;
        let ghost whole = self@.outputs_from(list@, 0);
        assert(out@ + whole =~= whole);
        while k < n
            invariant
                self.ok(),
                all_below(list@, self@.n()),
                n == list@.len(),
                k <= n,
                all_below(out@, self@.n()),
                out@ + self@.outputs_from(list@, k as int) == whole,
            decreases n - k,
        {
            let x: usize = list[k];
            let ghost before = out@;
            let ghost rest = self@.outputs_from(list@, k + 1);
            if let Some(y) = self.if_output(x) {
                let ghost yv = y;
                out.push(y);
                assert(out@ =~= before.push(yv));
                assert(before + (seq![yv] + rest) =~= out@ + rest);
            }
            k += 1;
        }
        assert(out@ + Seq::<usize>::empty() =~= out@);
        out
    }
}

impl DV {
    /// The directed features.
    pub open spec fn directed_from(self, s: Seq<usize>, k: int) -> Seq<usize>
        decreases s.len() - k,
        when 0 <= k
    {
        if k >= s.len() {
            Seq::empty()
        } else {
            match self.if_directed(s[k]) {
                Some(y) => seq![y] + self.directed_from(s, k + 1),
                None => self.directed_from(s, k + 1),
            }
        }
    }

    #[verifier::opaque]
    pub open spec fn directed(self, s: Seq<usize>) -> Seq<usize> {
        self.directed_from(s, 0)
    }
}

impl Derivation {
    /// The directed features.
    pub fn directed(&self, list: &Vec<usize>) -> (r: Vec<usize>)
        requires
            self.ok(),
            all_below(list@, self@.n()),
        ensures
            r@ == self@.directed(list@),
            all_below(r@, self@.n()),
    {
        proof {
            reveal(DV::directed);
        }
        let mut out: Vec<usize> = Vec::new();
        let n: usize = list.len();
        let mut k: usize = 0;
        let ghost whole = self@.directed_from(list@, 0);
        assert(out@ + whole =~= whole);
        while k < n
            invariant
                self.ok(),
                all_below(list@, self@.n()),
                n == list@.len(),
                k <= n,
                all_below(out@, self@.n()),
                out@ + self@.directed_from(list@, k as int) == whole,
            decreases n - k,
        {
            let x: usize = list[k];
            let ghost before = out@;
            let ghost rest = self@.directed_from(list@, k + 1);
            if let Some(y) = self.if_directed(x) {
                let ghost yv = y;
                out.push(y);
                assert(out@ =~= before.push(yv));
                assert(before + (seq![yv] + rest) =~= out@ + rest);
            }
            k += 1;
        }
        assert(out@ + Seq::<usize>::empty() =~= out@);
        out
    }
}

impl DV {
    /// The features that ends refer to.
    pub open spec fn end_references_from(self, s: Seq<usize>, k: int) -> Seq<RefV>
        decreases s.len() - k,
        when 0 <= k
    {
        if k >= s.len() {
            Seq::empty()
        } else {
            match self.end_reference(s[k]) {
                Some(y) => seq![y] + self.end_references_from(s, k + 1),
                None => self.end_references_from(s, k + 1),
            }
        }
    }

    #[verifier::opaque]
    pub open spec fn end_references(self, s: Seq<usize>) -> Seq<RefV> {
        self.end_references_from(s, 0)
    }
}

impl Derivation {
    /// The features that ends refer to.
    pub fn end_references(&self, list: &Vec<usize>) -> (r: Vec<Reference>)
        requires
            self.ok(),
            all_below(list@, self@.n()),
        ensures
            refs_view(r@) == self@.end_references(list@),
            refs_ok(refs_view(r@), self@.n()),
    {
        proof {
            reveal(DV::end_references);
        }
        let mut out: Vec<Reference> = Vec::new();
        let n: usize = list.len();
        let mut k: usize = 0;
        let ghost whole = self@.end_references_from(list@, 0);
        assert(refs_view(out@) =~= Seq::<RefV>::empty());
        assert(refs_view(out@) + whole =~= whole);
        while k < n
            invariant
                self.ok(),
                all_below(list@, self@.n()),
                n == list@.len(),
                k <= n,
                refs_ok(refs_view(out@), self@.n()),
                refs_view(out@) + self@.end_references_from(list@, k as int) == whole,
            decreases n - k,
        {
            let x: usize = list[k];
            let ghost before = refs_view(out@);
            let ghost rest = self@.end_references_from(list@, k + 1);
            if let Some(y) = self.end_reference(x) {
                let ghost yv = y@;
                out.push(y);
                assert(refs_view(out@) =~= before.push(yv));
                assert(before + (seq![yv] + rest) =~= refs_view(out@) + rest);
            }
            k += 1;
        }
        assert(refs_view(out@) + Seq::<RefV>::empty() =~= refs_view(out@));
        out
    }
}

impl DV {
    /// The elements that annotations annotate.
    pub open spec fn annotated_by_from(self, s: Seq<usize>, k: int) -> Seq<RefV>
        decreases s.len() - k,
        when 0 <= k
    {
        if k >= s.len() {
            Seq::empty()
        } else {
            match self.annotated_element(s[k]) {
                Some(y) => seq![y] + self.annotated_by_from(s, k + 1),
                None => self.annotated_by_from(s, k + 1),
            }
        }
    }

    #[verifier::opaque]
    pub open spec fn annotated_by(self, s: Seq<usize>) -> Seq<RefV> {
        self.annotated_by_from(s, 0)
    }
}

impl Derivation {
    /// The elements that annotations annotate.
    pub fn annotated_by(&self, list: &Vec<usize>) -> (r: Vec<Reference>)
        requires
            self.ok(),
            all_below(list@, self@.n()),
        ensures
            refs_view(r@) == self@.annotated_by(list@),
            refs_ok(refs_view(r@), self@.n()),
    {
        proof {
            reveal(DV::annotated_by);
        }
        let mut out: Vec<Reference> = Vec::new();
        let n: usize = list.len();
        let mut k: usize = 0;
        let ghost whole = self@.annotated_by_from(list@, 0);
        assert(refs_view(out@) =~= Seq::<RefV>::empty());
        assert(refs_view(out@) + whole =~= whole);
        while k < n
            invariant
                self.ok(),
                all_below(list@, self@.n()),
                n == list@.len(),
                k <= n,
                refs_ok(refs_view(out@), self@.n()),
                refs_view(out@) + self@.annotated_by_from(list@, k as int) == whole,
            decreases n - k,
        {
            let x: usize = list[k];
            let ghost before = refs_view(out@);
            let ghost rest = self@.annotated_by_from(list@, k + 1);
            if let Some(y) = self.annotated_element(x) {
                let ghost yv = y@;
                out.push(y);
                assert(refs_view(out@) =~= before.push(yv));
                assert(before + (seq![yv] + rest) =~= refs_view(out@) + rest);
            }
            k += 1;
        }
        assert(refs_view(out@) + Seq::<RefV>::empty() =~= refs_view(out@));
        out
    }
}

impl DV {
    /// The transition sources that memberships name.
    pub open spec fn sources_through_from(self, s: Seq<usize>, k: int) -> Seq<RefV>
        decreases s.len() - k,
        when 0 <= k
    {
        if k >= s.len() {
            Seq::empty()
        } else {
            match self.source_through(s[k]) {
                Some(y) => seq![y] + self.sources_through_from(s, k + 1),
                None => self.sources_through_from(s, k + 1),
            }
        }
    }

    #[verifier::opaque]
    pub open spec fn sources_through(self, s: Seq<usize>) -> Seq<RefV> {
        self.sources_through_from(s, 0)
    }
}

impl Derivation {
    /// The transition sources that memberships name.
    pub fn sources_through(&self, list: &Vec<usize>) -> (r: Vec<Reference>)
        requires
            self.ok(),
            all_below(list@, self@.n()),
        ensures
            refs_view(r@) == self@.sources_through(list@),
            refs_ok(refs_view(r@), self@.n()),
    {
        proof {
            reveal(DV::sources_through);
        }
        let mut out: Vec<Reference> = Vec::new();
        let n: usize = list.len();
        let mut k: usize = 0;
        let ghost whole = self@.sources_through_from(list@, 0);
        assert(refs_view(out@) =~= Seq::<RefV>::empty());
        assert(refs_view(out@) + whole =~= whole);
        while k < n
            invariant
                self.ok(),
                all_below(list@, self@.n()),
                n == list@.len(),
                k <= n,
                refs_ok(refs_view(out@), self@.n()),
                refs_view(out@) + self@.sources_through_from(list@, k as int) == whole,
            decreases n - k,
        {
            let x: usize = list[k];
            let ghost before = refs_view(out@);
            let ghost rest = self@.sources_through_from(list@, k + 1);
            if let Some(y) = self.source_through(x) {
                let ghost yv = y@;
                out.push(y);
                assert(refs_view(out@) =~= before.push(yv));
                assert(before + (seq![yv] + rest) =~= refs_view(out@) + rest);
            }
            k += 1;
        }
        assert(refs_view(out@) + Seq::<RefV>::empty() =~= refs_view(out@));
        out
    }
}

impl DV {
    /// The arguments that parameters carry.
    pub open spec fn arguments_of_from(self, s: Seq<usize>, k: int) -> Seq<usize>
        decreases s.len() - k,
        when 0 <= k
    {
        if k >= s.len() {
            Seq::empty()
        } else {
            match self.argument_of(s[k]) {
                Some(y) => seq![y] + self.arguments_of_from(s, k + 1),
                None => self.arguments_of_from(s, k + 1),
            }
        }
    }

    #[verifier::opaque]
    pub open spec fn arguments_of(self, s: Seq<usize>) -> Seq<usize> {
        self.arguments_of_from(s, 0)
    }
}

impl Derivation {
    /// The arguments that parameters carry.
    pub fn arguments_of(&self, list: &Vec<usize>) -> (r: Vec<usize>)
        requires
            self.ok(),
            all_below(list@, self@.n()),
        ensures
            r@ == self@.arguments_of(list@),
            all_below(r@, self@.n()),
    {
        proof {
            reveal(DV::arguments_of);
        }
        let mut out: Vec<usize> = Vec::new();
        let n: usize = list.len();
        let mut k: usize = 0;
        let ghost whole = self@.arguments_of_from(list@, 0);
        assert(out@ + whole =~= whole);
        while k < n
            invariant
                self.ok(),
                all_below(list@, self@.n()),
                n == list@.len(),
                k <= n,
                all_below(out@, self@.n()),
                out@ + self@.arguments_of_from(list@, k as int) == whole,
            decreases n - k,
        {
            let x: usize = list[k];
            let ghost before = out@;
            let ghost rest = self@.arguments_of_from(list@, k + 1);
            if let Some(y) = self.argument_of(x) {
                let ghost yv = y;
                out.push(y);
                assert(out@ =~= before.push(yv));
                assert(before + (seq![yv] + rest) =~= out@ + rest);
            }
            k += 1;
        }
        assert(out@ + Seq::<usize>::empty() =~= out@);
        out
    }
}

impl DV {
    /// The definitions of individuals.
    pub open spec fn individuals_from(self, s: Seq<usize>, k: int) -> Seq<usize>
        decreases s.len() - k,
        when 0 <= k
    {
        if k >= s.len() {
            Seq::empty()
        } else {
            match self.if_individual(s[k]) {
                Some(y) => seq![y] + self.individuals_from(s, k + 1),
                None => self.individuals_from(s, k + 1),
            }
        }
    }

    #[verifier::opaque]
    pub open spec fn individuals(self, s: Seq<usize>) -> Seq<usize> {
        self.individuals_from(s, 0)
    }
}

impl Derivation {
    /// The definitions of individuals.
    pub fn individuals(&self, list: &Vec<usize>) -> (r: Vec<usize>)
        requires
            self.ok(),
            all_below(list@, self@.n()),
        ensures
            r@ == self@.individuals(list@),
            all_below(r@, self@.n()),
    {
        proof {
            reveal(DV::individuals);
        }
        let mut out: Vec<usize> = Vec::new();
        let n: usize = list.len();
        let mut k: usize = 0;
        let ghost whole = self@.individuals_from(list@, 0);
        assert(out@ + whole =~= whole);
        while k < n
            invariant
                self.ok(),
                all_below(list@, self@.n()),
                n == list@.len(),
                k <= n,
                all_below(out@, self@.n()),
                out@ + self@.individuals_from(list@, k as int) == whole,
            decreases n - k,
        {
            let x: usize = list[k];
            let ghost before = out@;
            let ghost rest = self@.individuals_from(list@, k + 1);
            if let Some(y) = self.if_individual(x) {
                let ghost yv = y;
                out.push(y);
                assert(out@ =~= before.push(yv));
                assert(before + (seq![yv] + rest) =~= out@ + rest);
            }
            k += 1;
        }
        assert(out@ + Seq::<usize>::empty() =~= out@);
        out
    }
}

impl DV {
    /// The parameters that redefine nothing.
    pub open spec fn positional_from(self, s: Seq<usize>, k: int) -> Seq<usize>
        decreases s.len() - k,
        when 0 <= k
    {
        if k >= s.len() {
            Seq::empty()
        } else {
            match self.if_positional(s[k]) {
                Some(y) => seq![y] + self.positional_from(s, k + 1),
                None => self.positional_from(s, k + 1),
            }
        }
    }

    #[verifier::opaque]
    pub open spec fn positional(self, s: Seq<usize>) -> Seq<usize> {
        self.positional_from(s, 0)
    }
}

impl Derivation {
    /// The parameters that redefine nothing.
    pub fn positional(&self, list: &Vec<usize>) -> (r: Vec<usize>)
        requires
            self.ok(),
            all_below(list@, self@.n()),
        ensures
            r@ == self@.positional(list@),
            all_below(r@, self@.n()),
    {
        proof {
            reveal(DV::positional);
        }
        let mut out: Vec<usize> = Vec::new();
        let n: usize = list.len();
        let mut k: usize = 0;
        let ghost whole = self@.positional_from(list@, 0);
        assert(out@ + whole =~= whole);
        while k < n
            invariant
                self.ok(),
                all_below(list@, self@.n()),
                n == list@.len(),
                k <= n,
                all_below(out@, self@.n()),
                out@ + self@.positional_from(list@, k as int) == whole,
            decreases n - k,
        {
            let x: usize = list[k];
            let ghost before = out@;
            let ghost rest = self@.positional_from(list@, k + 1);
            if let Some(y) = self.if_positional(x) {
                let ghost yv = y;
                out.push(y);
                assert(out@ =~= before.push(yv));
                assert(before + (seq![yv] + rest) =~= out@ + rest);
            }
            k += 1;
        }
        assert(out@ + Seq::<usize>::empty() =~= out@);
        out
    }
}

impl DV {
    /// The parameters that redefine a feature.
    pub open spec fn redefining_from(self, s: Seq<usize>, f: usize, k: int) -> Seq<usize>
        decreases s.len() - k,
        when 0 <= k
    {
        if k >= s.len() {
            Seq::empty()
        } else {
            match self.if_redefines(s[k], f) {
                Some(y) => seq![y] + self.redefining_from(s, f, k + 1),
                None => self.redefining_from(s, f, k + 1),
            }
        }
    }

    #[verifier::opaque]
    pub open spec fn redefining(self, s: Seq<usize>, f: usize) -> Seq<usize> {
        self.redefining_from(s, f, 0)
    }
}

impl Derivation {
    /// The parameters that redefine a feature.
    pub fn redefining(&self, list: &Vec<usize>, f: usize) -> (r: Vec<usize>)
        requires
            self.ok(),
            all_below(list@, self@.n()),
            f < self@.n(),
        ensures
            r@ == self@.redefining(list@, f),
            all_below(r@, self@.n()),
    {
        proof {
            reveal(DV::redefining);
        }
        let mut out: Vec<usize> = Vec::new();
        let n: usize = list.len();
        let mut k: usize = 0;
        let ghost whole = self@.redefining_from(list@, f, 0);
        assert(out@ + whole =~= whole);
        while k < n
            invariant
                self.ok(),
                all_below(list@, self@.n()),
            f < self@.n(),
                n == list@.len(),
                k <= n,
                all_below(out@, self@.n()),
                out@ + self@.redefining_from(list@, f, k as int) == whole,
            decreases n - k,
        {
            let x: usize = list[k];
            let ghost before = out@;
            let ghost rest = self@.redefining_from(list@, f, k + 1);
            if let Some(y) = self.if_redefines(x, f) {
                let ghost yv = y;
                out.push(y);
                assert(out@ =~= before.push(yv));
                assert(before + (seq![yv] + rest) =~= out@ + rest);
            }
            k += 1;
        }
        assert(out@ + Seq::<usize>::empty() =~= out@);
        out
    }
}

impl DV {
    /// The requirements that memberships verify.
    pub open spec fn verified_all_from(self, s: Seq<usize>, k: int) -> Seq<RefV>
        decreases s.len() - k,
        when 0 <= k
    {
        if k >= s.len() {
            Seq::empty()
        } else {
            match self.verified_by(s[k]) {
                Some(y) => seq![y] + self.verified_all_from(s, k + 1),
                None => self.verified_all_from(s, k + 1),
            }
        }
    }

    #[verifier::opaque]
    pub open spec fn verified_all(self, s: Seq<usize>) -> Seq<RefV> {
        self.verified_all_from(s, 0)
    }
}

impl Derivation {
    /// The requirements that memberships verify.
    pub fn verified_all(&self, list: &Vec<usize>) -> (r: Vec<Reference>)
        requires
            self.ok(),
            all_below(list@, self@.n()),
        ensures
            refs_view(r@) == self@.verified_all(list@),
            refs_ok(refs_view(r@), self@.n()),
    {
        proof {
            reveal(DV::verified_all);
        }
        let mut out: Vec<Reference> = Vec::new();
        let n: usize = list.len();
        let mut k: usize = 0;
        let ghost whole = self@.verified_all_from(list@, 0);
        assert(refs_view(out@) =~= Seq::<RefV>::empty());
        assert(refs_view(out@) + whole =~= whole);
        while k < n
            invariant
                self.ok(),
                all_below(list@, self@.n()),
                n == list@.len(),
                k <= n,
                refs_ok(refs_view(out@), self@.n()),
                refs_view(out@) + self@.verified_all_from(list@, k as int) == whole,
            decreases n - k,
        {
            let x: usize = list[k];
            let ghost before = refs_view(out@);
            let ghost rest = self@.verified_all_from(list@, k + 1);
            if let Some(y) = self.verified_by(x) {
                let ghost yv = y@;
                out.push(y);
                assert(refs_view(out@) =~= before.push(yv));
                assert(before + (seq![yv] + rest) =~= refs_view(out@) + rest);
            }
            k += 1;
        }
        assert(refs_view(out@) + Seq::<RefV>::empty() =~= refs_view(out@));
        out
    }
}

impl DV {
    /// The use cases that inclusions include.
    pub open spec fn included_all_from(self, s: Seq<usize>, k: int) -> Seq<RefV>
        decreases s.len() - k,
        when 0 <= k
    {
        if k >= s.len() {
            Seq::empty()
        } else {
            match self.included_by(s[k]) {
                Some(y) => seq![y] + self.included_all_from(s, k + 1),
                None => self.included_all_from(s, k + 1),
            }
        }
    }

    #[verifier::opaque]
    pub open spec fn included_all(self, s: Seq<usize>) -> Seq<RefV> {
        self.included_all_from(s, 0)
    }
}

impl Derivation {
    /// The use cases that inclusions include.
    pub fn included_all(&self, list: &Vec<usize>) -> (r: Vec<Reference>)
        requires
            self.ok(),
            all_below(list@, self@.n()),
        ensures
            refs_view(r@) == self@.included_all(list@),
            refs_ok(refs_view(r@), self@.n()),
    {
        proof {
            reveal(DV::included_all);
        }
        let mut out: Vec<Reference> = Vec::new();
        let n: usize = list.len();
        let mut k: usize = 0;
        let ghost whole = self@.included_all_from(list@, 0);
        assert(refs_view(out@) =~= Seq::<RefV>::empty());
        assert(refs_view(out@) + whole =~= whole);
        while k < n
            invariant
                self.ok(),
                all_below(list@, self@.n()),
                n == list@.len(),
                k <= n,
                refs_ok(refs_view(out@), self@.n()),
                refs_view(out@) + self@.included_all_from(list@, k as int) == whole,
            decreases n - k,
        {
            let x: usize = list[k];
            let ghost before = refs_view(out@);
            let ghost rest = self@.included_all_from(list@, k + 1);
            if let Some(y) = self.included_by(x) {
                let ghost yv = y@;
                out.push(y);
                assert(refs_view(out@) =~= before.push(yv));
                assert(before + (seq![yv] + rest) =~= refs_view(out@) + rest);
            }
            k += 1;
        }
        assert(refs_view(out@) + Seq::<RefV>::empty() =~= refs_view(out@));
        out
    }
}

impl DV {
    /// The first child of a relationship, as a reference.
    pub open spec fn child_head(self, x: usize) -> Option<RefV> {
        elem_ref(self.first_child(x))
    }
}

impl Derivation {
    /// The first child of a relationship, as a reference.
    pub fn child_head(&self, x: usize) -> (r: Option<Reference>)
        requires
            self.ok(),
            x < self@.n(),
        ensures
            opt_ref_view(r) == self@.child_head(x),
            opt_ref_ok(opt_ref_view(r), self@.n()),
    {
        make_ref(self.first_child(x))
    }
}

impl DV {
    /// The annotations an element owns that annotate it.
    #[verifier::opaque]
    pub open spec fn owned_annotations(self, e: usize) -> Seq<usize> {
        self.annotating_owner(self.annotation_relationships(e), e)
    }
}

impl Derivation {
    /// The annotations an element owns that annotate it.
    pub fn owned_annotations(&self, e: usize) -> (r: Vec<usize>)
        requires
            self.ok(),
            e < self@.n(),
        ensures
            r@ == self@.owned_annotations(e),
            all_below(r@, self@.n()),
    {
        proof {
            reveal(DV::owned_annotations);
        }
        self.annotating_owner(&self.annotation_relationships(e), e)
    }
}

impl DV {
    /// The annotations an element owns that annotate another.
    #[verifier::opaque]
    pub open spec fn about_annotations(self, e: usize) -> Seq<usize> {
        self.annotating_others(self.annotation_relationships(e), e)
    }
}

impl Derivation {
    /// The annotations an element owns that annotate another.
    pub fn about_annotations(&self, e: usize) -> (r: Vec<usize>)
        requires
            self.ok(),
            e < self@.n(),
        ensures
            r@ == self@.about_annotations(e),
            all_below(r@, self@.n()),
    {
        proof {
            reveal(DV::about_annotations);
        }
        self.annotating_others(&self.annotation_relationships(e), e)
    }
}

impl DV {
    /// The annotations of an annotating element: the one that owns it, then
    /// those it owns about others.
    #[verifier::opaque]
    pub open spec fn annotations(self, e: usize) -> Seq<usize> {
        joined(unit(self.owning_annotation(e)), self.about_annotations(e))
    }
}

impl Derivation {
    /// The annotations of an annotating element: the one that owns it, then
    /// those it owns about others.
    pub fn annotations(&self, e: usize) -> (r: Vec<usize>)
        requires
            self.ok(),
            e < self@.n(),
        ensures
            r@ == self@.annotations(e),
            all_below(r@, self@.n()),
    {
        proof {
            reveal(DV::annotations);
        }
        join(make_unit(self.owning_annotation(e)), &self.about_annotations(e))
    }
}

impl DV {
    /// The elements an annotating element annotates: its owner, where it has no
    /// annotation.
    #[verifier::opaque]
    pub open spec fn annotating_targets(self, e: usize) -> Seq<RefV> {
        match head(self.annotations(e)) {
            Some(_) => self.annotated_by(self.annotations(e)),
            None => unit_ref(elem_ref(self.owner(e))),
        }
    }
}

impl Derivation {
    /// The elements an annotating element annotates: its owner, where it has no
    /// annotation.
    pub fn annotating_targets(&self, e: usize) -> (r: Vec<Reference>)
        requires
            self.ok(),
            e < self@.n(),
        ensures
            refs_view(r@) == self@.annotating_targets(e),
            refs_ok(refs_view(r@), self@.n()),
    {
        proof {
            reveal(DV::annotating_targets);
        }
        match get_head(&self.annotations(e)) {
            Some(_) => self.annotated_by(&self.annotations(e)),
            None => make_unit_ref(make_ref(self.owner(e))),
        }
    }
}

impl DV {
    /// The specializations of a kind that an element owns, the implied ones
    /// among them.
    #[verifier::opaque]
    pub open spec fn owned_specializations(self, e: usize, kind: Seq<char>) -> Seq<usize> {
        self.sourced_by(self.of_kind(self.owned_relationships(e), kind), e)
    }
}

impl Derivation {
    /// The specializations of a kind that an element owns, the implied ones
    /// among them.
    pub fn owned_specializations(&self, e: usize, kind: &str) -> (r: Vec<usize>)
        requires
            self.ok(),
            e < self@.n(),
        ensures
            r@ == self@.owned_specializations(e, kind@),
            all_below(r@, self@.n()),
    {
        proof {
            reveal(DV::owned_specializations);
        }
        self.sourced_by(&self.of_kind(&self.owned_relationships(e), kind), e)
    }
}

impl DV {
    /// The features that the ends of a connector refer to.
    #[verifier::opaque]
    pub open spec fn related_features(self, e: usize) -> Seq<RefV> {
        self.end_references(self.ends(self.features(e)))
    }
}

impl Derivation {
    /// The features that the ends of a connector refer to.
    pub fn related_features(&self, e: usize) -> (r: Vec<Reference>)
        requires
            self.ok(),
            e < self@.n(),
        ensures
            refs_view(r@) == self@.related_features(e),
            refs_ok(refs_view(r@), self@.n()),
    {
        proof {
            reveal(DV::related_features);
        }
        self.end_references(&self.ends(&self.features(e)))
    }
}

impl DV {
    /// The source of a transition.
    #[verifier::opaque]
    pub open spec fn transition_source(self, e: usize) -> Option<RefV> {
        nth_ref(self.sources_through(self.plain_memberships(e)), 0)
    }
}

impl Derivation {
    /// The source of a transition.
    pub fn transition_source(&self, e: usize) -> (r: Option<Reference>)
        requires
            self.ok(),
            e < self@.n(),
        ensures
            opt_ref_view(r) == self@.transition_source(e),
            opt_ref_ok(opt_ref_view(r), self@.n()),
    {
        proof {
            reveal(DV::transition_source);
        }
        get_nth_ref(&self.sources_through(&self.plain_memberships(e)), 0)
    }
}

impl DV {
    /// The input parameters that an element owns.
    #[verifier::opaque]
    pub open spec fn input_parameters(self, e: usize) -> Seq<usize> {
        self.inputs(self.owned_features(e))
    }
}

impl Derivation {
    /// The input parameters that an element owns.
    pub fn input_parameters(&self, e: usize) -> (r: Vec<usize>)
        requires
            self.ok(),
            e < self@.n(),
        ensures
            r@ == self@.input_parameters(e),
            all_below(r@, self@.n()),
    {
        proof {
            reveal(DV::input_parameters);
        }
        self.inputs(&self.owned_features(e))
    }
}

impl DV {
    /// An input parameter by position, counted from one.
    #[verifier::opaque]
    pub open spec fn input_parameter(self, e: usize, i: usize) -> Option<usize> {
        if i == 0 {
            None
        } else {
            self.parameter_before(e, i)
        }
    }
}

impl Derivation {
    /// An input parameter by position, counted from one.
    pub fn input_parameter(&self, e: usize, i: usize) -> (r: Option<usize>)
        requires
            self.ok(),
            e < self@.n(),
        ensures
            r == self@.input_parameter(e, i),
            below(r, self@.n()),
    {
        proof {
            reveal(DV::input_parameter);
        }
        if i == 0 {
            None
        } else {
            self.parameter_before(e, i)
        }
    }
}

impl DV {
    /// The argument of an input parameter by position.
    #[verifier::opaque]
    pub open spec fn argument(self, e: usize, i: usize) -> Option<usize> {
        match self.input_parameter(e, i) {
            Some(p) => self.argument_of(p),
            None => None,
        }
    }
}

impl Derivation {
    /// The argument of an input parameter by position.
    pub fn argument(&self, e: usize, i: usize) -> (r: Option<usize>)
        requires
            self.ok(),
            e < self@.n(),
        ensures
            r == self@.argument(e, i),
            below(r, self@.n()),
    {
        proof {
            reveal(DV::argument);
        }
        match self.input_parameter(e, i) {
            Some(p) => self.argument_of(p),
            None => None,
        }
    }
}

impl DV {
    /// What an accept action accepts: its first argument, or else its trigger.
    #[verifier::opaque]
    pub open spec fn accept_payload_argument(self, e: usize) -> Option<usize> {
        match self.argument(e, 1) {
            Some(a) => Some(a),
            None => head(self.of_type(self.owned_features(e), "TriggerInvocationExpression"@)),
        }
    }
}

impl Derivation {
    /// What an accept action accepts: its first argument, or else its trigger.
    pub fn accept_payload_argument(&self, e: usize) -> (r: Option<usize>)
        requires
            self.ok(),
            e < self@.n(),
        ensures
            r == self@.accept_payload_argument(e),
            below(r, self@.n()),
    {
        proof {
            reveal(DV::accept_payload_argument);
        }
        match self.argument(e, 1) {
            Some(a) => Some(a),
            None => get_head(&self.of_type(&self.owned_features(e), "TriggerInvocationExpression")),
        }
    }
}

impl DV {
    /// An input parameter as one of a kind; an expression is read through the
    /// parameter's value.
    #[verifier::opaque]
    pub open spec fn parameter_as(self, e: usize, i: usize, kind: Seq<char>) -> Option<usize> {
        match self.input_parameter(e, i) {
            Some(p) => self.if_kind(p, kind),
            None => None,
        }
    }
}

impl Derivation {
    /// An input parameter as one of a kind; an expression is read through the
    /// parameter's value.
    pub fn parameter_as(&self, e: usize, i: usize, kind: &str) -> (r: Option<usize>)
        requires
            self.ok(),
            e < self@.n(),
        ensures
            r == self@.parameter_as(e, i, kind@),
            below(r, self@.n()),
    {
        proof {
            reveal(DV::parameter_as);
        }
        match self.input_parameter(e, i) {
            Some(p) => self.if_kind(p, kind),
            None => None,
        }
    }
}

impl DV {
    /// An input parameter as an expression: itself, or else its value.
    #[verifier::opaque]
    pub open spec fn expression_at(self, e: usize, i: usize) -> Option<usize> {
        match self.input_parameter(e, i) {
            Some(p) => if self.is_kind(p, "Expression"@) {
                Some(p)
            } else {
                match self.feature_value_of(p) {
                    Some(v) => self.if_kind(v, "Expression"@),
                    None => None,
                }
            },
            None => None,
        }
    }
}

impl Derivation {
    /// An input parameter as an expression: itself, or else its value.
    pub fn expression_at(&self, e: usize, i: usize) -> (r: Option<usize>)
        requires
            self.ok(),
            e < self@.n(),
        ensures
            r == self@.expression_at(e, i),
            below(r, self@.n()),
    {
        proof {
            reveal(DV::expression_at);
        }
        match self.input_parameter(e, i) {
            Some(p) => if self.is_kind(p, "Expression") {
                Some(p)
            } else {
                match self.feature_value_of(p) {
                    Some(v) => self.if_kind(v, "Expression"),
                    None => None,
                }
            },
            None => None,
        }
    }
}

impl DV {
    /// The use cases a use case includes.
    #[verifier::opaque]
    pub open spec fn included_use_cases(self, e: usize) -> Seq<RefV> {
        self.included_all(self.of_kind(self.owned_features(e), "IncludeUseCaseUsage"@))
    }
}

impl Derivation {
    /// The use cases a use case includes.
    pub fn included_use_cases(&self, e: usize) -> (r: Vec<Reference>)
        requires
            self.ok(),
            e < self@.n(),
        ensures
            refs_view(r@) == self@.included_use_cases(e),
            refs_ok(refs_view(r@), self@.n()),
    {
        proof {
            reveal(DV::included_use_cases);
        }
        self.included_all(&self.of_kind(&self.owned_features(e), "IncludeUseCaseUsage"))
    }
}

impl DV {
    /// The requirements that the objective of a verification case verifies, each
    /// once.
    #[verifier::opaque]
    pub open spec fn verified_requirements(self, e: usize) -> Seq<RefV> {
        match self.member_via(e, "ObjectiveMembership"@) {
            Some(o) => united_refs(
                Seq::<RefV>::empty(),
                self.verified_all(
                    self.of_kind(self.feature_memberships(o), "RequirementVerificationMembership"@),
                ),
            ),
            None => Seq::<RefV>::empty(),
        }
    }
}

impl Derivation {
    /// The requirements that the objective of a verification case verifies, each
    /// once.
    pub fn verified_requirements(&self, e: usize) -> (r: Vec<Reference>)
        requires
            self.ok(),
            e < self@.n(),
        ensures
            refs_view(r@) == self@.verified_requirements(e),
            refs_ok(refs_view(r@), self@.n()),
    {
        proof {
            reveal(DV::verified_requirements);
        }
        match self.member_via(e, "ObjectiveMembership") {
            Some(o) => unite_refs(
                empty_refs(),
                &self.verified_all(
                    &self.of_kind(&self.feature_memberships(o), "RequirementVerificationMembership"),
                ),
            ),
            None => empty_refs(),
        }
    }
}

impl DV {
    /// The input parameter at a position counted from one.
    #[verifier::opaque]
    pub open spec fn parameter_before(self, e: usize, i: usize) -> Option<usize> {
        nth(self.input_parameters(e), i - 1)
    }
}

impl Derivation {
    /// The input parameter at a position counted from one.
    pub fn parameter_before(&self, e: usize, i: usize) -> (r: Option<usize>)
        requires
            self.ok(),
            e < self@.n(),
            i > 0,
        ensures
            r == self@.parameter_before(e, i),
            below(r, self@.n()),
    {
        proof {
            reveal(DV::parameter_before);
        }
        get_nth(&self.input_parameters(e), i - 1)
    }
}

} // verus!
