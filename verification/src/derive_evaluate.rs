//! Arguments of invocations, and which expressions can be evaluated at the
//! model level.
use crate::derive_base::{Derivation, RefV, Reference, DV};
use crate::derive_lists::{empty_els, get_head, get_nth, head, holds, nth};
use crate::libcache::texts;
use crate::state::{all_below, below};
use crate::text::str_eq;
use vstd::prelude::*;

verus! {

impl DV {
    /// A relationship that is written, not implied.
    #[verifier::opaque]
    pub open spec fn if_written(self, x: usize) -> Option<usize> {
        if self.is_implied(x) {
            None
        } else {
            Some(x)
        }
    }
}

impl Derivation {
    /// A relationship that is written, not implied.
    pub fn if_written(&self, x: usize) -> (r: Option<usize>)
        requires
            self.ok(),
            x < self@.n(),
        ensures
            r == self@.if_written(x),
            below(r, self@.n()),
    {
        proof {
            reveal(DV::if_written);
        }
        if self.is_implied(x) {
            None
        } else {
            Some(x)
        }
    }
}

impl DV {
    /// Whether a feature is directed inwards only.
    #[verifier::opaque]
    pub open spec fn is_in(self, f: usize) -> bool {
        if self.has_direction(f) {
            self.text_is(f, "direction"@, "in"@)
        } else {
            self.default_direction(f, "ParameterMembership"@) && !self.default_direction(
                f,
                "ReturnParameterMembership"@,
            )
        }
    }
}

impl Derivation {
    /// Whether a feature is directed inwards only.
    pub fn is_in(&self, f: usize) -> (r: bool)
        requires
            self.ok(),
            f < self@.n(),
        ensures
            r == self@.is_in(f),
    {
        proof {
            reveal(DV::is_in);
        }
        if self.has_direction(f) {
            self.text_is(f, "direction", "in")
        } else {
            self.default_direction(f, "ParameterMembership") && !self.default_direction(
                f,
                "ReturnParameterMembership",
            )
        }
    }
}

impl DV {
    /// Whether a feature has neither features nor a value.
    #[verifier::opaque]
    pub open spec fn is_bare(self, f: usize) -> bool {
        match head(self.owned_features(f)) {
            Some(_) => false,
            None => match head(self.owned_of_kind(f, "FeatureValue"@)) {
                Some(_) => false,
                None => true,
            },
        }
    }
}

impl Derivation {
    /// Whether a feature has neither features nor a value.
    pub fn is_bare(&self, f: usize) -> (r: bool)
        requires
            self.ok(),
            f < self@.n(),
        ensures
            r == self@.is_bare(f),
    {
        proof {
            reveal(DV::is_bare);
        }
        match get_head(&self.owned_features(f)) {
            Some(_) => false,
            None => match get_head(&self.owned_of_kind(f, "FeatureValue")) {
                Some(_) => false,
                None => true,
            },
        }
    }
}

impl DV {
    /// Whether a feature is the expression that gives a result.
    #[verifier::opaque]
    pub open spec fn is_result_expression(self, f: usize) -> bool {
        match self.owning(f) {
            Some(m) => self.is_type(m, "ResultExpressionMembership"@) && self.is_kind(f, "Expression"@),
            None => false,
        }
    }
}

impl Derivation {
    /// Whether a feature is the expression that gives a result.
    pub fn is_result_expression(&self, f: usize) -> (r: bool)
        requires
            self.ok(),
            f < self@.n(),
        ensures
            r == self@.is_result_expression(f),
    {
        proof {
            reveal(DV::is_result_expression);
        }
        match self.owning(f) {
            Some(m) => self.is_type(m, "ResultExpressionMembership") && self.is_kind(f, "Expression"),
            None => false,
        }
    }
}

impl DV {
    /// Whether an expression needs no evaluation beyond itself.
    #[verifier::opaque]
    pub open spec fn is_constant(self, e: usize) -> bool {
        self.is_type(e, "NullExpression"@) || self.is_type(e, "MetadataAccessExpression"@) || self.is_kind(
            e,
            "LiteralExpression"@,
        )
    }
}

impl Derivation {
    /// Whether an expression needs no evaluation beyond itself.
    pub fn is_constant(&self, e: usize) -> (r: bool)
        requires
            self.ok(),
            e < self@.n(),
        ensures
            r == self@.is_constant(e),
    {
        proof {
            reveal(DV::is_constant);
        }
        self.is_type(e, "NullExpression") || self.is_type(e, "MetadataAccessExpression") || self.is_kind(
            e,
            "LiteralExpression",
        )
    }
}

impl DV {
    /// Whether a usage is never evaluable at the model level.
    #[verifier::opaque]
    pub open spec fn is_opaque_usage(self, e: usize) -> bool {
        self.is_kind(e, "CalculationUsage"@) || self.is_kind(e, "ConstraintUsage"@)
    }
}

impl Derivation {
    /// Whether a usage is never evaluable at the model level.
    pub fn is_opaque_usage(&self, e: usize) -> (r: bool)
        requires
            self.ok(),
            e < self@.n(),
        ensures
            r == self@.is_opaque_usage(e),
    {
        proof {
            reveal(DV::is_opaque_usage);
        }
        self.is_kind(e, "CalculationUsage") || self.is_kind(e, "ConstraintUsage")
    }
}

impl DV {
    /// Whether a feature belongs to a metaclass or a metadata feature.
    #[verifier::opaque]
    pub open spec fn is_meta_feature(self, f: usize) -> bool {
        match self.owning_type(f) {
            Some(o) => self.is_kind(o, "Metaclass"@) || self.is_kind(o, "MetadataFeature"@),
            None => false,
        }
    }
}

impl Derivation {
    /// Whether a feature belongs to a metaclass or a metadata feature.
    pub fn is_meta_feature(&self, f: usize) -> (r: bool)
        requires
            self.ok(),
            f < self@.n(),
        ensures
            r == self@.is_meta_feature(f),
    {
        proof {
            reveal(DV::is_meta_feature);
        }
        match self.owning_type(f) {
            Some(o) => self.is_kind(o, "Metaclass") || self.is_kind(o, "MetadataFeature"),
            None => false,
        }
    }
}

impl DV {
    /// The parameters of a callee that arguments stand for.
    #[verifier::opaque]
    pub open spec fn callee_inputs(self, e: usize) -> Seq<usize> {
        match self.instantiated_type(e) {
            Some(RefV::Element(c)) => if self.is_kind(e, "ConstructorExpression"@) {
                self.features(c)
            } else {
                self.inputs(self.features(c))
            },
            _ => Seq::<usize>::empty(),
        }
    }
}

impl Derivation {
    /// The parameters of a callee that arguments stand for.
    pub fn callee_inputs(&self, e: usize) -> (r: Vec<usize>)
        requires
            self.ok(),
            e < self@.n(),
        ensures
            r@ == self@.callee_inputs(e),
            all_below(r@, self@.n()),
    {
        proof {
            reveal(DV::callee_inputs);
        }
        match self.instantiated_type(e) {
            Some(Reference::Element(c)) => if self.is_kind(e, "ConstructorExpression") {
                self.features(c)
            } else {
                self.inputs(&self.features(c))
            },
            _ => empty_els(),
        }
    }
}

impl DV {
    /// The relationships that are written.
    pub open spec fn written_from(self, s: Seq<usize>, k: int) -> Seq<usize>
        decreases s.len() - k,
        when 0 <= k
    {
        if k >= s.len() {
            Seq::empty()
        } else {
            match self.if_written(s[k]) {
                Some(y) => seq![y] + self.written_from(s, k + 1),
                None => self.written_from(s, k + 1),
            }
        }
    }

    #[verifier::opaque]
    pub open spec fn written(self, s: Seq<usize>) -> Seq<usize> {
        self.written_from(s, 0)
    }
}

impl Derivation {
    /// The relationships that are written.
    pub fn written(&self, list: &Vec<usize>) -> (r: Vec<usize>)
        requires
            self.ok(),
            all_below(list@, self@.n()),
        ensures
            r@ == self@.written(list@),
            all_below(r@, self@.n()),
    {
        proof {
            reveal(DV::written);
        }
        let mut out: Vec<usize> = Vec::new();
        let n: usize = list.len();
        let mut k: usize = 0;
        let ghost whole = self@.written_from(list@, 0);
        assert(out@ + whole =~= whole);
        while k < n
            invariant
                self.ok(),
                all_below(list@, self@.n()),
                n == list@.len(),
                k <= n,
                all_below(out@, self@.n()),
                out@ + self@.written_from(list@, k as int) == whole,
            decreases n - k,
        {
            let x: usize = list[k];
            let ghost before = out@;
            let ghost rest = self@.written_from(list@, k + 1);
            if let Some(y) = self.if_written(x) {
                let ghost yv = y;
                out.push(y);
                assert(out@ =~= before.push(yv));
                assert(before + (seq![yv] + rest) =~= out@ + rest);
            }
            k += 1;
        }
        assert(out@ + Seq::<usize>::empty() =~= out@);
        out
    }
}

/// Whether a package's functions are evaluable at the model level.
pub open spec fn evaluable_package(p: Seq<char>) -> bool {
    p == "BaseFunctions"@ || p == "DataFunctions"@ || p == "ControlFunctions"@
}

fn is_evaluable_package(p: &str) -> (r: bool)
    ensures
        r == evaluable_package(p@),
{
    str_eq(p, "BaseFunctions") || str_eq(p, "DataFunctions") || str_eq(p, "ControlFunctions")
}

/// Whether two references name one element outside the model.
pub open spec fn same_external(a: RefV, b: Option<RefV>) -> bool {
    match (a, b) {
        (RefV::External(x), Some(RefV::External(y))) => x == y,
        _ => false,
    }
}

impl DV {
    /// The arguments for a callee's inputs from `k` on: the parameter that
    /// redefines the input, or else the next positional one from `j` on;
    /// where neither is left the list ends.
    pub open spec fn matched(
        self,
        inputs: Seq<usize>,
        params: Seq<usize>,
        k: int,
        j: int,
    ) -> Seq<usize>
        decreases inputs.len() - k,
        when 0 <= k
    {
        if k >= inputs.len() {
            Seq::empty()
        } else {
            let explicit = head(self.redefining(params, inputs[k]));
            let (p, next) = match explicit {
                Some(p) => (Some(p), j),
                None => (nth(self.positional(params), j), j + 1),
            };
            match p {
                Some(p) => match self.argument_of(p) {
                    Some(v) => seq![v] + self.matched(inputs, params, k + 1, next),
                    None => self.matched(inputs, params, k + 1, next),
                },
                None => Seq::empty(),
            }
        }
    }

    /// The arguments of an invocation: matched with the callee's inputs, or,
    /// where those are not known, in their own order.
    #[verifier::opaque]
    pub open spec fn arguments(self, e: usize) -> Seq<usize> {
        let params = self.input_parameters(e);
        let inputs = self.callee_inputs(e);
        if inputs.len() == 0 {
            self.arguments_of(params)
        } else {
            self.matched(inputs, params, 0, 0)
        }
    }

    /// Whether a function is evaluable at the model level: one of the three
    /// library packages of such functions holds it.
    #[verifier::opaque]
    pub open spec fn function_evaluable(self, f: RefV) -> bool {
        match f {
            RefV::Element(e) => self.from_library(e) && match self.qualified_segments(e) {
                Some(s) => evaluable_package(s[0]),
                None => false,
            },
            RefV::External(id) => match self.external_package(id) {
                Some(p) => evaluable_package(p),
                None => false,
            },
            RefV::Unresolved(_) => false,
        }
    }

    /// Whether an expression is evaluable at the model level, the referents
    /// `visited` on the way to it left out, at most `fuel` levels deep.
    pub open spec fn evaluable(self, e: usize, visited: Seq<usize>, fuel: nat) -> bool
        decreases fuel, 2int, 0int,
    {
        if fuel == 0 || self.is_opaque_usage(e) {
            false
        } else if self.is_constant(e) {
            true
        } else if self.is_type(e, "FeatureReferenceExpression"@) {
            self.reference_evaluable(e, visited, fuel)
        } else if self.is_kind(e, "InstantiationExpression"@) {
            &&& self.all_evaluable(self.arguments(e), visited, (fuel - 1) as nat, 0)
            &&& self.is_kind(e, "ConstructorExpression"@) || match self.instantiated_type(e) {
                Some(f) => self.function_evaluable(f),
                None => false,
            }
        } else {
            &&& self.written(self.owned_specializations(e, "Specialization"@)).len() == 0
            &&& self.features_evaluable(self.owned_features(e), self.result(e), visited, fuel, 0)
        }
    }

    pub open spec fn all_evaluable(
        self,
        s: Seq<usize>,
        visited: Seq<usize>,
        fuel: nat,
        k: int,
    ) -> bool
        decreases fuel, 3int, s.len() - k,
        when 0 <= k
    {
        k >= s.len() || (self.evaluable(s[k], visited, fuel) && self.all_evaluable(
            s,
            visited,
            fuel,
            k + 1,
        ))
    }

    /// Whether every feature from `k` on is a bare input or result, or an
    /// evaluable result expression.
    pub open spec fn features_evaluable(
        self,
        s: Seq<usize>,
        result: Option<usize>,
        visited: Seq<usize>,
        fuel: nat,
        k: int,
    ) -> bool
        decreases fuel, 1int, s.len() - k,
        when 0 <= k && fuel > 0
    {
        if k >= s.len() {
            true
        } else {
            let f = s[k];
            &&& ((self.is_in(f) || result == Some(f)) && self.is_bare(f)) || (
            self.is_result_expression(f) && self.evaluable(f, visited, (fuel - 1) as nat))
            &&& self.features_evaluable(s, result, visited, fuel, k + 1)
        }
    }

    /// Whether a feature reference is evaluable: through what it refers to.
    pub open spec fn reference_evaluable(self, e: usize, visited: Seq<usize>, fuel: nat) -> bool
        decreases fuel, 1int, 0int,
        when fuel > 0
    {
        match self.referent(e) {
            Some(RefV::Element(f)) => {
                ||| match self.self_of_anything() {
                    Some(RefV::Element(a)) => self.specializes(f, a),
                    _ => false,
                }
                ||| !visited.contains(f) && self.referent_evaluable(f, visited.push(f), (fuel - 1) as nat)
            },
            Some(r) => same_external(r, self.self_of_anything()),
            None => false,
        }
    }

    pub open spec fn referent_evaluable(self, f: usize, visited: Seq<usize>, fuel: nat) -> bool
        decreases fuel, 3int, 0int,
    {
        if self.is_kind(f, "Expression"@) {
            self.evaluable(f, visited, fuel)
        } else if self.is_meta_feature(f) {
            true
        } else if self.featuring_types(f).len() > 0 {
            false
        } else {
            match self.feature_value_of(f) {
                Some(v) => self.evaluable(v, visited, fuel),
                None => true,
            }
        }
    }

    /// Whether an element is evaluable at the model level, as a function or
    /// as an expression.
    #[verifier::opaque]
    pub open spec fn model_level_evaluable(self, e: usize) -> bool {
        if self.is_kind(e, "Function"@) {
            self.function_evaluable(RefV::Element(e))
        } else {
            self.evaluable(e, Seq::empty(), 257)
        }
    }
}

impl Derivation {
    fn matched(&self, inputs: &Vec<usize>, params: &Vec<usize>) -> (r: Vec<usize>)
        requires
            self.ok(),
            all_below(inputs@, self@.n()),
            all_below(params@, self@.n()),
        ensures
            r@ == self@.matched(inputs@, params@, 0, 0),
            all_below(r@, self@.n()),
    {
        let free: Vec<usize> = self.positional(params);
        let mut out: Vec<usize> = Vec::new();
        let n: usize = inputs.len();
        let mut k: usize = 0;
        let mut j: usize = 0;
        let ghost whole = self@.matched(inputs@, params@, 0, 0);
        assert(out@ + whole =~= whole);
        while k < n
            invariant
                self.ok(),
                all_below(inputs@, self@.n()),
                all_below(params@, self@.n()),
                all_below(free@, self@.n()),
                free@ == self@.positional(params@),
                n == inputs@.len(),
                j <= k <= n,
                all_below(out@, self@.n()),
                whole == self@.matched(inputs@, params@, 0, 0),
                out@ + self@.matched(inputs@, params@, k as int, j as int) == whole,
            decreases n - k,
        {
            let explicit: Option<usize> = get_head(&self.redefining(params, inputs[k]));
            let p: Option<usize> = match explicit {
                Some(p) => Some(p),
                None => get_nth(&free, j),
            };
            let ghost before = out@;
            match p {
                Some(p) => {
                    if explicit.is_none() {
                        j += 1;
                    }
                    let ghost rest = self@.matched(inputs@, params@, k + 1, j as int);
                    if let Some(v) = self.argument_of(p) {
                        out.push(v);
                        assert(before + (seq![v] + rest) =~= out@ + rest);
                    }
                },
                None => {
                    assert(out@ + Seq::<usize>::empty() =~= out@);
                    return out;
                },
            }
            k += 1;
        }
        assert(out@ + Seq::<usize>::empty() =~= out@);
        out
    }

    /// The arguments of an invocation.
    pub fn arguments(&self, e: usize) -> (r: Vec<usize>)
        requires
            self.ok(),
            e < self@.n(),
        ensures
            r@ == self@.arguments(e),
            all_below(r@, self@.n()),
    {
        proof {
            reveal(DV::arguments);
        }
        let params: Vec<usize> = self.input_parameters(e);
        let inputs: Vec<usize> = self.callee_inputs(e);
        if inputs.len() == 0 {
            self.arguments_of(&params)
        } else {
            self.matched(&inputs, &params)
        }
    }

    /// Whether a function is evaluable at the model level.
    pub fn function_evaluable(&self, f: &Reference) -> (r: bool)
        requires
            self.ok(),
            f@.ok(self@.n()),
        ensures
            r == self@.function_evaluable(f@),
    {
        proof {
            reveal(DV::function_evaluable);
        }
        match f {
            Reference::Element(e) => {
                if !self.from_library(*e) {
                    return false;
                }
                match self.qualified_segments(*e) {
                    Some(s) => {
                        assert(texts(s@)[0] == s@[0]@);
                        is_evaluable_package(s[0].as_str())
                    },
                    None => false,
                }
            },
            Reference::External(id) => match self.external_package(*id) {
                Some(p) => is_evaluable_package(p.as_str()),
                None => false,
            },
            Reference::Unresolved(_) => false,
        }
    }

    fn evaluable(&self, e: usize, visited: &Vec<usize>, fuel: u16) -> (r: bool)
        requires
            self.ok(),
            e < self@.n(),
        ensures
            r == self@.evaluable(e, visited@, fuel as nat),
        decreases fuel, 2int,
    {
        if fuel == 0 || self.is_opaque_usage(e) {
            return false;
        }
        if self.is_constant(e) {
            return true;
        }
        if self.is_type(e, "FeatureReferenceExpression") {
            return self.reference_evaluable(e, visited, fuel);
        }
        if self.is_kind(e, "InstantiationExpression") {
            return self.invocation_evaluable(e, visited, fuel);
        }
        if self.written(&self.owned_specializations(e, "Specialization")).len() > 0 {
            return false;
        }
        self.features_evaluable(&self.owned_features(e), self.result(e), visited, fuel)
    }

    fn invocation_evaluable(&self, e: usize, visited: &Vec<usize>, fuel: u16) -> (r: bool)
        requires
            self.ok(),
            e < self@.n(),
            fuel > 0,
        ensures
            r == (self@.all_evaluable(self@.arguments(e), visited@, (fuel - 1) as nat, 0) && (
            self@.is_kind(e, "ConstructorExpression"@) || match self@.instantiated_type(e) {
                Some(f) => self@.function_evaluable(f),
                None => false,
            })),
        decreases fuel, 1int,
    {
        if !self.all_evaluable(&self.arguments(e), visited, fuel - 1) {
            return false;
        }
        if self.is_kind(e, "ConstructorExpression") {
            return true;
        }
        match self.instantiated_type(e) {
            Some(f) => self.function_evaluable(&f),
            None => false,
        }
    }

    fn all_evaluable(&self, s: &Vec<usize>, visited: &Vec<usize>, fuel: u16) -> (r: bool)
        requires
            self.ok(),
            all_below(s@, self@.n()),
        ensures
            r == self@.all_evaluable(s@, visited@, fuel as nat, 0),
        decreases fuel, 3int,
    {
        let n: usize = s.len();
        let mut k: usize = 0;
        while k < n
            invariant
                self.ok(),
                all_below(s@, self@.n()),
                n == s@.len(),
                k <= n,
                self@.all_evaluable(s@, visited@, fuel as nat, 0) == self@.all_evaluable(
                    s@,
                    visited@,
                    fuel as nat,
                    k as int,
                ),
            decreases n - k,
        {
            if !self.evaluable(s[k], visited, fuel) {
                return false;
            }
            k += 1;
        }
        true
    }

    fn feature_evaluable(
        &self,
        f: usize,
        result: Option<usize>,
        visited: &Vec<usize>,
        fuel: u16,
    ) -> (r: bool)
        requires
            self.ok(),
            f < self@.n(),
            fuel > 0,
        ensures
            r == (((self@.is_in(f) || result == Some(f)) && self@.is_bare(f)) || (
            self@.is_result_expression(f) && self@.evaluable(f, visited@, (fuel - 1) as nat))),
        decreases fuel, 0int,
    {
        let is_result: bool = match result {
            Some(x) => x == f,
            None => false,
        };
        if (self.is_in(f) || is_result) && self.is_bare(f) {
            return true;
        }
        self.is_result_expression(f) && self.evaluable(f, visited, fuel - 1)
    }

    fn features_evaluable(
        &self,
        s: &Vec<usize>,
        result: Option<usize>,
        visited: &Vec<usize>,
        fuel: u16,
    ) -> (r: bool)
        requires
            self.ok(),
            all_below(s@, self@.n()),
            fuel > 0,
        ensures
            r == self@.features_evaluable(s@, result, visited@, fuel as nat, 0),
        decreases fuel, 1int,
    {
        let n: usize = s.len();
        let mut k: usize = 0;
        while k < n
            invariant
                self.ok(),
                all_below(s@, self@.n()),
                fuel > 0,
                n == s@.len(),
                k <= n,
                self@.features_evaluable(s@, result, visited@, fuel as nat, 0)
                    == self@.features_evaluable(s@, result, visited@, fuel as nat, k as int),
            decreases n - k,
        {
            if !self.feature_evaluable(s[k], result, visited, fuel) {
                return false;
            }
            k += 1;
        }
        true
    }

    fn reference_evaluable(&self, e: usize, visited: &Vec<usize>, fuel: u16) -> (r: bool)
        requires
            self.ok(),
            e < self@.n(),
            fuel > 0,
        ensures
            r == self@.reference_evaluable(e, visited@, fuel as nat),
        decreases fuel, 1int,
    {
        let anything: Option<Reference> = self.self_of_anything();
        match self.referent(e) {
            Some(Reference::Element(f)) => {
                if let Some(Reference::Element(a)) = anything {
                    if self.specializes(f, a) {
                        return true;
                    }
                }
                if holds(visited, f) {
                    return false;
                }
                let mut more: Vec<usize> = crate::rpure::duplicate(visited);
                more.push(f);
                self.referent_evaluable(f, &more, fuel - 1)
            },
            Some(r) => match (r, anything) {
                (Reference::External(x), Some(Reference::External(y))) => x == y,
                _ => false,
            },
            None => false,
        }
    }

    fn referent_evaluable(&self, f: usize, visited: &Vec<usize>, fuel: u16) -> (r: bool)
        requires
            self.ok(),
            f < self@.n(),
        ensures
            r == self@.referent_evaluable(f, visited@, fuel as nat),
        decreases fuel, 3int,
    {
        if self.is_kind(f, "Expression") {
            return self.evaluable(f, visited, fuel);
        }
        if self.is_meta_feature(f) {
            return true;
        }
        if self.featuring_types(f).len() > 0 {
            return false;
        }
        match self.feature_value_of(f) {
            Some(v) => self.evaluable(v, visited, fuel),
            None => true,
        }
    }

    /// Whether an element is evaluable at the model level.
    pub fn model_level_evaluable(&self, e: usize) -> (r: bool)
        requires
            self.ok(),
            e < self@.n(),
        ensures
            r == self@.model_level_evaluable(e),
    {
        proof {
            reveal(DV::model_level_evaluable);
        }
        if self.is_kind(e, "Function") {
            self.function_evaluable(&Reference::Element(e))
        } else {
            let none: Vec<usize> = empty_els();
            self.evaluable(e, &none, 257)
        }
    }
}

} // verus!
