//! Walks over the graph: types through typing features, specialization,
//! featuring, and the library package around an element.
use crate::derive_base::{refs_ok, refs_view, Derivation, RefV, Reference, DV};
use crate::derive_lists::{
    empty_els, empty_refs, get_nth_ref, holds, join, join_refs, make_unit, nth_ref, unit, unite,
    unite_refs, united, united_refs,
};
use crate::rstate::{
    false_count, lemma_false_count_bound, lemma_false_count_update, lemma_false_positive,
};
use crate::state::{all_below, below};
use vstd::prelude::*;

verus! {

fn unmarked(n: usize) -> (r: Vec<bool>)
    ensures
        r@ == Seq::new(n as nat, |i: int| false),
{
    let mut r: Vec<bool> = Vec::new();
    while r.len() < n
        invariant
            r@.len() <= n,
            forall|i: int| 0 <= i < r@.len() ==> !r@[i],
        decreases n - r@.len(),
    {
        r.push(false);
    }
    assert(r@ =~= Seq::new(n as nat, |i: int| false));
    r
}

impl DV {
    /// Whether a library package owns an element, directly or not; the walk
    /// goes up through carriers and owning relationships.
    pub open spec fn in_library_package(self, e: usize) -> bool
        decreases e,
    {
        if self.is_type(e, "LibraryPackage"@) {
            true
        } else {
            match self.carrier(e) {
                Some(c) => c < e && self.in_library_package(c),
                None => match self.owning(e) {
                    Some(o) => o < e && self.in_library_package(o),
                    None => false,
                },
            }
        }
    }

    /// The children of relationships from `k` on.
    pub open spec fn children_from(self, s: Seq<usize>, k: int) -> Seq<usize>
        decreases s.len() - k,
        when 0 <= k
    {
        if k >= s.len() {
            Seq::empty()
        } else {
            self.children(s[k]) + self.children_from(s, k + 1)
        }
    }

    /// The elements that relationships own, in order.
    pub open spec fn all_children(self, s: Seq<usize>) -> Seq<usize> {
        self.children_from(s, 0)
    }

    /// The types of the features on the stack and of those they take types
    /// from.
    pub open spec fn types_from(
        self,
        out: Seq<RefV>,
        stack: Seq<usize>,
        seen: Seq<bool>,
        fuel: nat,
    ) -> Seq<RefV>
        decreases fuel, stack.len(),
    {
        if stack.len() == 0 {
            out
        } else {
            let f = stack.last();
            let rest = stack.drop_last();
            if f >= seen.len() || seen[f as int] {
                self.types_from(out, rest, seen, fuel)
            } else if fuel == 0 {
                out
            } else {
                self.types_from(
                    united_refs(out, self.own_types(f)),
                    rest + self.typing_features(f),
                    seen.update(f as int, true),
                    (fuel - 1) as nat,
                )
            }
        }
    }

    /// The types of a feature: those of its typings and, transitively, of
    /// the features it subsets and of the end of its chain.
    #[verifier::opaque]
    pub open spec fn types(self, e: usize) -> Seq<RefV> {
        self.types_from(Seq::empty(), seq![e], Seq::new(self.n(), |i: int| false), self.n())
    }

    /// Whether a type follows from those on the stack over specializations.
    pub open spec fn specializes_from(
        self,
        stack: Seq<usize>,
        seen: Seq<bool>,
        general: usize,
        fuel: nat,
    ) -> bool
        decreases fuel, stack.len(),
    {
        if stack.len() == 0 {
            false
        } else {
            let x = stack.last();
            let rest = stack.drop_last();
            if x == general {
                true
            } else if x >= seen.len() || seen[x as int] {
                self.specializes_from(rest, seen, general, fuel)
            } else if fuel == 0 {
                false
            } else {
                self.specializes_from(
                    rest + self.direct_generals(x),
                    seen.update(x as int, true),
                    general,
                    (fuel - 1) as nat,
                )
            }
        }
    }

    /// Whether a type specializes another, or is it.
    #[verifier::opaque]
    pub open spec fn specializes(self, t: usize, general: usize) -> bool {
        self.specializes_from(seq![t], Seq::new(self.n(), |i: int| false), general, self.n())
    }

    /// The types that feature a feature, along at most `fuel` chain links.
    pub open spec fn featuring_within(self, f: usize, fuel: nat) -> Seq<usize>
        decreases fuel,
    {
        let own = united(
            unit(self.owning_type(f)),
            self.targets(self.owned_of_kind(f, "TypeFeaturing"@), "featuringType"@),
        );
        if fuel == 0 {
            own
        } else {
            match nth_ref(self.chaining_features(f), 0) {
                Some(RefV::Element(first)) => united(own, self.featuring_within(first, (fuel - 1) as nat)),
                _ => own,
            }
        }
    }

    /// The types that feature a feature: its owner, its type featurings, and
    /// what features the first link of its chain.
    #[verifier::opaque]
    pub open spec fn featuring_types(self, f: usize) -> Seq<usize> {
        self.featuring_within(f, 32)
    }

    /// What features an element: nothing, where it is no feature.
    #[verifier::opaque]
    pub open spec fn featured_by(self, x: usize) -> Seq<usize> {
        if self.is_kind(x, "Feature"@) {
            self.featuring_types(x)
        } else {
            Seq::empty()
        }
    }
}

/// The elements of a list from `k` on that are not marked yet, each once.
pub open spec fn unseen(s: Seq<usize>, seen: Seq<bool>, k: int) -> Seq<usize>
    decreases s.len() - k,
    when 0 <= k
{
    if k >= s.len() {
        Seq::empty()
    } else if s[k] < seen.len() && !seen[s[k] as int] {
        seq![s[k]] + unseen(s, seen.update(s[k] as int, true), k + 1)
    } else {
        unseen(s, seen, k + 1)
    }
}

pub open spec fn marked(s: Seq<usize>, seen: Seq<bool>, k: int) -> Seq<bool>
    decreases s.len() - k,
    when 0 <= k
{
    if k >= s.len() {
        seen
    } else if s[k] < seen.len() && !seen[s[k] as int] {
        marked(s, seen.update(s[k] as int, true), k + 1)
    } else {
        marked(s, seen, k + 1)
    }
}

impl DV {
    /// The closure of featuring from a frontier; each element is expanded
    /// once, and `fuel` bounds how many are.
    pub open spec fn featuring_from(
        self,
        out: Seq<usize>,
        frontier: Seq<usize>,
        seen: Seq<bool>,
        fuel: nat,
    ) -> Seq<usize>
        decreases fuel,
    {
        if frontier.len() == 0 || fuel == 0 {
            out
        } else {
            let next = self.featured_by(frontier.last());
            self.featuring_from(
                united(out, next),
                frontier.drop_last() + unseen(next, seen, 0),
                marked(next, seen, 0),
                (fuel - 1) as nat,
            )
        }
    }

    /// Every type that features the roots, directly or through what features
    /// those.
    #[verifier::opaque]
    pub open spec fn featuring_closure(self, roots: Seq<usize>) -> Seq<usize> {
        self.featuring_from(
            Seq::empty(),
            roots,
            marked(roots, Seq::new(self.n(), |i: int| false), 0),
            self.n() + roots.len(),
        )
    }

    /// Whether a type specializes every type of a list from `k` on.
    pub open spec fn specializes_all(self, t: usize, s: Seq<usize>, k: int) -> bool
        decreases s.len() - k,
        when 0 <= k
    {
        k >= s.len() || (self.specializes(t, s[k]) && self.specializes_all(t, s, k + 1))
    }

    /// Whether a type specializes the owner of a variable feature.
    #[verifier::opaque]
    pub open spec fn varies_within(self, f: usize, t: usize) -> bool {
        self.flag(f, "isVariable"@) && match self.owning_type(f) {
            Some(o) => self.specializes(t, o),
            None => false,
        }
    }

    /// Whether a feature is featured within a type.
    #[verifier::opaque]
    pub open spec fn featured_within(self, f: usize, t: usize) -> bool {
        ||| self.specializes_all(t, self.featuring_types(f), 0)
        ||| self.varies_within(f, t)
        ||| match nth_ref(self.chaining_features(f), 0) {
            Some(RefV::Element(first)) => self.varies_within(first, t),
            _ => false,
        }
    }

    pub open spec fn all_featured_within(self, fs: Seq<usize>, t: usize, k: int) -> bool
        decreases fs.len() - k,
        when 0 <= k
    {
        k >= fs.len() || (self.featured_within(fs[k], t) && self.all_featured_within(fs, t, k + 1))
    }

    /// The types of a list from `k` on within which all features are
    /// featured.
    pub open spec fn common_types(self, fs: Seq<usize>, ts: Seq<usize>, k: int) -> Seq<usize>
        decreases ts.len() - k,
        when 0 <= k
    {
        if k >= ts.len() {
            Seq::empty()
        } else if self.all_featured_within(fs, ts[k], 0) {
            seq![ts[k]] + self.common_types(fs, ts, k + 1)
        } else {
            self.common_types(fs, ts, k + 1)
        }
    }

    /// Whether another type of the list from `k` on is featured by `t`.
    pub open spec fn is_outer(self, ts: Seq<usize>, t: usize, k: int) -> bool
        decreases ts.len() - k,
        when 0 <= k
    {
        k < ts.len() && ((ts[k] != t && self.featuring_closure(seq![ts[k]]).contains(t))
            || self.is_outer(ts, t, k + 1))
    }

    /// The first type from `k` on that is outer to no other.
    pub open spec fn innermost(self, ts: Seq<usize>, k: int) -> Option<usize>
        decreases ts.len() - k,
        when 0 <= k
    {
        if k >= ts.len() {
            None
        } else if self.is_outer(ts, ts[k], 0) {
            self.innermost(ts, k + 1)
        } else {
            Some(ts[k])
        }
    }

    /// The innermost type within which all related features are featured;
    /// none where one of them lies outside the model.
    #[verifier::opaque]
    pub open spec fn default_featuring_type(self, e: usize) -> Option<usize> {
        let refs = self.related_features(e);
        let fs = self.elements(refs);
        if fs.len() != refs.len() || fs.len() == 0 {
            None
        } else {
            self.innermost(self.common_types(fs, self.featuring_closure(fs), 0), 0)
        }
    }

    /// The types of features from `k` on, one after the other.
    pub open spec fn types_of_from(self, s: Seq<usize>, k: int) -> Seq<RefV>
        decreases s.len() - k,
        when 0 <= k
    {
        if k >= s.len() {
            Seq::empty()
        } else {
            self.types(s[k]) + self.types_of_from(s, k + 1)
        }
    }

    /// The types that an association relates, end by end.
    #[verifier::opaque]
    pub open spec fn related_types(self, e: usize) -> Seq<RefV> {
        self.types_of_from(self.ends(self.features(e)), 0)
    }

    /// The stakeholders of concerns from `k` on.
    pub open spec fn stakeholders_from(self, s: Seq<usize>, k: int) -> Seq<usize>
        decreases s.len() - k,
        when 0 <= k
    {
        if k >= s.len() {
            Seq::empty()
        } else {
            self.members_via(s[k], "StakeholderMembership"@) + self.stakeholders_from(s, k + 1)
        }
    }

    /// The stakeholders of the concerns a viewpoint frames.
    #[verifier::opaque]
    pub open spec fn viewpoint_stakeholders(self, e: usize) -> Seq<usize> {
        self.stakeholders_from(self.members_via(e, "FramedConcernMembership"@), 0)
    }
}

impl Derivation {
    pub fn total(&self) -> (r: usize)
        ensures
            r == self@.n(),
    {
        proof {
            reveal(Derivation::view);
        }
        self.graph.element_count()
    }

    /// Whether a library package owns an element, directly or not.
    pub fn in_library_package(&self, e: usize) -> (r: bool)
        requires
            self.ok(),
            e < self@.n(),
        ensures
            r == self@.in_library_package(e),
        decreases e,
    {
        if self.is_type(e, "LibraryPackage") {
            return true;
        }
        match self.carrier(e) {
            Some(c) => self.in_library_package(c),
            None => match self.owning(e) {
                Some(o) => self.in_library_package(o),
                None => false,
            },
        }
    }

    /// The elements that relationships own, in order.
    pub fn all_children(&self, s: &Vec<usize>) -> (r: Vec<usize>)
        requires
            self.ok(),
            all_below(s@, self@.n()),
        ensures
            r@ == self@.all_children(s@),
            all_below(r@, self@.n()),
    {
        let mut out: Vec<usize> = Vec::new();
        let n: usize = s.len();
        let mut k: usize = 0;
        let ghost whole = self@.all_children(s@);
        assert(out@ + whole =~= whole);
        while k < n
            invariant
                self.ok(),
                all_below(s@, self@.n()),
                n == s@.len(),
                k <= n,
                all_below(out@, self@.n()),
                out@ + self@.children_from(s@, k as int) == whole,
            decreases n - k,
        {
            let more: Vec<usize> = self.children(s[k]);
            let ghost before = out@;
            out = join(out, &more);
            assert(before + (more@ + self@.children_from(s@, k + 1)) =~= out@ + self@.children_from(
                s@,
                k + 1,
            ));
            k += 1;
        }
        assert(out@ + Seq::<usize>::empty() =~= out@);
        out
    }

    /// The types of a feature.
    pub fn types(&self, e: usize) -> (r: Vec<Reference>)
        requires
            self.ok(),
            e < self@.n(),
        ensures
            refs_view(r@) == self@.types(e),
            refs_ok(refs_view(r@), self@.n()),
    {
        proof {
            reveal(DV::types);
        }
        let n: usize = self.total();
        let mut out: Vec<Reference> = empty_refs();
        let mut stack: Vec<usize> = Vec::new();
        stack.push(e);
        assert(stack@ =~= seq![e]);
        let mut seen: Vec<bool> = unmarked(n);
        let ghost mut fuel: nat = n as nat;
        proof {
            lemma_false_count_bound(seen@);
        }
        while stack.len() > 0
            invariant
                self.ok(),
                n == self@.n(),
                all_below(stack@, self@.n()),
                seen@.len() == n,
                false_count(seen@) <= fuel,
                refs_ok(refs_view(out@), self@.n()),
                self@.types(e) == self@.types_from(refs_view(out@), stack@, seen@, fuel),
            decreases fuel, stack@.len(),
        {
            let ghost whole = stack@;
            if let Some(f) = stack.pop() {
                assert(stack@ =~= whole.drop_last());
                assert(f == whole.last());
                if !seen[f] {
                    proof {
                        lemma_false_positive(seen@, f as int);
                        lemma_false_count_update(seen@, f as int, true);
                        fuel = (fuel - 1) as nat;
                    }
                    let more: Vec<Reference> = self.own_types(f);
                    out = unite_refs(out, &more);
                    let next: Vec<usize> = self.typing_features(f);
                    stack = join(stack, &next);
                    seen.set(f, true);
                }
            }
        }
        out
    }

    /// Whether a type specializes another, or is it.
    pub fn specializes(&self, t: usize, general: usize) -> (r: bool)
        requires
            self.ok(),
            t < self@.n(),
        ensures
            r == self@.specializes(t, general),
    {
        proof {
            reveal(DV::specializes);
        }
        let n: usize = self.total();
        let mut stack: Vec<usize> = Vec::new();
        stack.push(t);
        assert(stack@ =~= seq![t]);
        let mut seen: Vec<bool> = unmarked(n);
        let ghost mut fuel: nat = n as nat;
        proof {
            lemma_false_count_bound(seen@);
        }
        while stack.len() > 0
            invariant
                self.ok(),
                n == self@.n(),
                all_below(stack@, self@.n()),
                seen@.len() == n,
                false_count(seen@) <= fuel,
                self@.specializes(t, general) == self@.specializes_from(stack@, seen@, general, fuel),
            decreases fuel, stack@.len(),
        {
            let ghost whole = stack@;
            if let Some(x) = stack.pop() {
                assert(stack@ =~= whole.drop_last());
                assert(x == whole.last());
                if x == general {
                    return true;
                }
                if !seen[x] {
                    proof {
                        lemma_false_positive(seen@, x as int);
                        lemma_false_count_update(seen@, x as int, true);
                        fuel = (fuel - 1) as nat;
                    }
                    let next: Vec<usize> = self.direct_generals(x);
                    stack = join(stack, &next);
                    seen.set(x, true);
                }
            }
        }
        false
    }

    fn featuring_within(&self, f: usize, fuel: u8) -> (r: Vec<usize>)
        requires
            self.ok(),
            f < self@.n(),
        ensures
            r@ == self@.featuring_within(f, fuel as nat),
            all_below(r@, self@.n()),
        decreases fuel,
    {
        let own: Vec<usize> = unite(
            make_unit(self.owning_type(f)),
            &self.targets(&self.owned_of_kind(f, "TypeFeaturing"), "featuringType"),
        );
        if fuel == 0 {
            return own;
        }
        match get_nth_ref(&self.chaining_features(f), 0) {
            Some(Reference::Element(first)) => {
                let more: Vec<usize> = self.featuring_within(first, fuel - 1);
                unite(own, &more)
            },
            _ => own,
        }
    }

    /// The types that feature a feature.
    pub fn featuring_types(&self, f: usize) -> (r: Vec<usize>)
        requires
            self.ok(),
            f < self@.n(),
        ensures
            r@ == self@.featuring_types(f),
            all_below(r@, self@.n()),
    {
        proof {
            reveal(DV::featuring_types);
        }
        self.featuring_within(f, 32)
    }

    fn featured_by(&self, x: usize) -> (r: Vec<usize>)
        requires
            self.ok(),
            x < self@.n(),
        ensures
            r@ == self@.featured_by(x),
            all_below(r@, self@.n()),
    {
        proof {
            reveal(DV::featured_by);
        }
        if self.is_kind(x, "Feature") {
            self.featuring_types(x)
        } else {
            empty_els()
        }
    }

    fn featuring_closure(&self, roots: &Vec<usize>) -> (r: Vec<usize>)
        requires
            self.ok(),
            all_below(roots@, self@.n()),
        ensures
            r@ == self@.featuring_closure(roots@),
            all_below(r@, self@.n()),
    {
        proof {
            reveal(DV::featuring_closure);
        }
        let n: usize = self.total();
        let mut out: Vec<usize> = empty_els();
        let mut seen: Vec<bool> = unmarked(n);
        let none: Vec<usize> = empty_els();
        let _again: Vec<usize> = push_unseen(none, roots, &mut seen);
        let mut frontier: Vec<usize> = join(empty_els(), roots);
        assert(frontier@ =~= roots@);
        let mut fuel: u128 = n as u128 + roots.len() as u128;
        while frontier.len() > 0 && fuel > 0
            invariant
                self.ok(),
                n == self@.n(),
                all_below(frontier@, self@.n()),
                seen@.len() == n,
                all_below(out@, self@.n()),
                self@.featuring_closure(roots@) == self@.featuring_from(
                    out@,
                    frontier@,
                    seen@,
                    fuel as nat,
                ),
            decreases fuel,
        {
            let ghost whole = frontier@;
            if let Some(x) = frontier.pop() {
                assert(frontier@ =~= whole.drop_last());
                assert(x == whole.last());
                let next: Vec<usize> = self.featured_by(x);
                out = unite(out, &next);
                frontier = push_unseen(frontier, &next, &mut seen);
            }
            fuel -= 1;
        }
        out
    }

    fn specializes_all(&self, t: usize, s: &Vec<usize>) -> (r: bool)
        requires
            self.ok(),
            t < self@.n(),
        ensures
            r == self@.specializes_all(t, s@, 0),
    {
        let n: usize = s.len();
        let mut k: usize = 0;
        while k < n
            invariant
                self.ok(),
                t < self@.n(),
                n == s@.len(),
                k <= n,
                self@.specializes_all(t, s@, 0) == self@.specializes_all(t, s@, k as int),
            decreases n - k,
        {
            if !self.specializes(t, s[k]) {
                return false;
            }
            k += 1;
        }
        true
    }

    fn varies_within(&self, f: usize, t: usize) -> (r: bool)
        requires
            self.ok(),
            f < self@.n(),
            t < self@.n(),
        ensures
            r == self@.varies_within(f, t),
    {
        proof {
            reveal(DV::varies_within);
        }
        if !self.flag(f, "isVariable") {
            return false;
        }
        match self.owning_type(f) {
            Some(o) => self.specializes(t, o),
            None => false,
        }
    }

    /// Whether a feature is featured within a type.
    pub fn featured_within(&self, f: usize, t: usize) -> (r: bool)
        requires
            self.ok(),
            f < self@.n(),
            t < self@.n(),
        ensures
            r == self@.featured_within(f, t),
    {
        proof {
            reveal(DV::featured_within);
        }
        if self.specializes_all(t, &self.featuring_types(f)) || self.varies_within(f, t) {
            return true;
        }
        match get_nth_ref(&self.chaining_features(f), 0) {
            Some(Reference::Element(first)) => self.varies_within(first, t),
            _ => false,
        }
    }

    fn all_featured_within(&self, fs: &Vec<usize>, t: usize) -> (r: bool)
        requires
            self.ok(),
            all_below(fs@, self@.n()),
            t < self@.n(),
        ensures
            r == self@.all_featured_within(fs@, t, 0),
    {
        let n: usize = fs.len();
        let mut k: usize = 0;
        while k < n
            invariant
                self.ok(),
                all_below(fs@, self@.n()),
                t < self@.n(),
                n == fs@.len(),
                k <= n,
                self@.all_featured_within(fs@, t, 0) == self@.all_featured_within(fs@, t, k as int),
            decreases n - k,
        {
            if !self.featured_within(fs[k], t) {
                return false;
            }
            k += 1;
        }
        true
    }

    fn common_types(&self, fs: &Vec<usize>, ts: &Vec<usize>) -> (r: Vec<usize>)
        requires
            self.ok(),
            all_below(fs@, self@.n()),
            all_below(ts@, self@.n()),
        ensures
            r@ == self@.common_types(fs@, ts@, 0),
            all_below(r@, self@.n()),
    {
        let mut out: Vec<usize> = Vec::new();
        let n: usize = ts.len();
        let mut k: usize = 0;
        let ghost whole = self@.common_types(fs@, ts@, 0);
        assert(out@ + whole =~= whole);
        while k < n
            invariant
                self.ok(),
                all_below(fs@, self@.n()),
                all_below(ts@, self@.n()),
                n == ts@.len(),
                k <= n,
                all_below(out@, self@.n()),
                out@ + self@.common_types(fs@, ts@, k as int) == whole,
            decreases n - k,
        {
            let t: usize = ts[k];
            if self.all_featured_within(fs, t) {
                let ghost before = out@;
                out.push(t);
                assert(before + (seq![t] + self@.common_types(fs@, ts@, k + 1)) =~= out@
                    + self@.common_types(fs@, ts@, k + 1));
            }
            k += 1;
        }
        assert(out@ + Seq::<usize>::empty() =~= out@);
        out
    }

    fn is_outer(&self, ts: &Vec<usize>, t: usize) -> (r: bool)
        requires
            self.ok(),
            all_below(ts@, self@.n()),
        ensures
            r == self@.is_outer(ts@, t, 0),
    {
        let n: usize = ts.len();
        let mut k: usize = 0;
        while k < n
            invariant
                self.ok(),
                all_below(ts@, self@.n()),
                n == ts@.len(),
                k <= n,
                self@.is_outer(ts@, t, 0) == self@.is_outer(ts@, t, k as int),
            decreases n - k,
        {
            if ts[k] != t {
                let mut one: Vec<usize> = Vec::new();
                one.push(ts[k]);
                assert(one@ =~= seq![ts@[k as int]]);
                if holds(&self.featuring_closure(&one), t) {
                    return true;
                }
            }
            k += 1;
        }
        false
    }

    /// The innermost type within which all features that a connector relates
    /// are featured.
    pub fn default_featuring_type(&self, e: usize) -> (r: Option<usize>)
        requires
            self.ok(),
            e < self@.n(),
        ensures
            r == self@.default_featuring_type(e),
            below(r, self@.n()),
    {
        proof {
            reveal(DV::default_featuring_type);
        }
        let refs: Vec<Reference> = self.related_features(e);
        let fs: Vec<usize> = self.elements(&refs);
        assert(refs_view(refs@).len() == refs@.len());
        if fs.len() != refs.len() || fs.len() == 0 {
            return None;
        }
        let ts: Vec<usize> = self.common_types(&fs, &self.featuring_closure(&fs));
        let n: usize = ts.len();
        let mut k: usize = 0;
        while k < n
            invariant
                self.ok(),
                all_below(ts@, self@.n()),
                n == ts@.len(),
                k <= n,
                self@.default_featuring_type(e) == self@.innermost(ts@, 0),
                self@.innermost(ts@, 0) == self@.innermost(ts@, k as int),
            decreases n - k,
        {
            if !self.is_outer(&ts, ts[k]) {
                return Some(ts[k]);
            }
            k += 1;
        }
        None
    }

    /// The types that an association relates, end by end.
    pub fn related_types(&self, e: usize) -> (r: Vec<Reference>)
        requires
            self.ok(),
            e < self@.n(),
        ensures
            refs_view(r@) == self@.related_types(e),
            refs_ok(refs_view(r@), self@.n()),
    {
        proof {
            reveal(DV::related_types);
        }
        let s: Vec<usize> = self.ends(&self.features(e));
        let mut out: Vec<Reference> = empty_refs();
        let n: usize = s.len();
        let mut k: usize = 0;
        let ghost whole = self@.types_of_from(s@, 0);
        assert(refs_view(out@) + whole =~= whole);
        while k < n
            invariant
                self.ok(),
                all_below(s@, self@.n()),
                n == s@.len(),
                k <= n,
                refs_ok(refs_view(out@), self@.n()),
                refs_view(out@) + self@.types_of_from(s@, k as int) == whole,
            decreases n - k,
        {
            let more: Vec<Reference> = self.types(s[k]);
            let ghost before = refs_view(out@);
            out = join_refs(out, &more);
            assert(before + (refs_view(more@) + self@.types_of_from(s@, k + 1)) =~= refs_view(out@)
                + self@.types_of_from(s@, k + 1));
            k += 1;
        }
        assert(refs_view(out@) + Seq::<RefV>::empty() =~= refs_view(out@));
        out
    }

    /// The stakeholders of the concerns a viewpoint frames.
    pub fn viewpoint_stakeholders(&self, e: usize) -> (r: Vec<usize>)
        requires
            self.ok(),
            e < self@.n(),
        ensures
            r@ == self@.viewpoint_stakeholders(e),
            all_below(r@, self@.n()),
    {
        proof {
            reveal(DV::viewpoint_stakeholders);
        }
        let s: Vec<usize> = self.members_via(e, "FramedConcernMembership");
        let mut out: Vec<usize> = empty_els();
        let n: usize = s.len();
        let mut k: usize = 0;
        let ghost whole = self@.stakeholders_from(s@, 0);
        assert(out@ + whole =~= whole);
        while k < n
            invariant
                self.ok(),
                all_below(s@, self@.n()),
                n == s@.len(),
                k <= n,
                all_below(out@, self@.n()),
                out@ + self@.stakeholders_from(s@, k as int) == whole,
            decreases n - k,
        {
            let more: Vec<usize> = self.members_via(s[k], "StakeholderMembership");
            let ghost before = out@;
            out = join(out, &more);
            assert(before + (more@ + self@.stakeholders_from(s@, k + 1)) =~= out@
                + self@.stakeholders_from(s@, k + 1));
            k += 1;
        }
        assert(out@ + Seq::<usize>::empty() =~= out@);
        out
    }
}

/// Appends what of a list is not marked yet, and marks it.
fn push_unseen(frontier: Vec<usize>, s: &Vec<usize>, seen: &mut Vec<bool>) -> (r: Vec<usize>)
    requires
        all_below(s@, old(seen)@.len()),
        all_below(frontier@, old(seen)@.len()),
    ensures
        r@ == frontier@ + unseen(s@, old(seen)@, 0),
        final(seen)@ == marked(s@, old(seen)@, 0),
        final(seen)@.len() == old(seen)@.len(),
        all_below(r@, old(seen)@.len()),
{
    let mut out: Vec<usize> = frontier;
    let n: usize = s.len();
    let mut k: usize = 0;
    while k < n
        invariant
            n == s@.len(),
            k <= n,
            all_below(s@, old(seen)@.len()),
            seen@.len() == old(seen)@.len(),
            all_below(out@, old(seen)@.len()),
            out@ + unseen(s@, seen@, k as int) == frontier@ + unseen(s@, old(seen)@, 0),
            marked(s@, seen@, k as int) == marked(s@, old(seen)@, 0),
        decreases n - k,
    {
        let x: usize = s[k];
        if !seen[x] {
            let ghost before = out@;
            let ghost m = seen@.update(x as int, true);
            out.push(x);
            seen.set(x, true);
            assert(before + (seq![x] + unseen(s@, m, k + 1)) =~= out@ + unseen(s@, m, k + 1));
        }
        k += 1;
    }
    assert(out@ + Seq::<usize>::empty() =~= out@);
    out
}

} // verus!
