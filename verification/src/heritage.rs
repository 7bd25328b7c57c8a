//! What an element is declared to specialize, and its members by name.
use crate::ast::{Name, QnV, QualifiedName, Span};
use crate::derive_lists::holds;
use crate::queries::bare_name;
use crate::resolution;
use crate::rpure::{with_new, with_new_spec};
use crate::rstate::{
    false_count, lemma_false_count_bound, lemma_false_count_update, lemma_false_positive,
    LookupResult, Resolver, RV,
};
use crate::state::{all_below, below, Builder};
use crate::text::str_eq;
use vstd::prelude::*;

verus! {

/// A specialization edge: the metaclass of the relationship, and its target.
pub struct SpecializationEdge {
    pub kind: &'static str,
    pub target: usize,
}

pub open spec fn edges_view(s: Seq<SpecializationEdge>) -> Seq<(Seq<char>, usize)> {
    s.map_values(|x: SpecializationEdge| (x.kind@, x.target))
}

/// The list with a further edge, unless it has it or the edge is a loop.
pub open spec fn with_edge(
    acc: Seq<(Seq<char>, usize)>,
    kind: Seq<char>,
    t: Option<usize>,
    e: usize,
) -> Seq<(Seq<char>, usize)> {
    match t {
        Some(x) => if x == e || acc.contains((kind, x)) {
            acc
        } else {
            acc.push((kind, x))
        },
        None => acc,
    }
}

/// The edges of `e` from the `i`-th record on: the recorded outcome of each,
/// or else what its name resolves to now.
pub open spec fn edges_from(
    b: RV,
    e: usize,
    i: int,
    acc: Seq<(Seq<char>, usize)>,
) -> (RV, Seq<(Seq<char>, usize)>)
    decreases b.g.spec_targets.len() - i,
    when 0 <= i
{
    if i >= b.g.spec_targets.len() {
        (b, acc)
    } else if b.g.spec_elem(i) != e || !b.g.spec_is_upward(i) {
        edges_from(b, e, i + 1, acc)
    } else {
        match b.resolved[i] {
            Some(t) => edges_from(b, e, i + 1, with_edge(acc, b.g.spec_targets[i].kind, Some(t), e)),
            None => {
                let (c, t) = resolution::resolve(
                    b.g,
                    b,
                    b.open_count(),
                    b.g.spec_scope(i),
                    b.g.spec_qn(i),
                    0,
                );
                if c.g == b.g {
                    edges_from(c, e, i + 1, with_edge(acc, b.g.spec_targets[i].kind, t, e))
                } else {
                    (c, acc)
                }
            },
        }
    }
}

/// The typing and specialization edges of an element.
#[verifier::opaque]
pub open spec fn edges(b: RV, e: usize) -> (RV, Seq<(Seq<char>, usize)>) {
    edges_from(b, e, 0, Seq::empty())
}

/// The targets of the edges of one kind, from `k` on.
pub open spec fn targets_of_kind(s: Seq<(Seq<char>, usize)>, kind: Seq<char>, k: int) -> Seq<usize>
    decreases s.len() - k,
    when 0 <= k
{
    if k >= s.len() {
        Seq::empty()
    } else if s[k].0 == kind {
        seq![s[k].1] + targets_of_kind(s, kind, k + 1)
    } else {
        targets_of_kind(s, kind, k + 1)
    }
}

/// The recorded targets of the redefinitions of `e` from the `i`-th record
/// on, each once. A redefinition that was not linked has none.
pub open spec fn redefined_from(b: RV, e: usize, i: int, acc: Seq<usize>) -> Seq<usize>
    decreases b.g.spec_targets.len() - i,
    when 0 <= i
{
    if i >= b.g.spec_targets.len() {
        acc
    } else if b.g.spec_elem(i) != e || !b.g.spec_is(i, "Redefinition"@) {
        redefined_from(b, e, i + 1, acc)
    } else {
        redefined_from(b, e, i + 1, with_new_spec(acc, b.resolved[i], e))
    }
}

/// A member of an element by its name, as a step of a feature chain finds it.
#[verifier::opaque]
pub open spec fn member_named(b: RV, e: usize, qn: QnV) -> (RV, Option<usize>) {
    let sub = b.g.elem_scope(e);
    let origin = match sub {
        Some(s) => s,
        None => 0,
    };
    let (c, hit) = resolution::resolve_rest(
        b.g,
        b,
        b.open_count(),
        origin,
        e,
        sub,
        qn,
        0,
        0,
        false,
    );
    (
        c,
        match hit {
            LookupResult::Found(x, _) => Some(x),
            _ => None,
        },
    )
}

fn add_edge(acc: &mut Vec<SpecializationEdge>, kind: &'static str, t: Option<usize>, e: usize)
    ensures
        edges_view(final(acc)@) == with_edge(edges_view(old(acc)@), kind@, t, e),
        forall|n: nat| #[trigger] edges_below(edges_view(old(acc)@), n) && below(t, n) ==> edges_below(
            edges_view(final(acc)@),
            n,
        ),
{
    if let Some(x) = t {
        if x == e {
            return;
        }
        let n: usize = acc.len();
        let mut k: usize = 0;
        while k < n
            invariant
                n == acc@.len(),
                acc@ == old(acc)@,
                k <= n,
                x != e,
                t == Some(x),
                forall|j: int| 0 <= j < k ==> #[trigger] edges_view(acc@)[j] != (kind@, x),
            decreases n - k,
        {
            assert(edges_view(acc@)[k as int] == (acc@[k as int].kind@, acc@[k as int].target));
            if acc[k].target == x && str_eq(acc[k].kind, kind) {
                return;
            }
            k += 1;
        }
        let ghost before = edges_view(acc@);
        assert(!before.contains((kind@, x)));
        acc.push(SpecializationEdge { kind, target: x });
        assert(edges_view(acc@) =~= before.push((kind@, x)));
    }
}

pub open spec fn edges_below(s: Seq<(Seq<char>, usize)>, n: nat) -> bool {
    forall|i: int| 0 <= i < s.len() ==> (#[trigger] s[i]).1 < n
}

impl Resolver {
    fn spec_kind(&self, i: usize) -> (r: &'static str)
        requires
            i < self@.g.spec_targets.len(),
        ensures
            r@ == self@.g.spec_targets[i as int].kind,
    {
        proof {
            reveal(Resolver::view);
            reveal(Builder::view);
        }
        self.graph.spec_targets[i].kind
    }

    /// The scope of the model's root namespace.
    pub fn root_scope(&self) -> (r: usize)
        ensures
            r == 0,
    {
        0
    }

    /// What a name stands for in a scope.
    pub fn resolve_in(&mut self, scope: usize, qn: &QualifiedName) -> (r: Option<usize>)
        requires
            old(self)@.wf(),
            scope < old(self)@.ns(),
        ensures
            (final(self)@, r) == resolution::resolve(
                old(self)@.g,
                old(self)@,
                old(self)@.open_count(),
                scope,
                qn@,
                0,
            ),
            final(self)@.wf(),
            final(self)@.g == old(self)@.g,
            final(self)@.lib_boundary == old(self)@.lib_boundary,
            below(r, final(self)@.n()),
    {
        let ghost m = self@.open_count();
        self.resolve(Ghost(m), scope, qn, 0)
    }

    /// A member of an element by its name, with the element's body scope.
    pub fn member_of(
        &mut self,
        target: usize,
        member: &QualifiedName,
    ) -> (r: Option<(usize, Option<usize>)>)
        requires
            old(self)@.wf(),
            target < old(self)@.n(),
        ensures
            ({
                let (b, hit) = member_named(old(self)@, target, member@);
                &&& final(self)@ == b
                &&& r == (match hit {
                    Some(x) => Some((x, old(self)@.g.elem_scope(target))),
                    None => None,
                })
            }),
            final(self)@.wf(),
            final(self)@.g == old(self)@.g,
            final(self)@.lib_boundary == old(self)@.lib_boundary,
    {
        proof {
            reveal(member_named);
        }
        let sub: Option<usize> = self.body_scope(target);
        let origin: usize = match sub {
            Some(s) => s,
            None => self.root(),
        };
        let ghost m = self@.open_count();
        let hit = self.resolve_rest(Ghost(m), origin, target, sub, member, 0, 0, false);
        match hit {
            LookupResult::Found(x, _) => Some((x, sub)),
            _ => None,
        }
    }

    /// A member of an element by its simple name.
    pub fn owned_member(&mut self, owner: usize, name: &str) -> (r: Option<usize>)
        requires
            old(self)@.wf(),
            owner < old(self)@.n(),
        ensures
            (final(self)@, r) == member_named(old(self)@, owner, bare_name(seq![name@])),
            final(self)@.wf(),
            final(self)@.g == old(self)@.g,
            final(self)@.lib_boundary == old(self)@.lib_boundary,
    {
        let mut segments: Vec<Name> = Vec::new();
        segments.push(Name { value: name.to_owned(), span: Span { start: 0, end: 0 } });
        let qn = QualifiedName { is_global: false, segments, span: Span { start: 0, end: 0 } };
        assert(qn@.segments =~= bare_name(seq![name@]).segments);
        match self.member_of(owner, &qn) {
            Some((x, _)) => Some(x),
            None => None,
        }
    }

    /// What an element is explicitly typed by or specializes, each once.
    pub fn explicit_supertypes(&mut self, e: usize) -> (r: Vec<usize>)
        requires
            old(self)@.wf(),
            e < old(self)@.n(),
        ensures
            (final(self)@, r@) == resolution::supers(
                old(self)@.g,
                old(self)@,
                old(self)@.open_count(),
                e,
            ),
            final(self)@.wf(),
            final(self)@.g == old(self)@.g,
            final(self)@.lib_boundary == old(self)@.lib_boundary,
            all_below(r@, final(self)@.n()),
    {
        let ghost m = self@.open_count();
        self.supers(Ghost(m), e)
    }

    /// The explicit typings and specializations of an element, each with the
    /// metaclass of its relationship.
    pub fn explicit_specializations(&mut self, e: usize) -> (r: Vec<SpecializationEdge>)
        requires
            old(self)@.wf(),
            e < old(self)@.n(),
        ensures
            (final(self)@, edges_view(r@)) == edges(old(self)@, e),
            final(self)@.wf(),
            final(self)@.g == old(self)@.g,
            final(self)@.lib_boundary == old(self)@.lib_boundary,
            edges_below(edges_view(r@), final(self)@.n()),
    {
        proof {
            reveal(edges);
        }
        let n: usize = self.spec_count();
        let mut acc: Vec<SpecializationEdge> = Vec::new();
        let mut i: usize = 0;
        let ghost whole = edges(old(self)@, e);
        assert(edges_view(acc@) =~= Seq::<(Seq<char>, usize)>::empty());
        while i < n
            invariant
                i <= n,
                n == self@.g.spec_targets.len(),
                e < self@.n(),
                self@.wf(),
                self@.g == old(self)@.g,
                self@.lib_boundary == old(self)@.lib_boundary,
                edges_below(edges_view(acc@), self@.n()),
                edges_from(self@, e, i as int, edges_view(acc@)) == whole,
            decreases n - i,
        {
            if self.spec_elem(i) == e && self.spec_is_upward(i) {
                let kind: &'static str = self.spec_kind(i);
                let known = self.read_resolved(i);
                if let Some(t) = known {
                    add_edge(&mut acc, kind, Some(t), e);
                } else {
                    let qn = self.spec_qn(i);
                    let scope: usize = self.spec_scope(i);
                    let ghost m = self@.open_count();
                    let t = self.resolve(Ghost(m), scope, &qn, 0);
                    add_edge(&mut acc, kind, t, e);
                }
            }
            i += 1;
        }
        acc
    }

    /// What an element is explicitly typed by.
    pub fn typings(&mut self, e: usize) -> (r: Vec<usize>)
        requires
            old(self)@.wf(),
            e < old(self)@.n(),
        ensures
            ({
                let (b, s) = edges(old(self)@, e);
                &&& final(self)@ == b
                &&& r@ == targets_of_kind(s, "FeatureTyping"@, 0)
            }),
            final(self)@.wf(),
            final(self)@.g == old(self)@.g,
            final(self)@.lib_boundary == old(self)@.lib_boundary,
    {
        let s: Vec<SpecializationEdge> = self.explicit_specializations(e);
        let ghost sv = edges_view(s@);
        let mut out: Vec<usize> = Vec::new();
        let n: usize = s.len();
        let mut k: usize = 0;
        let ghost whole = targets_of_kind(sv, "FeatureTyping"@, 0);
        assert(out@ + whole =~= whole);
        while k < n
            invariant
                n == s@.len(),
                sv == edges_view(s@),
                k <= n,
                out@ + targets_of_kind(sv, "FeatureTyping"@, k as int) == whole,
            decreases n - k,
        {
            let x: &SpecializationEdge = &s[k];
            assert(sv[k as int] == (x.kind@, x.target));
            if str_eq(x.kind, "FeatureTyping") {
                let ghost before = out@;
                let ghost rest = targets_of_kind(sv, "FeatureTyping"@, k + 1);
                out.push(x.target);
                assert(before + (seq![x.target] + rest) =~= out@ + rest);
            }
            k += 1;
        }
        assert(out@ + Seq::<usize>::empty() =~= out@);
        out
    }

    /// What an element explicitly redefines, as it was linked.
    pub fn redefinition_targets(&self, e: usize) -> (r: Vec<usize>)
        requires
            self@.wf(),
            e < self@.n(),
        ensures
            r@ == redefined_from(self@, e, 0, Seq::empty()),
            all_below(r@, self@.n()),
    {
        let n: usize = self.spec_count();
        let mut acc: Vec<usize> = Vec::new();
        let mut i: usize = 0;
        assert(acc@ =~= Seq::<usize>::empty());
        while i < n
            invariant
                i <= n,
                n == self@.g.spec_targets.len(),
                self@.wf(),
                all_below(acc@, self@.n()),
                redefined_from(self@, e, i as int, acc@) == redefined_from(self@, e, 0, Seq::empty()),
            decreases n - i,
        {
            if self.spec_elem(i) == e && self.spec_is(i, "Redefinition") {
                let t = self.read_resolved(i);
                acc = with_new(acc, t, e);
            }
            i += 1;
        }
        acc
    }
}

/// The walk up from the elements on the stack, over what they specialize
/// explicitly and over the base types of their semantic metadata.
pub open spec fn conforms_from(
    b: RV,
    stack: Seq<usize>,
    seen: Seq<bool>,
    target: usize,
    fuel: nat,
) -> (RV, bool)
    decreases fuel, stack.len(),
{
    if stack.len() == 0 {
        (b, false)
    } else {
        let x = stack.last();
        let rest = stack.drop_last();
        if x >= seen.len() || seen[x as int] {
            conforms_from(b, rest, seen, target, fuel)
        } else if fuel == 0 {
            (b, false)
        } else {
            let (b, list) = resolution::supers(b.g, b, b.open_count(), x);
            if list.contains(target) {
                (b, true)
            } else {
                let (b, bases) = resolution::semantic_targets(b.g, b, b.open_count(), x);
                if bases.contains(target) {
                    (b, true)
                } else {
                    conforms_from(
                        b,
                        rest + list + bases,
                        seen.update(x as int, true),
                        target,
                        (fuel - 1) as nat,
                    )
                }
            }
        }
    }
}

/// Whether an element reaches another one over its explicit specializations
/// and the base types of semantic metadata.
#[verifier::opaque]
pub open spec fn conforms(b: RV, e: usize, target: usize) -> (RV, bool) {
    if e == target {
        (b, true)
    } else {
        conforms_from(b, seq![e], Seq::new(b.n(), |i: int| false), target, b.n())
    }
}

impl Resolver {
    /// Whether an element specializes another one, be it through the base
    /// type of its semantic metadata.
    pub fn conforms(&mut self, e: usize, ancestor: usize) -> (r: bool)
        requires
            old(self)@.wf(),
            e < old(self)@.n(),
        ensures
            (final(self)@, r) == conforms(old(self)@, e, ancestor),
            final(self)@.wf(),
            final(self)@.g == old(self)@.g,
            final(self)@.lib_boundary == old(self)@.lib_boundary,
    {
        proof {
            reveal(conforms);
        }
        if e == ancestor {
            return true;
        }
        let n: usize = self.elem_count();
        let mut seen: Vec<bool> = Vec::new();
        while seen.len() < n
            invariant
                seen@.len() <= n,
                forall|i: int| 0 <= i < seen@.len() ==> !seen@[i],
            decreases n - seen@.len(),
        {
            seen.push(false);
        }
        assert(seen@ =~= Seq::new(n as nat, |i: int| false));
        let mut stack: Vec<usize> = Vec::new();
        stack.push(e);
        assert(stack@ =~= seq![e]);
        let ghost mut fuel: nat = n as nat;
        proof {
            lemma_false_count_bound(seen@);
        }
        let ghost whole = conforms(old(self)@, e, ancestor);
        while stack.len() > 0
            invariant
                self@.wf(),
                self@.g == old(self)@.g,
                self@.lib_boundary == old(self)@.lib_boundary,
                n == self@.n(),
                all_below(stack@, self@.n()),
                seen@.len() == n,
                false_count(seen@) <= fuel,
                whole == conforms(old(self)@, e, ancestor),
                whole == conforms_from(self@, stack@, seen@, ancestor, fuel),
            decreases fuel, stack@.len(),
        {
            let ghost st = stack@;
            if let Some(x) = stack.pop() {
                assert(stack@ =~= st.drop_last());
                assert(x == st.last());
                if !seen[x] {
                    proof {
                        lemma_false_positive(seen@, x as int);
                        lemma_false_count_update(seen@, x as int, true);
                        fuel = (fuel - 1) as nat;
                    }
                    let ghost m = self@.open_count();
                    let mut list: Vec<usize> = self.supers(Ghost(m), x);
                    if holds(&list, ancestor) {
                        return true;
                    }
                    let ghost k = self@.open_count();
                    let mut bases: Vec<usize> = self.semantic_targets(Ghost(k), x);
                    if holds(&bases, ancestor) {
                        return true;
                    }
                    let ghost (lv, bv, rest) = (list@, bases@, stack@);
                    stack.append(&mut list);
                    stack.append(&mut bases);
                    assert(stack@ =~= rest + lv + bv);
                    seen.set(x, true);
                }
            }
        }
        false
    }
}

} // verus!
