//! What a claim of satisfaction carries: everything that the requirement and
//! what it specializes ask for.
use crate::ast::{QnV, TargetV};
use crate::constraints::{
    body_of, constraint_at, first_body, in_source_order, inherited_body,
    law_constraints_come_in_source_order, nearest_from,
};
use crate::derive_walks::{marked, unseen};
use crate::linking::LV;
use crate::naming_ids::is_membership;
use crate::resolution::{resolve, supers, supers_from};
use crate::rpure::with_new_spec;
use crate::rstate::{
    false_count, lemma_false_count_bound, lemma_false_count_update, lemma_false_positive, RV,
};
use crate::satisfaction::{
    claimed, claims_from, closure_from, collect, collect_constraint, collect_members, collect_requirement, collect_types,
    deciding_body, expanded, explicit_closure, is_constraint_member, is_member_of, members_from,
    members_under, referenced, scope_or, subjects_from, SatV, SatisfactionV,
};
use crate::state::BV;
use vstd::prelude::*;

verus! {

/// Whether a record says what an element is typed by, specializes, subsets or
/// redefines.
pub open spec fn goes_up(g: BV, i: int) -> bool {
    let kind = g.spec_targets[i].kind;
    kind == "FeatureTyping"@ || kind == "Subclassification"@ || kind == "Subsetting"@ || kind
        == "Redefinition"@
}

/// Whether an element is written to specialize another, which its reference
/// was resolved to.
pub open spec fn specializes(b: RV, e: usize, t: usize) -> bool {
    exists|i: int|
        0 <= i < b.g.spec_targets.len() && (#[trigger] b.g.spec_targets[i]).elem == e && goes_up(b.g, i)
            && b.resolved[i] == Some(t) && t != e
}

/// Whether every specialization of a model was resolved.
pub open spec fn settled(b: RV) -> bool {
    forall|i: int|
        0 <= i < b.g.spec_targets.len() && #[trigger] goes_up(b.g, i) ==> b.resolved[i] is Some
}

/// Whether one of the records from `i` on says that an element specializes
/// another.
spec fn specializes_from(b: RV, e: usize, t: usize, i: int) -> bool {
    exists|j: int|
        i <= j < b.g.spec_targets.len() && (#[trigger] b.g.spec_targets[j]).elem == e && goes_up(b.g, j)
            && b.resolved[j] == Some(t) && t != e
}

proof fn lemma_supers_from(b: RV, m: nat, e: usize, i: int, acc: Seq<usize>)
    requires
        settled(b),
        0 <= i,
    ensures
        supers_from(b.g, b, m, e, i, acc).0 == b,
        forall|t: usize|
            #[trigger] supers_from(b.g, b, m, e, i, acc).1.contains(t) <==> acc.contains(t)
                || specializes_from(b, e, t, i),
    decreases b.g.spec_targets.len() - i,
{
    let g = b.g;
    if i < g.spec_targets.len() {
        let up = g.spec_targets[i].elem == e && goes_up(g, i);
        let next = if up {
            with_new_spec(acc, b.resolved[i], e)
        } else {
            acc
        };
        lemma_supers_from(b, m, e, i + 1, next);
        assert(supers_from(g, b, m, e, i, acc) == supers_from(g, b, m, e, i + 1, next));
        assert forall|t: usize|
            #[trigger] supers_from(g, b, m, e, i, acc).1.contains(t) <==> acc.contains(t)
                || specializes_from(b, e, t, i) by {
            let here = up && b.resolved[i] == Some(t) && t != e;
            assert(specializes_from(b, e, t, i) <==> here || specializes_from(b, e, t, i + 1)) by {
                if here {
                    assert(g.spec_targets[i].elem == e);
                }
                if specializes_from(b, e, t, i) {
                    let j = choose|j: int|
                        i <= j < g.spec_targets.len() && (#[trigger] g.spec_targets[j]).elem == e
                            && goes_up(g, j) && b.resolved[j] == Some(t) && t != e;
                    assert(j == i || i + 1 <= j);
                }
            }
            assert(next.contains(t) <==> acc.contains(t) || here) by {
                if up {
                    let u = b.resolved[i]->0;
                    if u != e && !acc.contains(u) {
                        assert(next == acc.push(u));
                        if acc.contains(t) {
                            let q = choose|q: int| 0 <= q < acc.len() && acc[q] == t;
                            assert(next[q] == t);
                        }
                        if here {
                            assert(next[acc.len() as int] == t);
                        }
                    }
                }
            }
        }
    }
}

/// What an element is written to specialize is found, and nothing else.
pub proof fn law_specializations_are_found(b: RV, m: nat, e: usize, t: usize)
    requires
        settled(b),
    ensures
        supers(b.g, b, m, e).1.contains(t) <==> specializes(b, e, t),
        supers(b.g, b, m, e).0 == b,
{
    lemma_supers_from(b, m, e, 0, Seq::empty());
    assert(specializes_from(b, e, t, 0) <==> specializes(b, e, t));
    assert(!Seq::<usize>::empty().contains(t));
}

/// The start, or what one of some elements specializes.
spec fn comes_from(b: RV, start: usize, out: Seq<usize>, t: usize) -> bool {
    t == start || exists|k: int| 0 <= k < out.len() && specializes(b, #[trigger] out[k], t)
}

proof fn lemma_comes_from_more(b: RV, start: usize, out: Seq<usize>, t: usize, x: usize)
    requires
        comes_from(b, start, out, t),
    ensures
        comes_from(b, start, out.push(x), t),
{
    if t != start {
        let k = choose|k: int| 0 <= k < out.len() && specializes(b, #[trigger] out[k], t);
        assert(out.push(x)[k] == out[k]);
    }
}

#[verifier::spinoff_prover]
#[verifier::rlimit(40)]
proof fn lemma_closure(
    b: RV,
    start: usize,
    stack: Seq<usize>,
    seen: Seq<bool>,
    out: Seq<usize>,
    fuel: nat,
)
    requires
        settled(b),
        seen.len() == b.n(),
        false_count(seen) <= fuel,
        forall|t: usize| #[trigger] out.contains(t) <==> t < seen.len() && seen[t as int],
        forall|t: usize, u: usize|
            out.contains(t) && #[trigger] specializes(b, t, u) && b.lib_boundary <= u < b.n()
                ==> out.contains(u) || stack.contains(u),
        forall|k: int| 0 <= k < stack.len() ==> comes_from(b, start, out, #[trigger] stack[k]),
        forall|k: int|
            0 <= k < out.len() ==> comes_from(b, start, out, #[trigger] out[k]) && out[k]
                >= b.lib_boundary,
    ensures
        ({
            let (c, all) = closure_from(b, stack, seen, out, fuel);
            &&& c == b
            &&& forall|t: usize| #[trigger] out.contains(t) ==> all.contains(t)
            &&& forall|t: usize|
                #[trigger] stack.contains(t) && b.lib_boundary <= t < b.n() ==> all.contains(t)
            &&& forall|t: usize, u: usize|
                all.contains(t) && #[trigger] specializes(b, t, u) && b.lib_boundary <= u < b.n()
                    ==> all.contains(u)
            &&& forall|k: int|
                0 <= k < all.len() ==> comes_from(b, start, all, #[trigger] all[k]) && all[k]
                    >= b.lib_boundary
        }),
    decreases fuel, stack.len(),
{
    if stack.len() > 0 {
        let t = stack.last();
        let rest = stack.drop_last();
        assert forall|x: usize| #[trigger] stack.contains(x) implies x == t || rest.contains(x) by {
            let q = choose|q: int| 0 <= q < stack.len() && stack[q] == x;
            if q < rest.len() {
                assert(rest[q] == x);
            }
        }
        if t >= seen.len() || seen[t as int] || t < b.lib_boundary {
            assert forall|x: usize, u: usize|
                out.contains(x) && #[trigger] specializes(b, x, u) && b.lib_boundary <= u < b.n()
                implies out.contains(u) || rest.contains(u) by {
                assert(out.contains(u) || stack.contains(u));
            }
            assert forall|k: int| 0 <= k < rest.len() implies comes_from(
                b,
                start,
                out,
                #[trigger] rest[k],
            ) by {
                assert(rest[k] == stack[k]);
            }
            lemma_closure(b, start, rest, seen, out, fuel);
            let all = closure_from(b, stack, seen, out, fuel).1;
            assert(all == closure_from(b, rest, seen, out, fuel).1);
            assert forall|x: usize|
                #[trigger] stack.contains(x) && b.lib_boundary <= x < b.n() implies all.contains(x) by {
                if x == t {
                    assert(out.contains(t));
                } else {
                    assert(rest.contains(x));
                }
            }
        } else {
            lemma_false_positive(seen, t as int);
            lemma_false_count_update(seen, t as int, true);
            law_specializations_are_found(b, b.open_count(), t, t);
            let list = supers(b.g, b, b.open_count(), t).1;
            let seen2 = seen.update(t as int, true);
            let out2 = out.push(t);
            let stack2 = rest + list;
            assert forall|x: usize| #[trigger] out2.contains(x) <==> x < seen2.len() && seen2[x as int] by {
                if out.contains(x) {
                    let q = choose|q: int| 0 <= q < out.len() && out[q] == x;
                    assert(out2[q] == x);
                }
                assert(out2[out.len() as int] == t);
            }
            assert forall|x: usize, u: usize|
                out2.contains(x) && #[trigger] specializes(b, x, u) && b.lib_boundary <= u < b.n()
                implies out2.contains(u) || stack2.contains(u) by {
                law_specializations_are_found(b, b.open_count(), t, u);
                if x == t {
                    let q = choose|q: int| 0 <= q < list.len() && list[q] == u;
                    assert(stack2[rest.len() + q] == u);
                } else {
                    assert(out.contains(x));
                    assert(out.contains(u) || stack.contains(u));
                    if out.contains(u) {
                        let q = choose|q: int| 0 <= q < out.len() && out[q] == u;
                        assert(out2[q] == u);
                    } else if u == t {
                        assert(out2[out.len() as int] == t);
                    } else {
                        let q = choose|q: int| 0 <= q < rest.len() && rest[q] == u;
                        assert(stack2[q] == u);
                    }
                }
            }
            assert forall|k: int| 0 <= k < stack2.len() implies comes_from(
                b,
                start,
                out2,
                #[trigger] stack2[k],
            ) by {
                if k < rest.len() {
                    assert(stack2[k] == stack[k]);
                    lemma_comes_from_more(b, start, out, stack[k], t);
                } else {
                    let u = stack2[k];
                    assert(list[k - rest.len()] == u);
                    law_specializations_are_found(b, b.open_count(), t, u);
                    assert(specializes(b, out2[out.len() as int], u));
                }
            }
            assert forall|k: int| 0 <= k < out2.len() implies comes_from(
                b,
                start,
                out2,
                #[trigger] out2[k],
            ) && out2[k] >= b.lib_boundary by {
                if k < out.len() {
                    assert(out2[k] == out[k]);
                    lemma_comes_from_more(b, start, out, out[k], t);
                } else {
                    assert(stack[stack.len() - 1] == t);
                    lemma_comes_from_more(b, start, out, t, t);
                }
            }
            lemma_closure(b, start, stack2, seen2, out2, (fuel - 1) as nat);
            let all = closure_from(b, stack, seen, out, fuel).1;
            assert(all == closure_from(b, stack2, seen2, out2, (fuel - 1) as nat).1);
            assert forall|x: usize| #[trigger] out.contains(x) implies all.contains(x) by {
                let q = choose|q: int| 0 <= q < out.len() && out[q] == x;
                assert(out2[q] == x);
                assert(out2.contains(x));
            }
            assert forall|x: usize|
                #[trigger] stack.contains(x) && b.lib_boundary <= x < b.n() implies all.contains(x) by {
                if x == t {
                    assert(out2[out.len() as int] == t);
                    assert(out2.contains(x));
                } else {
                    let q = choose|q: int| 0 <= q < rest.len() && rest[q] == x;
                    assert(stack2[q] == x);
                    assert(stack2.contains(x));
                }
            }
        }
    }
}

/// The closure of a user's element holds the element and, with each element,
/// every user's element that this one specializes; and nothing that is neither
/// the element nor specialized by another one of the closure.
pub proof fn law_closures_follow_specializations(b: RV, start: usize)
    requires
        settled(b),
        b.lib_boundary <= start < b.n(),
    ensures
        ({
            let (c, all) = explicit_closure(b, start);
            &&& c == b
            &&& all.contains(start)
            &&& forall|t: usize, u: usize|
                all.contains(t) && #[trigger] specializes(b, t, u) && b.lib_boundary <= u < b.n()
                    ==> all.contains(u)
            &&& forall|k: int|
                0 <= k < all.len() ==> #[trigger] all[k] >= b.lib_boundary && (all[k] == start
                    || exists|j: int|
                    0 <= j < all.len() && specializes(b, #[trigger] all[j], all[k]))
        }),
{
    reveal(explicit_closure);
    let seen = Seq::new(b.n(), |i: int| false);
    lemma_false_count_bound(seen);
    assert(seq![start][0] == start);
    assert(seq![start].contains(start));
    lemma_closure(b, start, seq![start], seen, Seq::empty(), b.n());
    let all = explicit_closure(b, start).1;
    assert forall|k: int| 0 <= k < all.len() implies #[trigger] all[k] >= b.lib_boundary && (all[k]
        == start || exists|j: int| 0 <= j < all.len() && specializes(b, #[trigger] all[j], all[k])) by {
        assert(comes_from(b, start, all, all[k]));
    }
}

proof fn lemma_closure_keeps(
    b: RV,
    stack: Seq<usize>,
    seen: Seq<bool>,
    out: Seq<usize>,
    fuel: nat,
)
    requires
        settled(b),
    ensures
        closure_from(b, stack, seen, out, fuel).0 == b,
    decreases fuel, stack.len(),
{
    if stack.len() > 0 {
        let t = stack.last();
        let rest = stack.drop_last();
        if t >= seen.len() || seen[t as int] || t < b.lib_boundary {
            lemma_closure_keeps(b, rest, seen, out, fuel);
        } else if fuel > 0 {
            law_specializations_are_found(b, b.open_count(), t, t);
            let list = supers(b.g, b, b.open_count(), t).1;
            lemma_closure_keeps(
                b,
                rest + list,
                seen.update(t as int, true),
                out.push(t),
                (fuel - 1) as nat,
            );
        }
    }
}

proof fn lemma_nearest_keeps(b: RV, queue: Seq<usize>, seen: Seq<bool>, last: bool, fuel: nat)
    requires
        settled(b),
    ensures
        nearest_from(b, queue, seen, last, fuel).0 == b,
    decreases fuel,
{
    if !(queue.len() == 0 || fuel == 0) && body_of(b.g, queue[0], last) is None {
        law_specializations_are_found(b, b.open_count(), queue[0], queue[0]);
        let list = supers(b.g, b, b.open_count(), queue[0]).1;
        lemma_nearest_keeps(
            b,
            queue.drop_first() + unseen(list, seen, 0),
            marked(list, seen, 0),
            last,
            (fuel - 1) as nat,
        );
    }
}

proof fn lemma_deciding_keeps(b: RV, m: usize)
    requires
        settled(b),
    ensures
        deciding_body(b, m).0 == b,
        body_of(b.g, m, false) matches Some(k) ==> deciding_body(b, m).1 == Some((m, k)),
{
    reveal(deciding_body);
    reveal(inherited_body);
    law_specializations_are_found(b, b.open_count(), m, m);
    let list = supers(b.g, b, b.open_count(), m).1;
    lemma_nearest_keeps(b, list, marked(list, Seq::new(b.n(), |i: int| false), 0), false, 256);
}

/// Whether a user's constraint is told wherever it was looked at.
spec fn told(s: SatV, x: usize, k: int) -> bool {
    forall|scope: usize|
        #[trigger] s.seen.contains((x, scope)) ==> s.out.contains(
            constraint_at(s.l, x, k, x, true, scope),
        )
}

/// What collecting keeps: the model, and all that was told of it.
spec fn goes_on(a: SatV, b: SatV, x: usize, k: int) -> bool {
    &&& b.l == a.l
    &&& a.seen.is_prefix_of(b.seen)
    &&& a.out.is_prefix_of(b.out)
    &&& told(a, x, k) ==> told(b, x, k)
}

/// A constraint of the user's with a body, which no other element refers to.
pub open spec fn stands_alone(l: LV, x: usize, k: int) -> bool {
    &&& l.r.lib_boundary <= x < l.r.n()
    &&& l.r.g.elements[x as int].ty == "ConstraintUsage"@ || l.r.g.elements[x as int].ty
        == "AssertConstraintUsage"@
    &&& 0 <= k < l.r.g.result_exprs.len()
    &&& l.r.g.result_exprs[k].0 == x
    &&& forall|j: int| 0 <= j < k ==> (#[trigger] l.r.g.result_exprs[j]).0 != x
    &&& forall|m: usize| #[trigger] referenced(l.r.g, m) != Some(x)
}

proof fn lemma_first_body(g: BV, t: usize, k: int, at: int)
    requires
        0 <= k <= at < g.result_exprs.len(),
        g.result_exprs[at].0 == t,
        forall|j: int| k <= j < at ==> (#[trigger] g.result_exprs[j]).0 != t,
    ensures
        first_body(g, t, k) == Some(at),
    decreases at - k,
{
    if k < at {
        assert(g.result_exprs[k].0 != t);
        lemma_first_body(g, t, k + 1, at);
    }
}

proof fn lemma_requirement_types()
    ensures
        "ConstraintUsage"@ != "RequirementUsage"@,
        "ConstraintUsage"@ != "SatisfyRequirementUsage"@,
        "AssertConstraintUsage"@ != "RequirementUsage"@,
        "AssertConstraintUsage"@ != "SatisfyRequirementUsage"@,
{
    reveal_strlit("ConstraintUsage");
    reveal_strlit("AssertConstraintUsage");
    reveal_strlit("RequirementUsage");
    reveal_strlit("SatisfyRequirementUsage");
    assert("ConstraintUsage"@[0] != "RequirementUsage"@[0]);
    assert("ConstraintUsage"@[0] != "SatisfyRequirementUsage"@[0]);
    assert("AssertConstraintUsage"@[0] != "RequirementUsage"@[0]);
    assert("AssertConstraintUsage"@[0] != "SatisfyRequirementUsage"@[0]);
}

proof fn lemma_push_told(a: SatV, b: SatV, node: usize, scope: usize, x: usize, k: int)
    requires
        node != x,
        b == (SatV { seen: a.seen.push((node, scope)), ..a }),
    ensures
        goes_on(a, b, x, k),
{
    assert(a.seen =~= b.seen.subrange(0, a.seen.len() as int));
    assert(a.out =~= b.out.subrange(0, a.out.len() as int));
    if told(a, x, k) {
        assert forall|s: usize| #[trigger] b.seen.contains((x, s)) implies b.out.contains(
            constraint_at(b.l, x, k, x, true, s),
        ) by {
            let q = choose|q: int| 0 <= q < b.seen.len() && b.seen[q] == (x, s);
            assert(q < a.seen.len());
            assert(a.seen[q] == (x, s));
            assert(a.seen.contains((x, s)));
        }
    }
}

proof fn lemma_same(a: SatV, x: usize, k: int)
    ensures
        goes_on(a, a, x, k),
{
    assert(a.seen =~= a.seen.subrange(0, a.seen.len() as int));
    assert(a.out =~= a.out.subrange(0, a.out.len() as int));
}

proof fn lemma_then(a: SatV, b: SatV, c: SatV, x: usize, k: int)
    requires
        goes_on(a, b, x, k),
        goes_on(b, c, x, k),
    ensures
        goes_on(a, c, x, k),
{
    assert(a.seen =~= c.seen.subrange(0, a.seen.len() as int)) by {
        assert forall|i: int| 0 <= i < a.seen.len() implies a.seen[i] == c.seen[i] by {
            assert(a.seen[i] == b.seen.subrange(0, a.seen.len() as int)[i]);
            assert(b.seen[i] == c.seen.subrange(0, b.seen.len() as int)[i]);
        }
    }
    assert(a.out =~= c.out.subrange(0, a.out.len() as int)) by {
        assert forall|i: int| 0 <= i < a.out.len() implies a.out[i] == c.out[i] by {
            assert(a.out[i] == b.out.subrange(0, a.out.len() as int)[i]);
            assert(b.out[i] == c.out.subrange(0, b.out.len() as int)[i]);
        }
    }
}

proof fn lemma_collect(s: SatV, node: usize, scope: usize, fuel: nat, x: usize, k: int)
    requires
        settled(s.l.r),
        stands_alone(s.l, x, k),
        node != x,
    ensures
        goes_on(s, collect(s, node, scope, fuel), x, k),
    decreases fuel, 2int, 0int, 0int,
{
    if fuel == 0 || s.seen.contains((node, scope)) {
        lemma_same(s, x, k);
    } else {
        reveal(explicit_closure);
        lemma_closure_keeps(
            s.l.r,
            seq![node],
            Seq::new(s.l.r.n(), |i: int| false),
            Seq::empty(),
            s.l.r.n(),
        );
        let types = explicit_closure(s.l.r, node).1;
        let t = SatV { l: s.l, seen: s.seen.push((node, scope)), out: s.out };
        lemma_push_told(s, t, node, scope, x, k);
        assert(LV { r: s.l.r, ..s.l } == s.l);
        lemma_collect_types(t, node, scope, types, 0, fuel, x, k);
        lemma_then(s, t, collect_types(t, node, scope, types, 0, fuel), x, k);
    }
}

proof fn lemma_collect_types(
    s: SatV,
    node: usize,
    scope: usize,
    types: Seq<usize>,
    i: int,
    fuel: nat,
    x: usize,
    k: int,
)
    requires
        settled(s.l.r),
        stands_alone(s.l, x, k),
        0 <= i,
        fuel > 0,
    ensures
        goes_on(s, collect_types(s, node, scope, types, i, fuel), x, k),
    decreases fuel, 1int, types.len() - i, 0int,
{
    if i >= types.len() {
        lemma_same(s, x, k);
    } else {
        let ms = members_from(s.l.r.g, types[i], 0);
        let t = collect_members(s, node, scope, types[i], ms, 0, fuel);
        lemma_collect_members(s, node, scope, types[i], ms, 0, fuel, x, k);
        lemma_collect_types(t, node, scope, types, i + 1, fuel, x, k);
        lemma_then(s, t, collect_types(t, node, scope, types, i + 1, fuel), x, k);
    }
}

proof fn lemma_collect_members(
    s: SatV,
    node: usize,
    scope: usize,
    t: usize,
    members: Seq<usize>,
    j: int,
    fuel: nat,
    x: usize,
    k: int,
)
    requires
        settled(s.l.r),
        stands_alone(s.l, x, k),
        0 <= j,
        fuel > 0,
    ensures
        goes_on(s, collect_members(s, node, scope, t, members, j, fuel), x, k),
    decreases fuel, 0int, members.len() - j, 1int,
{
    lemma_requirement_types();
    if j >= members.len() {
        lemma_same(s, x, k);
    } else {
        let m = members[j];
        let g = s.l.r.g;
        let ty = g.elements[m as int].ty;
        let inner = if t == node {
            scope_or(g, m, scope)
        } else {
            scope
        };
        let r = if is_constraint_member(ty) {
            lemma_collect_constraint(s, m, inner, (fuel - 1) as nat, x, k);
            collect_constraint(s, m, inner, (fuel - 1) as nat)
        } else if ty == "RequirementUsage"@ || ty == "SatisfyRequirementUsage"@ {
            lemma_collect_requirement(s, m, scope_or(g, m, scope), (fuel - 1) as nat, x, k);
            collect_requirement(s, m, scope_or(g, m, scope), (fuel - 1) as nat)
        } else {
            lemma_same(s, x, k);
            s
        };
        lemma_collect_members(r, node, scope, t, members, j + 1, fuel, x, k);
        lemma_then(s, r, collect_members(r, node, scope, t, members, j + 1, fuel), x, k);
    }
}

proof fn lemma_collect_constraint(s: SatV, m: usize, scope: usize, fuel: nat, x: usize, k: int)
    requires
        settled(s.l.r),
        stands_alone(s.l, x, k),
    ensures
        goes_on(s, collect_constraint(s, m, scope, fuel), x, k),
        m == x ==> collect_constraint(s, m, scope, fuel).seen.contains((x, scope)),
    decreases fuel, 3int, 0int, 0int,
{
    if s.seen.contains((m, scope)) {
        lemma_same(s, x, k);
    } else {
        lemma_deciding_keeps(s.l.r, m);
        let hit = deciding_body(s.l.r, m).1;
        let t = SatV { l: s.l, seen: s.seen.push((m, scope)), out: s.out };
        assert(LV { r: s.l.r, ..s.l } == s.l);
        let r = collect_constraint(s, m, scope, fuel);
        if m == x {
            lemma_first_body(s.l.r.g, x, 0, k);
            assert(hit == Some((x, k)));
            let c = constraint_at(s.l, x, k, x, true, scope);
            assert(r == (SatV { out: t.out.push(c), ..t }));
            assert(r.seen[s.seen.len() as int] == (x, scope));
            assert(s.seen =~= r.seen.subrange(0, s.seen.len() as int));
            assert(s.out =~= r.out.subrange(0, s.out.len() as int));
            if told(s, x, k) {
                assert forall|sc: usize| #[trigger] r.seen.contains((x, sc)) implies r.out.contains(
                    constraint_at(r.l, x, k, x, true, sc),
                ) by {
                    let q = choose|q: int| 0 <= q < r.seen.len() && r.seen[q] == (x, sc);
                    if q < s.seen.len() {
                        assert(s.seen[q] == (x, sc));
                        assert(s.seen.contains((x, sc)));
                        let w = constraint_at(s.l, x, k, x, true, sc);
                        let p = choose|p: int| 0 <= p < s.out.len() && s.out[p] == w;
                        assert(r.out[p] == w);
                    } else {
                        assert(r.out[s.out.len() as int] == c);
                    }
                }
            }
        } else {
            lemma_push_told(s, t, m, scope, x, k);
            match hit {
                Some((def, b)) => {
                    if def < s.l.r.lib_boundary {
                    } else {
                        let c = constraint_at(s.l, m, b, def, true, scope);
                        assert(r == (SatV { out: t.out.push(c), ..t }));
                        assert(t.seen =~= r.seen.subrange(0, t.seen.len() as int));
                        assert(t.out =~= r.out.subrange(0, t.out.len() as int));
                        if told(t, x, k) {
                            assert forall|sc: usize| #[trigger] r.seen.contains((x, sc)) implies r.out.contains(
                                constraint_at(r.l, x, k, x, true, sc),
                            ) by {
                                assert(t.seen.contains((x, sc)));
                                let w = constraint_at(s.l, x, k, x, true, sc);
                                let p = choose|p: int| 0 <= p < t.out.len() && t.out[p] == w;
                                assert(r.out[p] == w);
                            }
                        }
                        lemma_then(s, t, r, x, k);
                    }
                },
                None => match referenced(t.l.r.g, m) {
                    Some(n) => {
                        lemma_collect(t, n, scope, fuel, x, k);
                        lemma_then(s, t, collect(t, n, scope, fuel), x, k);
                    },
                    None => {},
                },
            }
        }
    }
}

proof fn lemma_collect_requirement(s: SatV, m: usize, scope: usize, fuel: nat, x: usize, k: int)
    requires
        settled(s.l.r),
        stands_alone(s.l, x, k),
        m != x,
    ensures
        goes_on(s, collect_requirement(s, m, scope, fuel), x, k),
    decreases fuel, 3int, 0int, 0int,
{
    let t = collect(s, m, scope, fuel);
    lemma_collect(s, m, scope, fuel, x, k);
    match referenced(t.l.r.g, m) {
        Some(n) => {
            lemma_collect(t, n, scope, fuel, x, k);
            lemma_then(s, t, collect(t, n, scope, fuel), x, k);
        },
        None => {},
    }
}

proof fn lemma_prefix_contains<T>(a: Seq<T>, b: Seq<T>, v: T)
    requires
        a.is_prefix_of(b),
        a.contains(v),
    ensures
        b.contains(v),
{
    let q = choose|q: int| 0 <= q < a.len() && a[q] == v;
    assert(b.subrange(0, a.len() as int)[q] == v);
    assert(b[q] == v);
}

proof fn lemma_members_reach(
    s: SatV,
    node: usize,
    scope: usize,
    t: usize,
    members: Seq<usize>,
    j: int,
    at: int,
    fuel: nat,
    x: usize,
    k: int,
)
    requires
        settled(s.l.r),
        stands_alone(s.l, x, k),
        0 <= j <= at < members.len(),
        members[at] == x,
        fuel > 0,
    ensures
        exists|sc: usize|
            #[trigger] collect_members(s, node, scope, t, members, j, fuel).seen.contains((x, sc)),
    decreases members.len() - j,
{
    lemma_requirement_types();
    let m = members[j];
    let g = s.l.r.g;
    let ty = g.elements[m as int].ty;
    let inner = if t == node {
        scope_or(g, m, scope)
    } else {
        scope
    };
    let r = if is_constraint_member(ty) {
        lemma_collect_constraint(s, m, inner, (fuel - 1) as nat, x, k);
        collect_constraint(s, m, inner, (fuel - 1) as nat)
    } else if ty == "RequirementUsage"@ || ty == "SatisfyRequirementUsage"@ {
        lemma_collect_requirement(s, m, scope_or(g, m, scope), (fuel - 1) as nat, x, k);
        collect_requirement(s, m, scope_or(g, m, scope), (fuel - 1) as nat)
    } else {
        lemma_same(s, x, k);
        s
    };
    let done = collect_members(s, node, scope, t, members, j, fuel);
    assert(done == collect_members(r, node, scope, t, members, j + 1, fuel));
    lemma_collect_members(r, node, scope, t, members, j + 1, fuel, x, k);
    if j == at {
        lemma_prefix_contains(r.seen, done.seen, (x, inner));
        assert(done.seen.contains((x, inner)));
    } else {
        lemma_members_reach(r, node, scope, t, members, j + 1, at, fuel, x, k);
    }
}

proof fn lemma_members_hold(g: BV, t: usize, i: int, x: usize)
    requires
        0 <= i <= x < g.n(),
        g.n() <= usize::MAX,
        is_member_of(g, x as int, t),
    ensures
        members_from(g, t, i).contains(x),
    decreases x - i,
{
    let all = members_from(g, t, i);
    let rest = members_from(g, t, i + 1);
    if i == x {
        assert(all[0] == x);
    } else {
        lemma_members_hold(g, t, i + 1, x);
        let q = choose|q: int| 0 <= q < rest.len() && rest[q] == x;
        if is_member_of(g, i, t) {
            assert(all == seq![i as usize] + rest);
            assert(all[q + 1] == x);
        }
    }
}

proof fn lemma_types_reach(
    s: SatV,
    node: usize,
    scope: usize,
    types: Seq<usize>,
    i: int,
    at: int,
    fuel: nat,
    x: usize,
    k: int,
)
    requires
        settled(s.l.r),
        stands_alone(s.l, x, k),
        s.l.r.n() <= usize::MAX,
        0 <= i <= at < types.len(),
        is_member_of(s.l.r.g, x as int, types[at]),
        fuel > 0,
    ensures
        exists|sc: usize|
            #[trigger] collect_types(s, node, scope, types, i, fuel).seen.contains((x, sc)),
    decreases types.len() - i,
{
    let ms = members_from(s.l.r.g, types[i], 0);
    let t = collect_members(s, node, scope, types[i], ms, 0, fuel);
    let done = collect_types(s, node, scope, types, i, fuel);
    lemma_collect_members(s, node, scope, types[i], ms, 0, fuel, x, k);
    lemma_collect_types(t, node, scope, types, i + 1, fuel, x, k);
    assert(done == collect_types(t, node, scope, types, i + 1, fuel));
    if i == at {
        lemma_members_hold(s.l.r.g, types[i], 0, x);
        let q = choose|q: int| 0 <= q < ms.len() && ms[q] == x;
        lemma_members_reach(s, node, scope, types[i], ms, 0, q, fuel, x, k);
        let sc = choose|sc: usize| #[trigger] t.seen.contains((x, sc));
        lemma_prefix_contains(t.seen, done.seen, (x, sc));
        assert(done.seen.contains((x, sc)));
    } else {
        lemma_types_reach(t, node, scope, types, i + 1, at, fuel, x, k);
    }
}

proof fn lemma_under_holds(g: BV, t: usize, ty: Seq<char>, i: int, x: usize)
    requires
        0 <= i <= x < g.n(),
        g.n() <= usize::MAX,
        g.elements[x as int].owning is Some,
        g.elements[g.elements[x as int].owning->0 as int].carrier == Some(t),
        g.elements[g.elements[x as int].owning->0 as int].ty == ty,
    ensures
        members_under(g, t, ty, i).contains(x),
    decreases x - i,
{
    let all = members_under(g, t, ty, i);
    let rest = members_under(g, t, ty, i + 1);
    if i == x {
        assert(all[0] == x);
    } else {
        lemma_under_holds(g, t, ty, i + 1, x);
        let q = choose|q: int| 0 <= q < rest.len() && rest[q] == x;
        if all != rest {
            assert(all == seq![i as usize] + rest);
            assert(all[q + 1] == x);
        }
    }
}

proof fn lemma_subjects_hold(g: BV, types: Seq<usize>, i: int, at: int, x: usize)
    requires
        0 <= i <= at < types.len(),
        members_under(g, types[at], "SubjectMembership"@, 0).contains(x),
    ensures
        subjects_from(g, types, i).contains(x),
    decreases at - i,
{
    let here = members_under(g, types[i], "SubjectMembership"@, 0);
    let rest = subjects_from(g, types, i + 1);
    let all = subjects_from(g, types, i);
    assert(all == here + rest);
    if i == at {
        let q = choose|q: int| 0 <= q < here.len() && here[q] == x;
        assert(all[q] == x);
    } else {
        lemma_subjects_hold(g, types, i + 1, at, x);
        let q = choose|q: int| 0 <= q < rest.len() && rest[q] == x;
        assert(all[here.len() + q] == x);
    }
}

/// A claim on a requirement carries the constraints of the requirement and of
/// every user's element that it specializes, directly or over others: each
/// constraint with a body that one of them owns, which no other element refers
/// to.
#[verifier::rlimit(40)]
pub proof fn law_claims_carry_inherited_constraints(
    l: LV,
    sat: usize,
    scope: usize,
    req: usize,
    bound: usize,
    t: usize,
    r: usize,
    x: usize,
    k: int,
)
    requires
        settled(l.r),
        l.r.n() <= usize::MAX,
        l.r.lib_boundary <= req < l.r.n(),
        x != req,
        explicit_closure(l.r, req).1.contains(t),
        stands_alone(l, x, k),
        l.r.g.elements[x as int].owning == Some(r),
        l.r.g.elements[r as int].carrier == Some(t),
        is_membership(l.r.g.elements[r as int].ty),
    ensures
        ({
            let found = expanded(l, sat, scope, req, bound).1.constraints;
            exists|i: int|
                0 <= i < found.len() && (#[trigger] found[i]).element == x && found[i].expr
                    == l.r.g.result_exprs[k].2
        }),
{
    broadcast use vstd::seq_lib::group_to_multiset_ensures;

    reveal(expanded);
    law_closures_follow_specializations(l.r, req);
    let types = explicit_closure(l.r, req).1;
    assert(LV { r: l.r, ..l } == l);
    let s0 = SatV { l, seen: Seq::empty(), out: Seq::empty() };
    let at = scope_or(l.r.g, req, scope);
    let s1 = SatV { l, seen: s0.seen.push((req, at)), out: Seq::empty() };
    let done = collect(s0, req, at, 9);
    assert(done == collect_types(s1, req, at, types, 0, 9));
    let q = choose|q: int| 0 <= q < types.len() && types[q] == t;
    lemma_collect(s0, req, at, 9, x, k);
    assert(told(s0, x, k));
    lemma_types_reach(s1, req, at, types, 0, q, 9, x, k);
    let sc = choose|sc: usize| #[trigger] done.seen.contains((x, sc));
    let c = constraint_at(l, x, k, x, true, sc);
    assert(done.out.contains(c));
    let n = done.out.len() as int;
    law_constraints_come_in_source_order(done.out, n);
    assert(done.out.take(n) =~= done.out);
    let found = in_source_order(done.out, n);
    assert(done.out.to_multiset().count(c) > 0);
    assert(found.contains(c));
    let i = choose|i: int| 0 <= i < found.len() && found[i] == c;
    assert(expanded(l, sat, scope, req, bound).1.constraints == found);
    assert(found[i].element == x && found[i].expr == l.r.g.result_exprs[k].2);
}

/// A claim on a requirement names the subjects of the requirement and of every
/// user's element that it specializes, and who is claimed to satisfy it.
pub proof fn law_claims_name_inherited_subjects(
    l: LV,
    sat: usize,
    scope: usize,
    req: usize,
    bound: usize,
    t: usize,
    r: usize,
    x: usize,
)
    requires
        settled(l.r),
        l.r.n() <= usize::MAX,
        l.r.lib_boundary <= req < l.r.n(),
        explicit_closure(l.r, req).1.contains(t),
        x < l.r.n(),
        l.r.g.elements[x as int].owning == Some(r),
        l.r.g.elements[r as int].carrier == Some(t),
        l.r.g.elements[r as int].ty == "SubjectMembership"@,
    ensures
        expanded(l, sat, scope, req, bound).1.subjects.contains(x),
        expanded(l, sat, scope, req, bound).1.bound == bound,
        expanded(l, sat, scope, req, bound).1.satisfy == sat,
{
    reveal(expanded);
    law_closures_follow_specializations(l.r, req);
    let types = explicit_closure(l.r, req).1;
    assert(LV { r: l.r, ..l } == l);
    let q = choose|q: int| 0 <= q < types.len() && types[q] == t;
    lemma_under_holds(l.r.g, t, "SubjectMembership"@, 0, x);
    lemma_subjects_hold(l.r.g, types, 0, q, x);
}

/// A user's claim that names a requirement and something that satisfies it is
/// told, with that requirement's demands and bound to what satisfies it; one of
/// the library's is not.
pub proof fn law_claims_are_bound_to_what_they_name(l: LV, g: BV, req: usize, qn: QnV)
    requires
        g.satisfy_by.len() == 1,
        referenced(g, g.satisfy_by[0].elem) == Some(req),
        g.satisfy_by[0].by == TargetV::Name(qn),
    ensures
        ({
            let c = g.satisfy_by[0];
            let found = claims_from(l, g, 0).1;
            let (b, hit) = resolve(l.r.g, l.r, l.r.open_count(), c.scope, qn, 0);
            if c.elem < l.r.lib_boundary {
                found.len() == 0
            } else {
                match hit {
                    Some(bound) => {
                        &&& found.len() == 1
                        &&& found[0] == expanded(LV { r: b, ..l }, c.elem, c.scope, req, bound).1
                    },
                    None => found.len() == 0,
                }
            }
        }),
{
    reveal(claimed);
    let c = g.satisfy_by[0];
    let (b, hit) = resolve(l.r.g, l.r, l.r.open_count(), c.scope, qn, 0);
    assert(claims_from(l, g, 1) == (l, Seq::<SatisfactionV>::empty()));
    if c.elem >= l.r.lib_boundary {
        assert(claimed(l.r, c.scope, c.by) == (b, hit));
        let m = LV { r: b, ..l };
        match hit {
            Some(bound) => {
                let (n, x) = expanded(m, c.elem, c.scope, req, bound);
                assert(claims_from(n, g, 1) == (n, Seq::<SatisfactionV>::empty()));
                assert(claims_from(l, g, 0).1 == seq![x] + Seq::<SatisfactionV>::empty());
            },
            None => {
                assert(claims_from(m, g, 1) == (m, Seq::<SatisfactionV>::empty()));
            },
        }
    }
}

} // verus!
