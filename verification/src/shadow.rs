//! Which of several inherited hits stand: a feature that another hit
//! redefines, explicitly or by name, is not inherited beside it.

use crate::rstate::{hits_ok, LookupResult, RV, Resolver};
use crate::state::{all_below, below, BV};
use crate::text::{ends_with, has_suffix};
use vstd::prelude::*;

verus! {

/// A recorded specialization from `x` to `t`: with `redefinitions`, a
/// redefinition of another feature; otherwise any upward specialization.
pub open spec fn edge(
    g: BV,
    resolved: Seq<Option<usize>>,
    redefinitions: bool,
    x: usize,
    t: usize,
) -> bool {
    exists|i: int|
        0 <= i < g.spec_targets.len() && i < resolved.len() && edge_at(g, resolved, redefinitions, x, t, i)
}

pub open spec fn edge_at(
    g: BV,
    resolved: Seq<Option<usize>>,
    redefinitions: bool,
    x: usize,
    t: usize,
    i: int,
) -> bool {
    &&& g.spec_targets[i].elem == x
    &&& resolved[i] == Some(t)
    &&& if redefinitions {
        t != x && g.spec_targets[i].kind == "Redefinition"@
    } else {
        upward_kind(g.spec_targets[i].kind)
    }
}

/// The kinds of specialization an element's declared types are found by.
#[verifier::opaque]
pub open spec fn upward_kind(kind: Seq<char>) -> bool {
    kind == "FeatureTyping"@ || kind == "Subclassification"@ || kind == "Subsetting"@ || kind == "Redefinition"@
}

/// Consecutive elements are joined by edges.
pub open spec fn is_path(
    g: BV,
    resolved: Seq<Option<usize>>,
    redefinitions: bool,
    p: Seq<usize>,
) -> bool {
    &&& p.len() >= 1
    &&& forall|k: int| 0 <= k < p.len() - 1 ==> #[trigger] edge(g, resolved, redefinitions, p[k], p[k + 1])
}

/// `t` is `x` or follows from it over edges.
pub open spec fn reachable(
    g: BV,
    resolved: Seq<Option<usize>>,
    redefinitions: bool,
    x: usize,
    t: usize,
) -> bool {
    exists|p: Seq<usize>| #[trigger] is_path(g, resolved, redefinitions, p) && p[0] == x && p[p.len() - 1] == t
}

/// Whether some start reaches `t`.
pub open spec fn reached(
    g: BV,
    resolved: Seq<Option<usize>>,
    redefinitions: bool,
    starts: Seq<usize>,
    t: usize,
) -> bool {
    exists|k: int| 0 <= k < starts.len() && reachable(g, resolved, redefinitions, #[trigger] starts[k], t)
}

proof fn lemma_reach_step(
    g: BV,
    resolved: Seq<Option<usize>>,
    redefinitions: bool,
    x: usize,
    y: usize,
    t: usize,
)
    requires
        reachable(g, resolved, redefinitions, x, y),
        edge(g, resolved, redefinitions, y, t),
    ensures
        reachable(g, resolved, redefinitions, x, t),
{
    let p = choose|p: Seq<usize>| #[trigger] is_path(g, resolved, redefinitions, p) && p[0] == x && p[p.len() - 1] == y;
    let q = p.push(t);
    assert forall|k: int| 0 <= k < q.len() - 1 implies #[trigger] edge(g, resolved, redefinitions, q[k], q[k + 1]) by {
        if k < p.len() - 1 {
            assert(edge(g, resolved, redefinitions, p[k], p[k + 1]));
        }
    }
    assert(is_path(g, resolved, redefinitions, q));
}

proof fn lemma_reach_self(g: BV, resolved: Seq<Option<usize>>, redefinitions: bool, x: usize)
    ensures
        reachable(g, resolved, redefinitions, x, x),
{
    let p = seq![x];
    assert(is_path(g, resolved, redefinitions, p));
}

/// A set that holds `x` and is closed under edges holds all that `x`
/// reaches.
proof fn lemma_closed(
    g: BV,
    resolved: Seq<Option<usize>>,
    redefinitions: bool,
    seen: Seq<bool>,
    p: Seq<usize>,
)
    requires
        is_path(g, resolved, redefinitions, p),
        p[0] < seen.len(),
        seen[p[0] as int],
        forall|x: usize, t: usize|
            x < seen.len() && seen[x as int] && #[trigger] edge(g, resolved, redefinitions, x, t) ==> t < seen.len()
                && seen[t as int],
    ensures
        p[p.len() - 1] < seen.len(),
        seen[p[p.len() - 1] as int],
    decreases p.len(),
{
    if p.len() > 1 {
        let q = p.drop_last();
        assert(is_path(g, resolved, redefinitions, q)) by {
            assert forall|k: int| 0 <= k < q.len() - 1 implies #[trigger] edge(g, resolved, redefinitions, q[k], q[k + 1]) by {
                assert(edge(g, resolved, redefinitions, p[k], p[k + 1]));
            }
        }
        lemma_closed(g, resolved, redefinitions, seen, q);
        let k = p.len() - 2;
        assert(edge(g, resolved, redefinitions, p[k], p[k + 1]));
    }
}

/// How many elements are not seen.
pub open spec fn unseen(seen: Seq<bool>) -> nat {
    crate::rstate::false_count(seen)
}

/// The element that declares an element: the owner of the scope around its
/// body.
pub open spec fn owner_elem(g: BV, e: usize) -> Option<usize> {
    match g.elem_scope(e) {
        Some(s) => match g.scopes[s as int].parent {
            Some(p) => g.scopes[p as int].owner,
            None => None,
        },
        None => None,
    }
}

pub open spec fn found(hits: Seq<LookupResult>, e: usize) -> bool {
    exists|k: int| 0 <= k < hits.len() && (#[trigger] hits[k]).elem() == Some(e)
}

/// Another hit, or the hit itself over a cycle, redefines `t`.
pub open spec fn redefined_hit(
    g: BV,
    resolved: Seq<Option<usize>>,
    hits: Seq<LookupResult>,
    t: usize,
) -> bool {
    found(hits, t) && exists|e: usize, u: usize|
        found(hits, e) && #[trigger] edge(g, resolved, true, e, u) && #[trigger] reachable(g, resolved, true, u, t)
}

pub open spec fn standing_hit(
    g: BV,
    resolved: Seq<Option<usize>>,
    hits: Seq<LookupResult>,
    e: usize,
) -> bool {
    found(hits, e) && !redefined_hit(g, resolved, hits, e)
}

/// The owner of `x` specializes the owner of `y`, and not the other way
/// round: a usage `x` redefines `y` by its name.
pub open spec fn overrides(g: BV, resolved: Seq<Option<usize>>, x: usize, y: usize) -> bool {
    x != y && ends_with(g.ty(x), "Usage"@) && match (owner_elem(g, x), owner_elem(g, y)) {
        (Some(ox), Some(oy)) => ox != oy && reachable(g, resolved, false, ox, oy) && !reachable(
            g,
            resolved,
            false,
            oy,
            ox,
        ),
        _ => false,
    }
}

pub open spec fn overridden_hit(
    g: BV,
    resolved: Seq<Option<usize>>,
    hits: Seq<LookupResult>,
    y: usize,
) -> bool {
    standing_hit(g, resolved, hits, y) && exists|x: usize|
        standing_hit(g, resolved, hits, x) && #[trigger] overrides(g, resolved, x, y)
}

/// Whether the hits are of more than one element.
pub open spec fn several(hits: Seq<LookupResult>) -> bool {
    exists|x: usize, y: usize| #[trigger] found(hits, x) && #[trigger] found(hits, y) && x != y
}

pub open spec fn shadowed_hit(
    g: BV,
    resolved: Seq<Option<usize>>,
    hits: Seq<LookupResult>,
    h: LookupResult,
) -> bool {
    h.elem() is Some && (redefined_hit(g, resolved, hits, h.elem()->0) || overridden_hit(
        g,
        resolved,
        hits,
        h.elem()->0,
    ))
}

/// The hits that stand.
#[verifier::opaque]
pub open spec fn drop_redefined(
    g: BV,
    resolved: Seq<Option<usize>>,
    hits: Seq<LookupResult>,
) -> Seq<LookupResult> {
    if several(hits) {
        hits.filter(|h: LookupResult| !shadowed_hit(g, resolved, hits, h))
    } else {
        hits
    }
}

/// What a filter keeps was there.
proof fn lemma_filter_from(s: Seq<LookupResult>, keep: spec_fn(LookupResult) -> bool, k: int)
    requires
        0 <= k < s.filter(keep).len(),
    ensures
        s.contains(s.filter(keep)[k]),
    decreases s.len(),
{
    reveal(Seq::filter);
    if s.len() > 0 {
        let t = s.drop_last();
        if k < t.filter(keep).len() {
            lemma_filter_from(t, keep, k);
            let j = choose|j: int| 0 <= j < t.len() && t[j] == t.filter(keep)[k];
            assert(s[j] == s.filter(keep)[k]);
        } else {
            assert(s[s.len() - 1] == s.filter(keep)[k]);
        }
    }
}

/// Dropping shadowed hits adds none, and a feature that a distinct hit
/// redefines directly is dropped.
pub proof fn law_redefined_hits_are_dropped(
    g: BV,
    resolved: Seq<Option<usize>>,
    hits: Seq<LookupResult>,
    e: usize,
    t: usize,
)
    requires
        found(hits, e),
        found(hits, t),
        e != t,
        edge(g, resolved, true, e, t),
    ensures
        !found(drop_redefined(g, resolved, hits), t),
        forall|x: usize| found(drop_redefined(g, resolved, hits), x) ==> found(hits, x),
{
    reveal(drop_redefined);
    let keep = |h: LookupResult| !shadowed_hit(g, resolved, hits, h);
    let out = hits.filter(keep);
    assert(several(hits));
    broadcast use vstd::seq_lib::group_filter_ensures;

    lemma_reach_self(g, resolved, true, t);
    assert(redefined_hit(g, resolved, hits, t));
    if found(out, t) {
        let k = choose|k: int| 0 <= k < out.len() && (#[trigger] out[k]).elem() == Some(t);
        assert(out.contains(out[k]));
        assert(keep(out[k]));
    }
    assert forall|x: usize| found(out, x) implies found(hits, x) by {
        let k = choose|k: int| 0 <= k < out.len() && (#[trigger] out[k]).elem() == Some(x);
        lemma_filter_from(hits, keep, k);
        let j = choose|j: int| 0 <= j < hits.len() && hits[j] == out[k];
        assert(hits[j].elem() == Some(x));
    }
}

impl Resolver {
    /// The targets of the recorded specializations of `x`.
    fn targets(&self, redefinitions: bool, x: usize) -> (r: Vec<usize>)
        requires
            self@.wf(),
        ensures
            forall|t: usize| #[trigger] r@.contains(t) <==> edge(self@.g, self@.resolved, redefinitions, x, t),
            all_below(r@, self@.n()),
    {
        let n: usize = self.spec_count();
        let mut out: Vec<usize> = Vec::new();
        let mut i: usize = 0;
        proof {
            reveal(RV::wf);
        }
        while i < n
            invariant
                i <= n,
                n == self@.g.spec_targets.len(),
                self@.resolved.len() == n,
                self@.wf(),
                all_below(out@, self@.n()),
                forall|t: usize| #[trigger] out@.contains(t) <==> exists|j: int|
                    0 <= j < i && edge_at(self@.g, self@.resolved, redefinitions, x, t, j),
            decreases n - i,
        {
            let ghost before = out@;
            let mut hit = false;
            if self.spec_elem(i) == x {
                if let Some(t) = self.read_resolved(i) {
                    let kind = if redefinitions {
                        t != x && self.spec_is(i, "Redefinition")
                    } else {
                        self.spec_is_upward(i)
                    };
                    proof {
                        reveal(upward_kind);
                    }
                    if kind {
                        out.push(t);
                        hit = true;
                        assert(edge_at(self@.g, self@.resolved, redefinitions, x, t, i as int));
                    }
                }
            }
            proof {
                reveal(upward_kind);
                assert forall|t: usize| #[trigger] out@.contains(t) <==> exists|j: int|
                    0 <= j < i + 1 && edge_at(self@.g, self@.resolved, redefinitions, x, t, j) by {
                    if out@.contains(t) {
                        let k = choose|k: int| 0 <= k < out@.len() && out@[k] == t;
                        if k < before.len() {
                            assert(before[k] == t);
                            assert(before.contains(t));
                            let j = choose|j: int| 0 <= j < i && edge_at(self@.g, self@.resolved, redefinitions, x, t, j);
                            assert(0 <= j < i + 1);
                        } else {
                            assert(edge_at(self@.g, self@.resolved, redefinitions, x, t, i as int));
                        }
                    }
                    if exists|j: int| 0 <= j < i + 1 && edge_at(self@.g, self@.resolved, redefinitions, x, t, j) {
                        let j = choose|j: int| 0 <= j < i + 1 && edge_at(self@.g, self@.resolved, redefinitions, x, t, j);
                        if j < i {
                            assert(before.contains(t));
                            let k = choose|k: int| 0 <= k < before.len() && before[k] == t;
                            assert(out@[k] == t);
                        } else {
                            assert(hit);
                            assert(out@[out@.len() - 1] == t);
                        }
                    }
                }
            }
            i += 1;
        }
        out
    }

    /// Which elements some start reaches over recorded specializations.
    pub fn closure(&self, redefinitions: bool, starts: &Vec<usize>) -> (r: Vec<bool>)
        requires
            self@.wf(),
            all_below(starts@, self@.n()),
        ensures
            r@.len() == self@.n(),
            forall|t: usize|
                t < self@.n() ==> (#[trigger] r@[t as int] <==> reached(
                    self@.g,
                    self@.resolved,
                    redefinitions,
                    starts@,
                    t,
                )),
    {
        let ghost g = self@.g;
        let ghost res = self@.resolved;
        proof {
            reveal(Resolver::view);
        }
        let n: usize = self.graph.count();
        let mut seen: Vec<bool> = Vec::new();
        let mut i: usize = 0;
        while i < n
            invariant
                i <= n,
                seen@.len() == i,
                forall|k: int| 0 <= k < i ==> !seen@[k],
            decreases n - i,
        {
            seen.push(false);
            i += 1;
        }
        let mut stack: Vec<usize> = Vec::new();
        i = 0;
        while i < starts.len()
            invariant
                i <= starts@.len(),
                stack@ =~= starts@.subrange(0, i as int),
            decreases starts@.len() - i,
        {
            stack.push(starts[i]);
            i += 1;
            assert(starts@.subrange(0, i as int) =~= starts@.subrange(0, i - 1).push(starts@[i - 1]));
        }
        assert(starts@.subrange(0, starts@.len() as int) =~= starts@);
        proof {
            assert forall|k: int| 0 <= k < stack@.len() implies reached(g, res, redefinitions, starts@, #[trigger] stack@[k]) by {
                lemma_reach_self(g, res, redefinitions, starts@[k]);
            }
        }
        while stack.len() > 0
            invariant
                self@.wf(),
                g == self@.g,
                res == self@.resolved,
                n == self@.n(),
                seen@.len() == n,
                all_below(stack@, n as nat),
                forall|k: int| 0 <= k < stack@.len() ==> reached(g, res, redefinitions, starts@, #[trigger] stack@[k]),
                forall|x: usize| x < n && #[trigger] seen@[x as int] ==> reached(g, res, redefinitions, starts@, x),
                forall|x: usize, t: usize|
                    x < n && seen@[x as int] && #[trigger] edge(g, res, redefinitions, x, t) ==> t < n && (seen@[t as int]
                        || stack@.contains(t)),
                forall|k: int| 0 <= k < starts@.len() ==> #[trigger] starts@[k] < n && (seen@[starts@[k] as int]
                    || stack@.contains(starts@[k])),
            decreases unseen(seen@), stack@.len(),
        {
            let ghost stack0 = stack@;
            let ghost seen0 = seen@;
            let x: usize = stack.pop().unwrap();
            assert(x == stack0[stack0.len() - 1]);
            assert(stack@ =~= stack0.drop_last());
            if seen[x] {
                assert forall|t: usize| stack0.contains(t) && t != x implies stack@.contains(t) by {
                    let k = choose|k: int| 0 <= k < stack0.len() && stack0[k] == t;
                    assert(stack@[k] == t);
                }
            } else {
                proof {
                    crate::rstate::lemma_false_count_update(seen@, x as int, true);
                }
                seen.set(x, true);
                let more = self.targets(redefinitions, x);
                let ghost mid = stack@;
                let mut k: usize = 0;
                while k < more.len()
                    invariant
                        k <= more@.len(),
                        stack@ =~= mid + more@.subrange(0, k as int),
                    decreases more@.len() - k,
                {
                    stack.push(more[k]);
                    k += 1;
                    assert(more@.subrange(0, k as int) =~= more@.subrange(0, k - 1).push(more@[k - 1]));
                }
                assert(more@.subrange(0, more@.len() as int) =~= more@);
                assert(stack@ =~= mid + more@);
                proof {
                    assert forall|k: int| 0 <= k < stack@.len() implies reached(g, res, redefinitions, starts@, #[trigger] stack@[k]) && stack@[k] < n by {
                        if k < mid.len() {
                            assert(stack@[k] == stack0[k]);
                        } else {
                            let t = more@[k - mid.len()];
                            assert(more@.contains(t));
                            assert(edge(g, res, redefinitions, x, t));
                            assert(reached(g, res, redefinitions, starts@, x));
                            let j = choose|j: int| 0 <= j < starts@.len() && reachable(g, res, redefinitions, #[trigger] starts@[j], x);
                            lemma_reach_step(g, res, redefinitions, starts@[j], x, t);
                        }
                    }
                    assert forall|t: usize| stack0.contains(t) implies seen@[t as int] || stack@.contains(t) by {
                        let k = choose|k: int| 0 <= k < stack0.len() && stack0[k] == t;
                        if k < mid.len() {
                            assert(stack@[k] == t);
                        }
                    }
                    assert forall|y: usize, t: usize|
                        y < n && seen@[y as int] && #[trigger] edge(g, res, redefinitions, y, t) implies t < n && (
                    seen@[t as int] || stack@.contains(t)) by {
                        if y == x {
                            assert(more@.contains(t));
                            let k = choose|k: int| 0 <= k < more@.len() && more@[k] == t;
                            assert(stack@[mid.len() + k] == t);
                        } else {
                            assert(seen0[y as int]);
                        }
                    }
                }
            }
        }
        proof {
            assert forall|t: usize| t < n implies (#[trigger] seen@[t as int] <==> reached(g, res, redefinitions, starts@, t)) by {
                if reached(g, res, redefinitions, starts@, t) {
                    let j = choose|j: int| 0 <= j < starts@.len() && reachable(g, res, redefinitions, #[trigger] starts@[j], t);
                    let p = choose|p: Seq<usize>| #[trigger] is_path(g, res, redefinitions, p) && p[0] == starts@[j] && p[p.len() - 1] == t;
                    lemma_closed(g, res, redefinitions, seen@, p);
                }
            }
        }
        seen
    }

    /// Whether `sup` follows from `sub` over recorded specializations.
    pub fn recorded_conforms(&self, sub: usize, sup: usize) -> (r: bool)
        requires
            self@.wf(),
            sub < self@.n(),
            sup < self@.n(),
        ensures
            r == reachable(self@.g, self@.resolved, false, sub, sup),
    {
        let mut starts: Vec<usize> = Vec::new();
        starts.push(sub);
        let seen = self.closure(false, &starts);
        assert(reached(self@.g, self@.resolved, false, starts@, sup) <==> reachable(
            self@.g,
            self@.resolved,
            false,
            sub,
            sup,
        )) by {
            assert(starts@[0] == sub);
        }
        seen[sup]
    }

    /// The element that declares an element.
    pub fn owner_elem(&self, e: usize) -> (r: Option<usize>)
        requires
            self@.wf(),
            e < self@.n(),
        ensures
            r == owner_elem(self@.g, e),
            below(r, self@.n()),
    {
        match self.body_scope(e) {
            Some(s) => match self.scope_parent(s) {
                Some(p) => self.scope_owner(p),
                None => None,
            },
            None => None,
        }
    }

    fn overrides(&self, x: usize, y: usize) -> (r: bool)
        requires
            self@.wf(),
            x < self@.n(),
            y < self@.n(),
        ensures
            r == overrides(self@.g, self@.resolved, x, y),
    {
        proof {
            reveal(Resolver::view);
        }
        if x == y || !has_suffix(self.graph.ty(x), "Usage") {
            return false;
        }
        match (self.owner_elem(x), self.owner_elem(y)) {
            (Some(ox), Some(oy)) => ox != oy && self.recorded_conforms(ox, oy)
                && !self.recorded_conforms(oy, ox),
            _ => false,
        }
    }

    /// The distinct elements of the hits.
    fn found_elems(&self, hits: &Vec<LookupResult>) -> (r: Vec<usize>)
        requires
            self@.wf(),
            hits_ok(hits@, self@.n(), self@.ns()),
        ensures
            forall|e: usize| #[trigger] r@.contains(e) <==> found(hits@, e),
            all_below(r@, self@.n()),
            r@.no_duplicates(),
    {
        let mut out: Vec<usize> = Vec::new();
        let mut i: usize = 0;
        while i < hits.len()
            invariant
                i <= hits@.len(),
                hits_ok(hits@, self@.n(), self@.ns()),
                all_below(out@, self@.n()),
                out@.no_duplicates(),
                forall|e: usize| #[trigger] out@.contains(e) <==> exists|k: int| 0 <= k < i && (#[trigger] hits@[k]).elem() == Some(e),
            decreases hits@.len() - i,
        {
            let ghost before = out@;
            if let Some(e) = hits[i].element() {
                let mut known = false;
                let mut k: usize = 0;
                while k < out.len()
                    invariant
                        k <= out@.len(),
                        known <==> exists|j: int| 0 <= j < k && out@[j] == e,
                    decreases out@.len() - k,
                {
                    if out[k] == e {
                        known = true;
                    }
                    k += 1;
                }
                if !known {
                    assert(!out@.contains(e));
                    out.push(e);
                }
                assert(out@.contains(e)) by {
                    if known {
                        let j = choose|j: int| 0 <= j < before.len() && before[j] == e;
                        assert(out@[j] == e);
                    } else {
                        assert(out@[out@.len() - 1] == e);
                    }
                }
            }
            proof {
                assert forall|e: usize| #[trigger] out@.contains(e) <==> exists|k: int|
                    0 <= k < i + 1 && (#[trigger] hits@[k]).elem() == Some(e) by {
                    if out@.contains(e) {
                        let j = choose|j: int| 0 <= j < out@.len() && out@[j] == e;
                        if j < before.len() {
                            assert(before[j] == e);
                            assert(before.contains(e));
                            let k = choose|k: int| 0 <= k < i && (#[trigger] hits@[k]).elem() == Some(e);
                            assert(hits@[k].elem() == Some(e));
                        } else {
                            assert(hits@[i as int].elem() == Some(e));
                        }
                    }
                    if exists|k: int| 0 <= k < i + 1 && (#[trigger] hits@[k]).elem() == Some(e) {
                        let k = choose|k: int| 0 <= k < i + 1 && (#[trigger] hits@[k]).elem() == Some(e);
                        if k < i {
                            assert(before.contains(e));
                            let j = choose|j: int| 0 <= j < before.len() && before[j] == e;
                            assert(out@[j] == e);
                        }
                    }
                }
            }
            i += 1;
        }
        out
    }

    /// The targets of the redefinitions of any of the elements.
    fn all_redefined(&self, elems: &Vec<usize>) -> (r: Vec<usize>)
        requires
            self@.wf(),
        ensures
            all_below(r@, self@.n()),
            forall|u: usize| #[trigger] r@.contains(u) <==> exists|e: usize|
                elems@.contains(e) && #[trigger] edge(self@.g, self@.resolved, true, e, u),
    {
        let mut out: Vec<usize> = Vec::new();
        let mut i: usize = 0;
        while i < elems.len()
            invariant
                i <= elems@.len(),
                self@.wf(),
                all_below(out@, self@.n()),
                forall|u: usize| #[trigger] out@.contains(u) <==> exists|k: int|
                    0 <= k < i && #[trigger] edge(self@.g, self@.resolved, true, elems@[k], u),
            decreases elems@.len() - i,
        {
            let ghost before = out@;
            let mut more = self.targets(true, elems[i]);
            let ghost added = more@;
            out.append(&mut more);
            assert(out@ =~= before + added);
            proof {
                assert forall|u: usize| #[trigger] out@.contains(u) <==> exists|k: int|
                    0 <= k < i + 1 && #[trigger] edge(self@.g, self@.resolved, true, elems@[k], u) by {
                    if out@.contains(u) {
                        let j = choose|j: int| 0 <= j < out@.len() && out@[j] == u;
                        if j < before.len() {
                            assert(before.contains(u));
                            let k = choose|k: int| 0 <= k < i && #[trigger] edge(self@.g, self@.resolved, true, elems@[k], u);
                            assert(edge(self@.g, self@.resolved, true, elems@[k], u));
                        } else {
                            assert(added[j - before.len()] == u);
                            assert(added.contains(u));
                            assert(edge(self@.g, self@.resolved, true, elems@[i as int], u));
                        }
                    }
                    if exists|k: int| 0 <= k < i + 1 && #[trigger] edge(self@.g, self@.resolved, true, elems@[k], u) {
                        let k = choose|k: int| 0 <= k < i + 1 && #[trigger] edge(self@.g, self@.resolved, true, elems@[k], u);
                        if k < i {
                            assert(before.contains(u));
                            let j = choose|j: int| 0 <= j < before.len() && before[j] == u;
                            assert(out@[j] == u);
                        } else {
                            assert(added.contains(u));
                            let j = choose|j: int| 0 <= j < added.len() && added[j] == u;
                            assert(out@[before.len() + j] == u);
                        }
                    }
                }
            }
            i += 1;
        }
        proof {
            assert forall|u: usize| #[trigger] out@.contains(u) <==> exists|e: usize|
                elems@.contains(e) && #[trigger] edge(self@.g, self@.resolved, true, e, u) by {
                if exists|e: usize| elems@.contains(e) && #[trigger] edge(self@.g, self@.resolved, true, e, u) {
                    let e = choose|e: usize| elems@.contains(e) && #[trigger] edge(self@.g, self@.resolved, true, e, u);
                    let k = choose|k: int| 0 <= k < elems@.len() && elems@[k] == e;
                    assert(edge(self@.g, self@.resolved, true, elems@[k], u));
                }
            }
        }
        out
    }

    /// The hits that stand: distinct hits that another one redefines are
    /// dropped.
    pub fn drop_redefined(&self, hits: &Vec<LookupResult>) -> (r: Vec<LookupResult>)
        requires
            self@.wf(),
            hits_ok(hits@, self@.n(), self@.ns()),
        ensures
            r@ == drop_redefined(self@.g, self@.resolved, hits@),
            hits_ok(r@, self@.n(), self@.ns()),
    {
        let ghost g = self@.g;
        let ghost res = self@.resolved;
        proof {
            reveal(drop_redefined);
        }
        let elems = self.found_elems(hits);
        assert(several(hits@) <==> elems@.len() >= 2) by {
            if several(hits@) {
                let (x, y) = choose|x: usize, y: usize| #[trigger] found(hits@, x) && #[trigger] found(hits@, y) && x != y;
                assert(elems@.contains(x) && elems@.contains(y));
            }
            if elems@.len() >= 2 {
                assert(elems@.contains(elems@[0]) && elems@.contains(elems@[1]));
                assert(found(hits@, elems@[0]) && found(hits@, elems@[1]));
                assert(elems@[0] != elems@[1]);
            }
        }
        let mut out: Vec<LookupResult> = Vec::new();
        if elems.len() < 2 {
            let mut i: usize = 0;
            while i < hits.len()
                invariant
                    i <= hits@.len(),
                    out@ =~= hits@.subrange(0, i as int),
                decreases hits@.len() - i,
            {
                out.push(hits[i]);
                i += 1;
                assert(hits@.subrange(0, i as int) =~= hits@.subrange(0, i - 1).push(hits@[i - 1]));
            }
            assert(hits@.subrange(0, hits@.len() as int) =~= hits@);
            return out;
        }
        let firsts = self.all_redefined(&elems);
        let redefined = self.closure(true, &firsts);
        proof {
            assert forall|t: usize| found(hits@, t) implies (redefined_hit(g, res, hits@, t) <==> #[trigger] redefined@[t as int]) by {
                assert(elems@.contains(t));
                let k = choose|k: int| 0 <= k < elems@.len() && elems@[k] == t;
                assert(elems@[k] < self@.n());
                assert(redefined@[t as int] <==> reached(g, res, true, firsts@, t));
                if redefined@[t as int] {
                    let j = choose|j: int| 0 <= j < firsts@.len() && reachable(g, res, true, #[trigger] firsts@[j], t);
                    let u = firsts@[j];
                    assert(firsts@.contains(u));
                    let e = choose|e: usize| elems@.contains(e) && #[trigger] edge(g, res, true, e, u);
                    assert(found(hits@, e));
                    assert(edge(g, res, true, e, u) && reachable(g, res, true, u, t));
                }
                if redefined_hit(g, res, hits@, t) {
                    let (e, u) = choose|e: usize, u: usize|
                        found(hits@, e) && #[trigger] edge(g, res, true, e, u) && #[trigger] reachable(g, res, true, u, t);
                    assert(elems@.contains(e));
                    assert(firsts@.contains(u));
                    let j = choose|j: int| 0 <= j < firsts@.len() && firsts@[j] == u;
                    assert(reachable(g, res, true, firsts@[j], t));
                }
            }
        }
        let ghost keep = |h: LookupResult| !shadowed_hit(g, res, hits@, h);
        let mut i: usize = 0;
        while i < hits.len()
            invariant
                i <= hits@.len(),
                self@.wf(),
                g == self@.g,
                res == self@.resolved,
                hits_ok(hits@, self@.n(), self@.ns()),
                hits_ok(out@, self@.n(), self@.ns()),
                redefined@.len() == self@.n(),
                all_below(elems@, self@.n()),
                forall|e: usize| #[trigger] elems@.contains(e) <==> found(hits@, e),
                forall|t: usize| found(hits@, t) ==> (redefined_hit(g, res, hits@, t) <==> #[trigger] redefined@[t as int]),
                keep == (|h: LookupResult| !shadowed_hit(g, res, hits@, h)),
                out@ =~= hits@.subrange(0, i as int).filter(keep),
            decreases hits@.len() - i,
        {
            let h = hits[i];
            let mut shadowed = false;
            if let Some(y) = h.element() {
                assert(found(hits@, y)) by {
                    assert(hits@[i as int].elem() == Some(y));
                }
                if redefined[y] {
                    shadowed = true;
                } else {
                    let mut k: usize = 0;
                    while k < elems.len()
                        invariant
                            k <= elems@.len(),
                            self@.wf(),
                            g == self@.g,
                            res == self@.resolved,
                            y < self@.n(),
                            redefined@.len() == self@.n(),
                            all_below(elems@, self@.n()),
                            forall|e: usize| #[trigger] elems@.contains(e) <==> found(hits@, e),
                            forall|t: usize| found(hits@, t) ==> (redefined_hit(g, res, hits@, t) <==> #[trigger] redefined@[t as int]),
                            shadowed <==> exists|j: int| 0 <= j < k && standing_hit(g, res, hits@, elems@[j]) && #[trigger] overrides(g, res, elems@[j], y),
                        decreases elems@.len() - k,
                    {
                        let x: usize = elems[k];
                        assert(elems@.contains(x));
                        assert(found(hits@, x));
                        if !redefined[x] {
                            if self.overrides(x, y) {
                                shadowed = true;
                                assert(overrides(g, res, elems@[k as int], y));
                            }
                        }
                        k += 1;
                    }
                    proof {
                        assert(standing_hit(g, res, hits@, y));
                        assert(shadowed <==> overridden_hit(g, res, hits@, y)) by {
                            if overridden_hit(g, res, hits@, y) {
                                let x = choose|x: usize| standing_hit(g, res, hits@, x) && #[trigger] overrides(g, res, x, y);
                                assert(elems@.contains(x));
                                let j = choose|j: int| 0 <= j < elems@.len() && elems@[j] == x;
                                assert(overrides(g, res, elems@[j], y));
                            }
                        }
                    }
                }
                assert(shadowed <==> shadowed_hit(g, res, hits@, h));
            }
            assert(shadowed == !keep(h));
            proof {
                let p = hits@.subrange(0, i as int);
                let q = hits@.subrange(0, i + 1);
                assert(q =~= p.push(h));
                reveal(Seq::filter);
                assert(q.drop_last() =~= p);
            }
            if !shadowed {
                out.push(h);
            }
            i += 1;
        }
        assert(hits@.subrange(0, hits@.len() as int) =~= hits@);
        out
    }
}

} // verus!
