//! Reports over a resolved graph: aliases without a target, and namespaces
//! that import themselves.
use crate::ast::{QnV, QualifiedName};
use crate::linking::unit_of;
use crate::resolution;
use crate::rstate::{
    false_count, lemma_false_count_bound, lemma_false_count_update, lemma_false_positive, OpenImport,
    Resolver, RV,
};
use crate::state::all_below;
use vstd::prelude::*;

verus! {

/// A reported name, and the unit it is written in.
pub struct Report {
    pub unit: usize,
    pub qn: QualifiedName,
}

pub struct ReportV {
    pub unit: usize,
    pub qn: QnV,
}

impl Report {
    pub open spec fn view(&self) -> ReportV {
        ReportV { unit: self.unit, qn: self.qn@ }
    }
}

pub open spec fn reports(s: Seq<Report>) -> Seq<ReportV> {
    s.map_values(|r: Report| r@)
}

/// The unit that made a scope.
pub open spec fn scope_unit(starts: Seq<(usize, usize)>, s: usize) -> usize {
    unit_of(starts, s, starts.len() as int)
}

fn unit_of_scope(starts: &Vec<(usize, usize)>, s: usize) -> (r: usize)
    ensures
        r == scope_unit(starts@, s),
{
    let mut k: usize = starts.len();
    while k > 0
        invariant
            k <= starts@.len(),
            scope_unit(starts@, s) == unit_of(starts@, s, k as int),
        decreases k,
    {
        k -= 1;
        let (start, unit) = starts[k];
        if start <= s {
            return unit;
        }
    }
    0
}

/// The aliases of a scope from `i` on whose target does not resolve.
pub open spec fn loose_aliases(
    b: RV,
    starts: Seq<(usize, usize)>,
    s: usize,
    i: int,
) -> (RV, Seq<ReportV>)
    decreases b.g.alias_count(s) - i,
{
    if i < 0 || i >= b.g.alias_count(s) {
        (b, Seq::empty())
    } else {
        let g = b.g;
        let (c, hit) = resolution::resolve(g, b, b.open_count(), s, g.alias_target(s, i), 0);
        let b = RV { g, ..c };
        let (b, rest) = loose_aliases(b, starts, s, i + 1);
        (b, if hit is None {
            seq![ReportV { unit: scope_unit(starts, s), qn: g.alias_target(s, i) }] + rest
        } else {
            rest
        })
    }
}

/// The aliases without a target in the scopes from `s` on.
pub open spec fn all_loose_aliases(
    b: RV,
    starts: Seq<(usize, usize)>,
    s: int,
    n: nat,
) -> (RV, Seq<ReportV>)
    decreases n - s,
{
    if s < 0 || s >= n {
        (b, Seq::empty())
    } else {
        let (b, here) = loose_aliases(b, starts, s as usize, 0);
        let (b, rest) = all_loose_aliases(b, starts, s + 1, n);
        (b, here + rest)
    }
}

/// The scopes that imports open.
pub open spec fn opened(list: Seq<OpenImport>) -> Seq<usize> {
    list.map_values(|x: OpenImport| x.scope)
}

/// Whether a scope follows from those on the stack over namespace imports.
pub open spec fn imports_reach_from(
    b: RV,
    stack: Seq<usize>,
    seen: Seq<bool>,
    needle: usize,
    fuel: nat,
) -> (RV, bool)
    decreases fuel, stack.len(),
{
    if stack.len() == 0 {
        (b, false)
    } else {
        let x = stack.last();
        let rest = stack.drop_last();
        if x == needle {
            (b, true)
        } else if x >= seen.len() || seen[x as int] {
            imports_reach_from(b, rest, seen, needle, fuel)
        } else if fuel == 0 {
            (b, false)
        } else {
            let (b, list) = resolution::import_scopes(b.g, b, b.open_count(), x);
            imports_reach_from(b, rest + opened(list), seen.update(x as int, true), needle, (fuel - 1) as nat)
        }
    }
}

pub open spec fn imports_reach(b: RV, from: usize, needle: usize) -> (RV, bool) {
    imports_reach_from(b, seq![from], Seq::new(b.ns(), |i: int| false), needle, b.ns())
}

/// Whether the namespace import at `i` leads back to its own scope.
#[verifier::opaque]
pub open spec fn import_returns(b: RV, s: usize, i: int) -> (RV, bool) {
    let (b, hit) = resolution::resolve(b.g, b, b.open_count(), s, b.g.import_target(s, i), 0);
    match hit {
        Some(e) => match b.g.body_scope(e) {
            Some(t) => imports_reach(b, t, s),
            None => (b, false),
        },
        None => (b, false),
    }
}

pub open spec fn cyclic_imports(
    b: RV,
    starts: Seq<(usize, usize)>,
    s: usize,
    i: int,
) -> (RV, Seq<ReportV>)
    decreases b.g.import_count(s) - i,
{
    if i < 0 || i >= b.g.import_count(s) {
        (b, Seq::empty())
    } else {
        let g = b.g;
        let (c, back) = import_returns(b, s, i);
        let b = RV { g, ..c };
        let (b, rest) = cyclic_imports(b, starts, s, i + 1);
        (b, if back {
            seq![ReportV { unit: scope_unit(starts, s), qn: g.import_target(s, i) }] + rest
        } else {
            rest
        })
    }
}

pub open spec fn all_cyclic_imports(
    b: RV,
    starts: Seq<(usize, usize)>,
    s: int,
    n: nat,
) -> (RV, Seq<ReportV>)
    decreases n - s,
{
    if s < 0 || s >= n {
        (b, Seq::empty())
    } else {
        let (b, here) = cyclic_imports(b, starts, s as usize, 0);
        let (b, rest) = all_cyclic_imports(b, starts, s + 1, n);
        (b, here + rest)
    }
}

/// How reports found so far and those still to come make the whole.
pub open spec fn joined_reports(
    done: Seq<ReportV>,
    rest: (RV, Seq<ReportV>),
) -> (RV, Seq<ReportV>) {
    (rest.0, done + rest.1)
}

proof fn lemma_same_g(b: RV)
    ensures
        (RV { g: b.g, ..b }) == b,
{
}

impl Resolver {
    pub fn scope_total(&self) -> (r: usize)
        ensures
            r == self@.ns(),
    {
        proof {
            reveal(Resolver::view);
            reveal(crate::state::Builder::view);
        }
        self.graph.scopes.len()
    }

    fn loose_aliases(&mut self, starts: &Vec<(usize, usize)>, s: usize, out: &mut Vec<Report>)
        requires
            old(self)@.wf(),
            s < old(self)@.ns(),
        ensures
            (final(self)@, reports(final(out)@)) == joined_reports(
                reports(old(out)@),
                loose_aliases(old(self)@, starts@, s, 0),
            ),
            final(self)@.wf(),
            final(self)@.g == old(self)@.g,
            final(self)@.lib_boundary == old(self)@.lib_boundary,
    {
        let n: usize = self.alias_count(s);
        let mut i: usize = 0;
        let ghost whole = joined_reports(reports(out@), loose_aliases(self@, starts@, s, 0));
        while i < n
            invariant
                self@.wf(),
                self@.g == old(self)@.g,
                self@.lib_boundary == old(self)@.lib_boundary,
                s < self@.ns(),
                n == self@.g.alias_count(s),
                i <= n,
                whole == joined_reports(reports(out@), loose_aliases(self@, starts@, s, i as int)),
            decreases n - i,
        {
            let ghost before = reports(out@);
            let ghost now = self@;
            let qn: QualifiedName = self.alias_target(s, i);
            let ghost m = self@.open_count();
            let hit = self.resolve(Ghost(m), s, &qn, 0);
            let ghost rest = loose_aliases(self@, starts@, s, i + 1);
            proof {
                lemma_same_g(self@);
            }
            if hit.is_none() {
                let r = Report { unit: unit_of_scope(starts, s), qn };
                out.push(r);
                assert(reports(out@) =~= before.push(r@));
                assert(before + (seq![r@] + rest.1) =~= before.push(r@) + rest.1);
            }
            i += 1;
        }
        assert(reports(out@) + Seq::<ReportV>::empty() =~= reports(out@));
    }

    /// The aliases whose target does not resolve, scope by scope.
    pub fn check_aliases(&mut self, scope_starts: &Vec<(usize, usize)>) -> (r: Vec<Report>)
        requires
            old(self)@.wf(),
        ensures
            (final(self)@, reports(r@)) == all_loose_aliases(
                old(self)@,
                scope_starts@,
                0,
                old(self)@.ns(),
            ),
            final(self)@.wf(),
            final(self)@.g == old(self)@.g,
            final(self)@.lib_boundary == old(self)@.lib_boundary,
    {
        let n: usize = self.scope_total();
        let mut out: Vec<Report> = Vec::new();
        let mut s: usize = 0;
        let ghost whole = all_loose_aliases(self@, scope_starts@, 0, n as nat);
        assert(reports(out@) + whole.1 =~= whole.1);
        while s < n
            invariant
                self@.wf(),
                self@.g == old(self)@.g,
                self@.lib_boundary == old(self)@.lib_boundary,
                n == self@.ns(),
                s <= n,
                whole == joined_reports(
                    reports(out@),
                    all_loose_aliases(self@, scope_starts@, s as int, n as nat),
                ),
            decreases n - s,
        {
            let ghost before = reports(out@);
            let ghost here = loose_aliases(self@, scope_starts@, s, 0);
            let ghost rest = all_loose_aliases(here.0, scope_starts@, s + 1, n as nat);
            self.loose_aliases(scope_starts, s, &mut out);
            assert(before + (here.1 + rest.1) =~= (before + here.1) + rest.1);
            s += 1;
        }
        assert(reports(out@) + Seq::<ReportV>::empty() =~= reports(out@));
        out
    }

    fn reach_walk(
        &mut self,
        stack: Vec<usize>,
        seen: Vec<bool>,
        needle: usize,
        Ghost(fuel): Ghost<nat>,
    ) -> (r: bool)
        requires
            old(self)@.wf(),
            all_below(stack@, old(self)@.ns()),
            seen@.len() == old(self)@.ns(),
            false_count(seen@) <= fuel,
        ensures
            (final(self)@, r) == imports_reach_from(old(self)@, stack@, seen@, needle, fuel),
            final(self)@.wf(),
            final(self)@.g == old(self)@.g,
            final(self)@.lib_boundary == old(self)@.lib_boundary,
        decreases fuel, stack@.len(),
    {
        let mut rest = stack;
        match rest.pop() {
            Some(x) => {
                assert(rest@ =~= stack@.drop_last());
                assert(x == stack@.last());
                if x == needle {
                    return true;
                }
                if seen[x] {
                    return self.reach_walk(rest, seen, needle, Ghost(fuel));
                }
                proof {
                    lemma_false_positive(seen@, x as int);
                    lemma_false_count_update(seen@, x as int, true);
                }
                let ghost m = self@.open_count();
                let list: Vec<OpenImport> = self.import_scopes(Ghost(m), x);
                let mut marked = seen;
                marked.set(x, true);
                let n: usize = list.len();
                let mut k: usize = 0;
                assert(rest@ =~= stack@.drop_last() + opened(list@).take(0));
                while k < n
                    invariant
                        n == list@.len(),
                        k <= n,
                        self@.imports_ok(x as int, Some(list@)),
                        all_below(rest@, self@.ns()),
                        rest@ == stack@.drop_last() + opened(list@).take(k as int),
                    decreases n - k,
                {
                    let t: usize = list[k].scope;
                    let ghost some = Some(list@);
                    assert(some->0[k as int].scope < self@.ns());
                    rest.push(t);
                    assert(opened(list@).take(k + 1) =~= opened(list@).take(k as int).push(t));
                    k += 1;
                }
                assert(opened(list@).take(n as int) =~= opened(list@));
                self.reach_walk(rest, marked, needle, Ghost((fuel - 1) as nat))
            },
            None => false,
        }
    }

    /// Whether a scope follows from another over namespace imports.
    pub fn imports_reach(&mut self, from: usize, needle: usize) -> (r: bool)
        requires
            old(self)@.wf(),
            from < old(self)@.ns(),
        ensures
            (final(self)@, r) == imports_reach(old(self)@, from, needle),
            final(self)@.wf(),
            final(self)@.g == old(self)@.g,
            final(self)@.lib_boundary == old(self)@.lib_boundary,
    {
        let n: usize = self.scope_total();
        let mut seen: Vec<bool> = Vec::new();
        while seen.len() < n
            invariant
                seen@.len() <= n,
                forall|k: int| 0 <= k < seen@.len() ==> !seen@[k],
            decreases n - seen@.len(),
        {
            seen.push(false);
        }
        assert(seen@ =~= Seq::new(n as nat, |i: int| false));
        let mut stack: Vec<usize> = Vec::new();
        stack.push(from);
        assert(stack@ =~= seq![from]);
        proof {
            lemma_false_count_bound(seen@);
        }
        self.reach_walk(stack, seen, needle, Ghost(n as nat))
    }

    fn import_returns(&mut self, s: usize, i: usize) -> (r: bool)
        requires
            old(self)@.wf(),
            s < old(self)@.ns(),
            i < old(self)@.g.import_count(s),
        ensures
            (final(self)@, r) == import_returns(old(self)@, s, i as int),
            final(self)@.wf(),
            final(self)@.g == old(self)@.g,
            final(self)@.lib_boundary == old(self)@.lib_boundary,
    {
        proof {
            reveal(import_returns);
        }
        let qn: QualifiedName = self.import_target(s, i);
        let ghost m = self@.open_count();
        match self.resolve(Ghost(m), s, &qn, 0) {
            Some(e) => match self.body_scope(e) {
                Some(t) => self.imports_reach(t, s),
                None => false,
            },
            None => false,
        }
    }

    fn cyclic_imports(&mut self, starts: &Vec<(usize, usize)>, s: usize, out: &mut Vec<Report>)
        requires
            old(self)@.wf(),
            s < old(self)@.ns(),
        ensures
            (final(self)@, reports(final(out)@)) == joined_reports(
                reports(old(out)@),
                cyclic_imports(old(self)@, starts@, s, 0),
            ),
            final(self)@.wf(),
            final(self)@.g == old(self)@.g,
            final(self)@.lib_boundary == old(self)@.lib_boundary,
    {
        let n: usize = self.import_count(s);
        let mut i: usize = 0;
        let ghost whole = joined_reports(reports(out@), cyclic_imports(self@, starts@, s, 0));
        while i < n
            invariant
                self@.wf(),
                self@.g == old(self)@.g,
                self@.lib_boundary == old(self)@.lib_boundary,
                s < self@.ns(),
                n == self@.g.import_count(s),
                i <= n,
                whole == joined_reports(reports(out@), cyclic_imports(self@, starts@, s, i as int)),
            decreases n - i,
        {
            let ghost before = reports(out@);
            let back: bool = self.import_returns(s, i);
            let ghost rest = cyclic_imports(self@, starts@, s, i + 1);
            proof {
                lemma_same_g(self@);
            }
            if back {
                let r = Report { unit: unit_of_scope(starts, s), qn: self.import_target(s, i) };
                out.push(r);
                assert(reports(out@) =~= before.push(r@));
                assert(before + (seq![r@] + rest.1) =~= before.push(r@) + rest.1);
            }
            i += 1;
        }
        assert(reports(out@) + Seq::<ReportV>::empty() =~= reports(out@));
    }

    /// The namespace imports that lead back to the namespace they stand in.
    pub fn check_import_cycles(&mut self, scope_starts: &Vec<(usize, usize)>) -> (r: Vec<Report>)
        requires
            old(self)@.wf(),
        ensures
            (final(self)@, reports(r@)) == all_cyclic_imports(
                old(self)@,
                scope_starts@,
                0,
                old(self)@.ns(),
            ),
            final(self)@.wf(),
            final(self)@.g == old(self)@.g,
            final(self)@.lib_boundary == old(self)@.lib_boundary,
    {
        let n: usize = self.scope_total();
        let mut out: Vec<Report> = Vec::new();
        let mut s: usize = 0;
        let ghost whole = all_cyclic_imports(self@, scope_starts@, 0, n as nat);
        assert(reports(out@) + whole.1 =~= whole.1);
        while s < n
            invariant
                self@.wf(),
                self@.g == old(self)@.g,
                self@.lib_boundary == old(self)@.lib_boundary,
                n == self@.ns(),
                s <= n,
                whole == joined_reports(
                    reports(out@),
                    all_cyclic_imports(self@, scope_starts@, s as int, n as nat),
                ),
            decreases n - s,
        {
            let ghost before = reports(out@);
            let ghost here = cyclic_imports(self@, scope_starts@, s, 0);
            let ghost rest = all_cyclic_imports(here.0, scope_starts@, s + 1, n as nat);
            self.cyclic_imports(scope_starts, s, &mut out);
            assert(before + (here.1 + rest.1) =~= (before + here.1) + rest.1);
            s += 1;
        }
        assert(reports(out@) + Seq::<ReportV>::empty() =~= reports(out@));
        out
    }
}

} // verus!
