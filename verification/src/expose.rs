//! What views expose.
use crate::ast::QualifiedName;
use crate::resolution;
use crate::rstate::{
    false_count, lemma_false_count_bound, lemma_false_count_update, lemma_false_positive, OpenImport,
    Resolver, RV,
};
use crate::satisfaction::members_from;
use crate::state::{all_below, BV};
use vstd::prelude::*;

verus! {

/// Exposing: the resolution state, the scopes already enumerated, and the
/// elements found.
#[verifier::ext_equal]
pub struct ExposeV {
    pub b: RV,
    pub seen: Seq<bool>,
    pub out: Seq<usize>,
}

pub open spec fn with_one(s: Seq<usize>, x: usize) -> Seq<usize> {
    if s.contains(x) {
        s
    } else {
        s.push(x)
    }
}

/// The member exposes of a view from `i` on: each names one element.
pub open spec fn exposed_members(
    g: BV,
    b: RV,
    view: usize,
    out: Seq<usize>,
    i: int,
) -> (RV, Seq<usize>)
    decreases g.member_count(view) - i,
    when 0 <= i
{
    if i >= g.member_count(view) {
        (b, out)
    } else {
        let (b, hit) = resolution::resolve(g, b, b.open_count(), view, g.member_target(view, i), 0);
        match hit {
            Some(e) => {
                let (b, ok) = resolution::admits_by_member(g, b, b.open_count(), view, i, e, 0, 0);
                exposed_members(
                    g,
                    b,
                    view,
                    if ok {
                        with_one(out, e)
                    } else {
                        out
                    },
                    i + 1,
                )
            },
            None => exposed_members(g, b, view, out, i + 1),
        }
    }
}

/// The members of a scope that an expose admits and, where it is recursive,
/// theirs; each scope is enumerated once.
pub open spec fn exposed_scope(
    g: BV,
    x: ExposeV,
    view: usize,
    entry: int,
    sc: usize,
    recursive: bool,
    fuel: nat,
) -> ExposeV
    decreases fuel, 1int, 0int,
{
    if sc >= x.seen.len() || x.seen[sc as int] || fuel == 0 {
        x
    } else {
        let x = ExposeV { seen: x.seen.update(sc as int, true), ..x };
        match g.scopes[sc as int].owner {
            Some(o) => exposed_list(g, x, view, entry, members_from(g, o, 0), 0, recursive, fuel),
            None => x,
        }
    }
}

pub open spec fn exposed_list(
    g: BV,
    x: ExposeV,
    view: usize,
    entry: int,
    s: Seq<usize>,
    k: int,
    recursive: bool,
    fuel: nat,
) -> ExposeV
    decreases fuel, 0int, s.len() - k,
    when 0 <= k && fuel > 0
{
    if k >= s.len() {
        x
    } else {
        let (b, ok) = resolution::admits_by_import(g, x.b, x.b.open_count(), view, entry, s[k], 0, 0);
        let x = ExposeV { b, ..x };
        let x = if ok {
            let x = ExposeV { out: with_one(x.out, s[k]), ..x };
            match g.elem_scope(s[k]) {
                Some(sub) => if recursive {
                    exposed_scope(g, x, view, entry, sub, true, (fuel - 1) as nat)
                } else {
                    x
                },
                None => x,
            }
        } else {
            x
        };
        exposed_list(g, x, view, entry, s, k + 1, recursive, fuel)
    }
}

/// The namespace exposes of a view from `k` on.
pub open spec fn exposed_imports(
    g: BV,
    x: ExposeV,
    view: usize,
    list: Seq<OpenImport>,
    k: int,
) -> ExposeV
    decreases list.len() - k,
    when 0 <= k
{
    if k >= list.len() {
        x
    } else {
        let i = list[k];
        exposed_imports(
            g,
            exposed_scope(
                g,
                x,
                view,
                i.entry as int,
                i.scope,
                g.import_recursive(view, i.entry as int),
                g.ns(),
            ),
            view,
            list,
            k + 1,
        )
    }
}

/// The elements that a view with body scope `view` exposes.
#[verifier::opaque]
pub open spec fn exposed_in(b: RV, view: usize) -> (RV, Seq<usize>) {
    let g = b.g;
    let (b, out) = exposed_members(g, b, view, Seq::empty(), 0);
    let (b, list) = resolution::import_scopes(g, b, b.open_count(), view);
    let x = exposed_imports(
        g,
        ExposeV { b, seen: Seq::new(g.ns(), |i: int| false), out },
        view,
        list,
        0,
    );
    (x.b, x.out)
}

/// What a view exposes; an element without a body exposes nothing.
#[verifier::opaque]
pub open spec fn exposed(b: RV, view: usize) -> (RV, Seq<usize>) {
    match b.g.elem_scope(view) {
        Some(s) => exposed_in(b, s),
        None => (b, Seq::empty()),
    }
}

fn push_one(s: &mut Vec<usize>, x: usize)
    ensures
        final(s)@ == with_one(old(s)@, x),
        forall|n: nat| #![trigger all_below(final(s)@, n)] all_below(old(s)@, n) && x < n ==> all_below(final(s)@, n),
{
    let n: usize = s.len();
    let mut k: usize = 0;
    while k < n
        invariant
            n == s@.len(),
            s@ == old(s)@,
            k <= n,
            forall|j: int| 0 <= j < k ==> s@[j] != x,
        decreases n - k,
    {
        if s[k] == x {
            assert(s@[k as int] == x);
            return;
        }
        k += 1;
    }
    s.push(x);
}

/// Exposing, as it goes on.
struct Exposing {
    seen: Vec<bool>,
    out: Vec<usize>,
}

spec fn expose_view(b: RV, x: Exposing) -> ExposeV {
    ExposeV { b, seen: x.seen@, out: x.out@ }
}

/// What exposing keeps: the graph, the table sizes, and how many scopes are
/// still to enumerate.
spec fn going(a: RV, b: RV, x: Exposing, y: Exposing) -> bool {
    &&& b.wf()
    &&& b.g == a.g
    &&& b.lib_boundary == a.lib_boundary
    &&& y.seen@.len() == x.seen@.len()
    &&& false_count(y.seen@) <= false_count(x.seen@)
    &&& all_below(y.out@, b.n())
}

impl Resolver {
    fn exposed_members(&mut self, view: usize, out: &mut Vec<usize>)
        requires
            old(self)@.wf(),
            view < old(self)@.ns(),
            all_below(old(out)@, old(self)@.n()),
        ensures
            (final(self)@, final(out)@) == exposed_members(
                old(self)@.g,
                old(self)@,
                view,
                old(out)@,
                0,
            ),
            final(self)@.wf(),
            final(self)@.g == old(self)@.g,
            final(self)@.lib_boundary == old(self)@.lib_boundary,
            all_below(final(out)@, final(self)@.n()),
    {
        let ghost g = self@.g;
        let n: usize = self.member_count(view);
        let mut i: usize = 0;
        while i < n
            invariant
                self@.wf(),
                self@.g == g,
                g == old(self)@.g,
                self@.lib_boundary == old(self)@.lib_boundary,
                view < self@.ns(),
                n == g.member_count(view),
                i <= n,
                all_below(out@, self@.n()),
                exposed_members(g, self@, view, out@, i as int) == exposed_members(
                    g,
                    old(self)@,
                    view,
                    old(out)@,
                    0,
                ),
            decreases n - i,
        {
            let qn: QualifiedName = self.member_target(view, i);
            let ghost m = self@.open_count();
            if let Some(e) = self.resolve(Ghost(m), view, &qn, 0) {
                let ghost m = self@.open_count();
                if self.admits_by_member(Ghost(m), view, i, e, 0, 0) {
                    push_one(out, e);
                }
            }
            i += 1;
        }
    }

    fn exposed_scope(
        &mut self,
        x: &mut Exposing,
        view: usize,
        entry: usize,
        sc: usize,
        recursive: bool,
        Ghost(fuel): Ghost<nat>,
    )
        requires
            old(self)@.wf(),
            view < old(self)@.ns(),
            entry < old(self)@.g.import_count(view),
            sc < old(self)@.ns(),
            old(x).seen@.len() == old(self)@.ns(),
            false_count(old(x).seen@) <= fuel,
            all_below(old(x).out@, old(self)@.n()),
        ensures
            expose_view(final(self)@, *final(x)) == exposed_scope(
                old(self)@.g,
                expose_view(old(self)@, *old(x)),
                view,
                entry as int,
                sc,
                recursive,
                fuel,
            ),
            going(old(self)@, final(self)@, *old(x), *final(x)),
        decreases fuel, 1int,
    {
        if x.seen[sc] {
            return;
        }
        proof {
            lemma_false_positive(x.seen@, sc as int);
            lemma_false_count_update(x.seen@, sc as int, true);
        }
        x.seen.set(sc, true);
        match self.scope_owner(sc) {
            Some(o) => {
                let members: Vec<usize> = self.members_of(o);
                self.exposed_list(x, view, entry, &members, recursive, Ghost(fuel));
            },
            None => {},
        }
    }

    fn members_of(&self, o: usize) -> (r: Vec<usize>)
        requires
            self@.wf(),
        ensures
            r@ == members_from(self@.g, o, 0),
            all_below(r@, self@.n()),
    {
        proof {
            reveal(Resolver::view);
            reveal(RV::wf);
        }
        self.graph.members_of(o)
    }

    fn exposed_list(
        &mut self,
        x: &mut Exposing,
        view: usize,
        entry: usize,
        s: &Vec<usize>,
        recursive: bool,
        Ghost(fuel): Ghost<nat>,
    )
        requires
            old(self)@.wf(),
            view < old(self)@.ns(),
            entry < old(self)@.g.import_count(view),
            old(x).seen@.len() == old(self)@.ns(),
            false_count(old(x).seen@) < fuel,
            all_below(s@, old(self)@.n()),
            all_below(old(x).out@, old(self)@.n()),
        ensures
            expose_view(final(self)@, *final(x)) == exposed_list(
                old(self)@.g,
                expose_view(old(self)@, *old(x)),
                view,
                entry as int,
                s@,
                0,
                recursive,
                fuel,
            ),
            going(old(self)@, final(self)@, *old(x), *final(x)),
        decreases fuel, 0int,
    {
        let ghost g = self@.g;
        let n: usize = s.len();
        let mut k: usize = 0;
        while k < n
            invariant
                self@.wf(),
                self@.g == g,
                g == old(self)@.g,
                view < self@.ns(),
                entry < g.import_count(view),
                x.seen@.len() == self@.ns(),
                false_count(x.seen@) < fuel,
                all_below(s@, self@.n()),
                n == s@.len(),
                k <= n,
                going(old(self)@, self@, *old(x), *x),
                exposed_list(
                    g,
                    expose_view(self@, *x),
                    view,
                    entry as int,
                    s@,
                    k as int,
                    recursive,
                    fuel,
                ) == exposed_list(
                    g,
                    expose_view(old(self)@, *old(x)),
                    view,
                    entry as int,
                    s@,
                    0,
                    recursive,
                    fuel,
                ),
            decreases n - k,
        {
            let m: usize = s[k];
            let ghost c = self@.open_count();
            if self.admits_by_import(Ghost(c), view, entry, m, 0, 0) {
                push_one(&mut x.out, m);
                if recursive {
                    if let Some(sub) = self.body_scope(m) {
                        self.exposed_scope(x, view, entry, sub, true, Ghost((fuel - 1) as nat));
                    }
                }
            }
            k += 1;
        }
    }

    fn exposed_in(&mut self, view: usize) -> (r: Vec<usize>)
        requires
            old(self)@.wf(),
            view < old(self)@.ns(),
        ensures
            (final(self)@, r@) == exposed_in(old(self)@, view),
            final(self)@.wf(),
            final(self)@.g == old(self)@.g,
            final(self)@.lib_boundary == old(self)@.lib_boundary,
            all_below(r@, final(self)@.n()),
    {
        proof {
            reveal(exposed_in);
        }
        let ghost g = self@.g;
        let mut out: Vec<usize> = Vec::new();
        assert(out@ =~= Seq::<usize>::empty());
        self.exposed_members(view, &mut out);
        let ghost m = self@.open_count();
        let list: Vec<OpenImport> = self.import_scopes(Ghost(m), view);
        let ns: usize = self.scope_total();
        let mut seen: Vec<bool> = Vec::new();
        while seen.len() < ns
            invariant
                seen@.len() <= ns,
                forall|i: int| 0 <= i < seen@.len() ==> !seen@[i],
            decreases ns - seen@.len(),
        {
            seen.push(false);
        }
        assert(seen@ =~= Seq::new(ns as nat, |i: int| false));
        proof {
            lemma_false_count_bound(seen@);
        }
        let mut x = Exposing { seen, out };
        let ghost start = expose_view(self@, x);
        let n: usize = list.len();
        let mut k: usize = 0;
        while k < n
            invariant
                self@.wf(),
                self@.g == g,
                g == old(self)@.g,
                self@.lib_boundary == old(self)@.lib_boundary,
                view < self@.ns(),
                self@.imports_ok(view as int, Some(list@)),
                x.seen@.len() == self@.ns(),
                false_count(x.seen@) <= g.ns(),
                all_below(x.out@, self@.n()),
                n == list@.len(),
                k <= n,
                exposed_imports(g, expose_view(self@, x), view, list@, k as int) == exposed_imports(
                    g,
                    start,
                    view,
                    list@,
                    0,
                ),
            decreases n - k,
        {
            let i: OpenImport = list[k];
            proof {
                let some = Some(list@);
                assert(some->0[k as int].scope < self@.ns());
            }
            let recursive: bool = self.import_recursive(view, i.entry);
            self.exposed_scope(&mut x, view, i.entry, i.scope, recursive, Ghost(g.ns()));
            k += 1;
        }
        x.out
    }

    /// The elements that a view exposes: what its exposes name or bring in,
    /// as far as its conditions admit it.
    pub fn view_exposed_elements(&mut self, view: usize) -> (r: Vec<usize>)
        requires
            old(self)@.wf(),
            view < old(self)@.n(),
        ensures
            (final(self)@, r@) == exposed(old(self)@, view),
            final(self)@.wf(),
            final(self)@.g == old(self)@.g,
            final(self)@.lib_boundary == old(self)@.lib_boundary,
            all_below(r@, final(self)@.n()),
    {
        proof {
            reveal(exposed);
        }
        match self.body_scope(view) {
            Some(s) => self.exposed_in(s),
            None => {
                let none: Vec<usize> = Vec::new();
                assert(none@ =~= Seq::<usize>::empty());
                none
            },
        }
    }
}

} // verus!
