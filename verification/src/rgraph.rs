//! Walks over a graph's scopes that resolution decides by.

use crate::assoc::assoc;
use crate::ast::{ExprKind, Literal, QnV, QualifiedName};
use crate::names::{entries_view, Binding, LookupAccess};
use crate::rpure::{rooted, rooted_spec, with_new, with_new_spec, Outcome};
use crate::props::Value;
use crate::rstate::{hits_ok, LookupResult, RV, Resolver, Tri};
use crate::state::{all_below, below, increasing, lemma_scope_ok, BV, Builder};
use crate::text::str_eq;
use vstd::prelude::*;

verus! {

impl BV {
    /// Hits merged in order, from the `k`-th on.
    pub open spec fn merge_all(
        self,
        hits: Seq<LookupResult>,
        k: usize,
        acc: LookupResult,
    ) -> LookupResult
        decreases hits.len() - k,
    {
        if k < hits.len() && k < usize::MAX {
            self.merge_all(hits, (k + 1) as usize, self.merge(acc, hits[k as int]))
        } else {
            acc
        }
    }

    /// Whether a scope is another one or nested in it.
    pub open spec fn scope_within(self, s: usize, ancestor: usize) -> bool
        decreases s,
    {
        s == ancestor || match self.scope_parent(s) {
            Some(p) => p < s && self.scope_within(p, ancestor),
            None => false,
        }
    }

    /// The root scope, for a name written from the root.
    pub open spec fn root_or(self, scope: usize, global: bool) -> usize {
        if global {
            0
        } else {
            scope
        }
    }

    pub open spec fn root(self) -> usize {
        0
    }

    pub open spec fn scope_of(self, e: Option<usize>) -> Option<usize> {
        match e {
            Some(x) => self.body_scope(x),
            None => None,
        }
    }

    pub open spec fn outcome(self, e: Option<usize>) -> Option<Outcome> {
        match e {
            Some(x) => match self.body_scope(x) {
                Some(sc) => Some(Outcome { elem: x, scope: sc }),
                None => None,
            },
            None => None,
        }
    }

    /// The bodies of elements from the `k`-th on, each once and without the
    /// scope itself.
    pub open spec fn with_bodies(
        self,
        targets: Seq<usize>,
        s: usize,
        k: usize,
        acc: Seq<usize>,
    ) -> Seq<usize>
        decreases targets.len() - k,
    {
        if k < targets.len() && k < usize::MAX {
            self.with_bodies(
                targets,
                s,
                (k + 1) as usize,
                with_new_spec(acc, self.body_scope(targets[k as int]), s),
            )
        } else {
            acc
        }
    }

    /// The text of a string property.
    pub open spec fn prop_str(self, e: usize, key: Seq<char>) -> Option<Seq<char>> {
        let m = self.elements[e as int].props;
        if m.contains_key(key) {
            m[key].as_str()
        } else {
            None
        }
    }

    /// The declared name, or else the declared short name.
    pub open spec fn effective_name(self, e: usize) -> Option<Seq<char>> {
        match self.prop_str(e, "declaredName"@) {
            Some(n) => Some(n),
            None => self.prop_str(e, "declaredShortName"@),
        }
    }

    /// The owner of the outermost scope around a scope that is inside
    /// another one.
    pub open spec fn top_owner_from(self, s: usize) -> Option<usize>
        decreases s,
    {
        match self.scope_parent(s) {
            Some(p) => if self.scope_parent(p) is None {
                self.scope_owner(s)
            } else if p < s {
                self.top_owner_from(p)
            } else {
                None
            },
            None => None,
        }
    }

    /// The top-level package an element is nested in.
    pub open spec fn top_level_owner(self, e: usize) -> Option<usize> {
        match self.body_scope(e) {
            Some(s) => self.top_owner_from(s),
            None => None,
        }
    }

    /// Whether a metadata test against `target` is one against the
    /// candidate's own metaclass: KerML metaclasses, and the metadata
    /// definitions of the SysML and KerML library packages.
    pub open spec fn is_reflection(self, boundary: usize, target: usize) -> bool {
        self.is_ty(target, "Metaclass"@) || (self.is_ty(target, "MetadataDefinition"@) && target < boundary
            && match self.top_level_owner(target) {
            Some(p) => self.effective_name(p) == Some("SysML"@) || self.effective_name(p) == Some("KerML"@),
            None => false,
        })
    }

    /// The first member of a scope under a name.
    pub open spec fn first_named(self, s: usize, name: Seq<char>) -> Option<usize> {
        let m = self.scopes[s as int].names;
        if m.contains_key(name) && m[name].len() > 0 {
            Some(m[name][0].elem)
        } else {
            None
        }
    }

    /// The element named like the metaclass of `elem` beside a reflected
    /// metaclass.
    pub open spec fn sibling_metaclass(self, target: usize, elem: usize) -> Option<usize> {
        match self.body_scope(target) {
            Some(t) => match self.scope_parent(t) {
                Some(p) => self.first_named(p, self.ty(elem)),
                None => None,
            },
            None => None,
        }
    }

    pub open spec fn reflection_name(self, sysml: bool, elem: usize) -> QnV {
        rooted_spec(
            if sysml {
                "SysML"@
            } else {
                "KerML"@
            },
            self.ty(elem),
        )
    }

    /// The member of an annotation that binds an attribute: declared, or
    /// found by its effective name.
    pub open spec fn attr_elem(self, ms: usize, attr: Seq<char>) -> Option<usize> {
        let sc = self.scopes[ms as int];
        if sc.names.contains_key(attr) {
            if sc.names[attr].len() > 0 {
                Some(sc.names[attr][0].elem)
            } else {
                None
            }
        } else if sc.effective_names.contains_key(attr) && sc.effective_names[attr].len() > 0 {
            Some(sc.effective_names[attr][0].elem)
        } else {
            None
        }
    }

    /// The truth value a feature is bound to, where it is a literal.
    pub open spec fn bool_value(self, f: usize) -> Tri {
        match self.value_expr(f) {
            Some(x) => match x.kind {
                ExprKind::Literal(lit) => match lit {
                    Literal::Bool(v) => if v {
                        Tri::True
                    } else {
                        Tri::False
                    },
                    _ => Tri::Unknown,
                },
                _ => Tri::Unknown,
            },
            None => Tri::Unknown,
        }
    }

    /// The truth value an annotation binds an attribute to.
    pub open spec fn attr_member(self, ann: usize, attr: Seq<char>) -> Tri {
        match self.body_scope(ann) {
            Some(ms) => match self.attr_elem(ms, attr) {
                Some(f) => self.bool_value(f),
                None => Tri::Unknown,
            },
            None => Tri::Unknown,
        }
    }

    /// Whether `t` is the body of a named member of `s` that the access
    /// admits.
    pub open spec fn is_sub(self, s: usize, access: LookupAccess, t: usize) -> bool {
        let m = self.scopes[s as int].names;
        exists|name: Seq<char>, k: int| #![trigger m[name][k]]
            m.contains_key(name) && 0 <= k < m[name].len() && m[name][k].sub_scope == Some(t) && access.admits(
                m[name][k].visibility,
            )
    }

    /// The bodies of the named members of a scope below `limit`, in scope
    /// order.
    pub open spec fn subs_below(self, s: usize, access: LookupAccess, limit: nat) -> Seq<usize>
        decreases limit,
    {
        if limit == 0 {
            Seq::empty()
        } else {
            let rest = self.subs_below(s, access, (limit - 1) as nat);
            if self.is_sub(s, access, (limit - 1) as usize) {
                rest.push((limit - 1) as usize)
            } else {
                rest
            }
        }
    }

    #[verifier::opaque]
    pub open spec fn sub_scopes(self, s: usize, access: LookupAccess) -> Seq<usize> {
        self.subs_below(s, access, self.ns())
    }
}

proof fn lemma_subs_below(g: BV, s: usize, access: LookupAccess, limit: nat)
    requires
        limit <= usize::MAX,
    ensures
        increasing(g.subs_below(s, access, limit)),
        forall|t: usize| #[trigger] g.subs_below(s, access, limit).contains(t) <==> t < limit && g.is_sub(s, access, t),
    decreases limit,
{
    if limit > 0 {
        let rest = g.subs_below(s, access, (limit - 1) as nat);
        lemma_subs_below(g, s, access, (limit - 1) as nat);
        let all = g.subs_below(s, access, limit);
        let top = (limit - 1) as usize;
        assert forall|k: int| 0 <= k < rest.len() implies #[trigger] rest[k] < top by {
            assert(rest.contains(rest[k]));
        }
        assert forall|t: usize| #[trigger] all.contains(t) <==> t < limit && g.is_sub(s, access, t) by {
            if all.contains(t) {
                let k = choose|k: int| 0 <= k < all.len() && all[k] == t;
                if k < rest.len() {
                    assert(rest[k] == t);
                    assert(rest.contains(t));
                }
            }
            if t < limit && g.is_sub(s, access, t) {
                if t < top {
                    assert(rest.contains(t));
                    let k = choose|k: int| 0 <= k < rest.len() && rest[k] == t;
                    assert(all[k] == t);
                } else {
                    assert(all[all.len() - 1] == t);
                }
            }
        }
    }
}

/// Two increasing lists of the same indices are the same list.
proof fn lemma_increasing_unique(a: Seq<usize>, b: Seq<usize>)
    requires
        increasing(a),
        increasing(b),
        forall|t: usize| a.contains(t) <==> b.contains(t),
    ensures
        a == b,
    decreases a.len(),
{
    if a.len() == 0 {
        if b.len() > 0 {
            assert(b.contains(b[0]));
            assert(a.contains(b[0]));
        }
        assert(a =~= b);
    } else {
        let x = a.last();
        assert(a.contains(x));
        assert(b.contains(x));
        let k = choose|k: int| 0 <= k < b.len() && b[k] == x;
        let y = b.last();
        assert(b.contains(y));
        assert(a.contains(y));
        let j = choose|j: int| 0 <= j < a.len() && a[j] == y;
        assert(x == y) by {
            if k < b.len() - 1 {
                assert(b[k] < b[b.len() - 1]);
            }
            if j < a.len() - 1 {
                assert(a[j] < a[a.len() - 1]);
            }
        }
        let p = a.drop_last();
        let q = b.drop_last();
        assert(increasing(p)) by {
            assert forall|i: int, l: int| 0 <= i < l < p.len() implies #[trigger] p[i] < #[trigger] p[l] by {
                assert(a[i] < a[l]);
            }
        }
        assert(increasing(q)) by {
            assert forall|i: int, l: int| 0 <= i < l < q.len() implies #[trigger] q[i] < #[trigger] q[l] by {
                assert(b[i] < b[l]);
            }
        }
        assert forall|t: usize| p.contains(t) <==> q.contains(t) by {
            if p.contains(t) {
                let i = choose|i: int| 0 <= i < p.len() && p[i] == t;
                assert(a[i] == t);
                assert(a[i] < a[a.len() - 1]);
                assert(a.contains(t));
                assert(b.contains(t));
                let l = choose|l: int| 0 <= l < b.len() && b[l] == t;
                assert(q[l] == t);
            }
            if q.contains(t) {
                let i = choose|i: int| 0 <= i < q.len() && q[i] == t;
                assert(b[i] == t);
                assert(b[i] < b[b.len() - 1]);
                assert(b.contains(t));
                assert(a.contains(t));
                let l = choose|l: int| 0 <= l < a.len() && a[l] == t;
                assert(p[l] == t);
            }
        }
        lemma_increasing_unique(p, q);
        assert(a =~= p.push(x));
        assert(b =~= q.push(x));
    }
}

/// Every key of an association list is the key of an entry.
proof fn lemma_assoc_key(s: Seq<(Seq<char>, Seq<Binding>)>, name: Seq<char>)
    requires
        assoc(s).contains_key(name),
    ensures
        exists|i: int| 0 <= i < s.len() && (#[trigger] s[i]).0 == name,
    decreases s.len(),
{
    if s.len() > 0 {
        if s.last().0 == name {
            assert(s[s.len() - 1].0 == name);
        } else {
            lemma_assoc_key(s.drop_last(), name);
            let i = choose|i: int| 0 <= i < s.drop_last().len() && (#[trigger] s.drop_last()[i]).0 == name;
            assert(s[i].0 == name);
        }
    }
}

/// Insert an index into an increasing list, unless it is there.
fn insert_sorted(v: Vec<usize>, t: usize) -> (r: Vec<usize>)
    requires
        increasing(v@),
    ensures
        increasing(r@),
        forall|x: usize| #[trigger] r@.contains(x) <==> v@.contains(x) || x == t,
{
    let mut out: Vec<usize> = Vec::new();
    let mut placed = false;
    let mut k: usize = 0;
    while k < v.len()
        invariant
            k <= v@.len(),
            increasing(v@),
            increasing(out@),
            !placed ==> out@ =~= v@.subrange(0, k as int),
            !placed ==> forall|j: int| 0 <= j < k ==> v@[j] < t,
            placed ==> forall|x: usize| #[trigger] out@.contains(x) <==> x == t || exists|j: int| 0 <= j < k && v@[j] == x,
            forall|j: int| 0 <= j < out@.len() && k > 0 ==> out@[j] <= (if placed && v@[k - 1] < t { t } else { v@[k - 1] }),
            placed ==> k > 0 && t <= v@[k - 1],
        decreases v@.len() - k,
    {
        let ghost before = out@;
        let x: usize = v[k];
        if !placed && t <= x {
            placed = true;
            if t < x {
                out.push(t);
            }
            let ghost mid = out@;
            out.push(x);
            assert forall|y: usize| #[trigger] out@.contains(y) <==> y == t || exists|j: int| 0 <= j < k + 1 && v@[j] == y by {
                if out@.contains(y) {
                    let i = choose|i: int| 0 <= i < out@.len() && out@[i] == y;
                    if i < before.len() {
                        assert(v@[i] == y);
                    } else if i == mid.len() {
                        assert(v@[k as int] == y);
                    }
                }
                if y == t {
                    if t < x {
                        assert(out@[before.len() as int] == t);
                    } else {
                        assert(out@[mid.len() as int] == t);
                    }
                }
                if exists|j: int| 0 <= j < k + 1 && v@[j] == y {
                    let j = choose|j: int| 0 <= j < k + 1 && v@[j] == y;
                    if j < k {
                        assert(out@[j] == y);
                    } else {
                        assert(out@[mid.len() as int] == y);
                    }
                }
            }
        } else {
            out.push(x);
            if placed {
                assert forall|y: usize| #[trigger] out@.contains(y) <==> y == t || exists|j: int| 0 <= j < k + 1 && v@[j] == y by {
                    if out@.contains(y) {
                        let i = choose|i: int| 0 <= i < out@.len() && out@[i] == y;
                        if i < before.len() {
                            assert(before[i] == y);
                            assert(before.contains(y));
                        } else {
                            assert(v@[k as int] == y);
                        }
                    }
                    if y == t || exists|j: int| 0 <= j < k + 1 && v@[j] == y {
                        if y == t || exists|j: int| 0 <= j < k && v@[j] == y {
                            assert(before.contains(y));
                            let i = choose|i: int| 0 <= i < before.len() && before[i] == y;
                            assert(out@[i] == y);
                        } else {
                            assert(out@[before.len() as int] == y);
                        }
                    }
                }
            }
        }
        k += 1;
        assert(!placed ==> v@.subrange(0, k as int) =~= v@.subrange(0, k - 1).push(v@[k - 1]));
    }
    let ghost before = out@;
    if !placed {
        out.push(t);
        assert(before =~= v@);
        assert forall|x: usize| #[trigger] out@.contains(x) <==> v@.contains(x) || x == t by {
            if out@.contains(x) {
                let i = choose|i: int| 0 <= i < out@.len() && out@[i] == x;
                if i < before.len() {
                    assert(v@[i] == x);
                }
            }
            if v@.contains(x) {
                let i = choose|i: int| 0 <= i < v@.len() && v@[i] == x;
                assert(out@[i] == x);
            }
            if x == t {
                assert(out@[before.len() as int] == t);
            }
        }
    }
    out
}

impl Resolver {
    /// Merge hits in order.
    pub fn merge_all(
        &self,
        hits: &Vec<LookupResult>,
        k: usize,
        acc: LookupResult,
    ) -> (r: LookupResult)
        requires
            self@.wf(),
            hits_ok(hits@, self@.n(), self@.ns()),
            acc.ok(self@.n(), self@.ns()),
            k <= hits@.len(),
        ensures
            r == self@.g.merge_all(hits@, k, acc),
            r.ok(self@.n(), self@.ns()),
        decreases hits@.len() - k,
    {
        if k < hits.len() {
            let next = self.merge(acc, hits[k]);
            self.merge_all(hits, k + 1, next)
        } else {
            acc
        }
    }

    /// Whether a scope is another one or nested in it.
    pub fn scope_within(&self, s: usize, ancestor: usize) -> (r: bool)
        requires
            self@.wf(),
            s < self@.ns(),
        ensures
            r == self@.g.scope_within(s, ancestor),
        decreases s,
    {
        if s == ancestor {
            return true;
        }
        match self.scope_parent(s) {
            Some(p) => self.scope_within(p, ancestor),
            None => false,
        }
    }

    pub fn root_or(&self, scope: usize, global: bool) -> (r: usize)
        requires
            self@.wf(),
            scope < self@.ns(),
        ensures
            r == self@.g.root_or(scope, global),
            r < self@.ns(),
    {
        if global {
            0
        } else {
            scope
        }
    }

    pub fn root(&self) -> (r: usize)
        requires
            self@.wf(),
        ensures
            r == self@.g.root(),
            r < self@.ns(),
    {
        proof {
            reveal(RV::wf);
        }
        0
    }

    pub fn scope_of(&self, e: Option<usize>) -> (r: Option<usize>)
        requires
            self@.wf(),
            below(e, self@.n()),
        ensures
            r == self@.g.scope_of(e),
            below(r, self@.ns()),
    {
        match e {
            Some(x) => self.body_scope(x),
            None => None,
        }
    }

    pub fn outcome(&self, e: Option<usize>) -> (r: Option<Outcome>)
        requires
            self@.wf(),
            below(e, self@.n()),
        ensures
            r == self@.g.outcome(e),
            r is Some ==> r->0.elem < self@.n() && r->0.scope < self@.ns(),
    {
        match e {
            Some(x) => match self.body_scope(x) {
                Some(sc) => Some(Outcome { elem: x, scope: sc }),
                None => None,
            },
            None => None,
        }
    }

    /// The bodies of elements, each once and without the scope itself.
    pub fn with_bodies(
        &self,
        targets: &Vec<usize>,
        s: usize,
        k: usize,
        acc: Vec<usize>,
    ) -> (r: Vec<usize>)
        requires
            self@.wf(),
            all_below(targets@, self@.n()),
            all_below(acc@, self@.ns()),
            k <= targets@.len(),
        ensures
            r@ == self@.g.with_bodies(targets@, s, k, acc@),
            all_below(r@, self@.ns()),
        decreases targets@.len() - k,
    {
        if k < targets.len() {
            let sc = self.body_scope(targets[k]);
            let next = with_new(acc, sc, s);
            self.with_bodies(targets, s, k + 1, next)
        } else {
            acc
        }
    }

    fn prop_is(&self, e: usize, key: &str, other: &str, name: &str) -> (r: bool)
        requires
            self@.wf(),
            e < self@.n(),
        ensures
            r == (match self@.g.prop_str(e, key@) {
                Some(n) => n == name@,
                None => self@.g.prop_str(e, other@) == Some(name@),
            }),
    {
        proof {
            reveal(Resolver::view);
            reveal(Builder::view);
        }
        match self.graph.elements[e].props.get(key) {
            Some(Value::Str(s)) => str_eq(s.as_str(), name),
            _ => match self.graph.elements[e].props.get(other) {
                Some(Value::Str(s)) => str_eq(s.as_str(), name),
                _ => false,
            },
        }
    }

    /// Whether an element is known by a name.
    pub fn is_named(&self, e: usize, name: &str) -> (r: bool)
        requires
            self@.wf(),
            e < self@.n(),
        ensures
            r == (self@.g.effective_name(e) == Some(name@)),
    {
        self.prop_is(e, "declaredName", "declaredShortName", name)
    }

    fn top_owner_from(&self, s: usize) -> (r: Option<usize>)
        requires
            self@.wf(),
            s < self@.ns(),
        ensures
            r == self@.g.top_owner_from(s),
            below(r, self@.n()),
        decreases s,
    {
        match self.scope_parent(s) {
            Some(p) => {
                if self.scope_parent(p).is_none() {
                    self.scope_owner(s)
                } else {
                    self.top_owner_from(p)
                }
            },
            None => None,
        }
    }

    /// Whether a metadata test is one against the candidate's own metaclass.
    pub fn is_reflection(&self, boundary: usize, target: usize) -> (r: bool)
        requires
            self@.wf(),
            target < self@.n(),
        ensures
            r == self@.g.is_reflection(boundary, target),
    {
        if self.is_ty(target, "Metaclass") {
            return true;
        }
        if !self.is_ty(target, "MetadataDefinition") || target >= boundary {
            return false;
        }
        match self.body_scope(target) {
            Some(s) => match self.top_owner_from(s) {
                Some(p) => self.is_named(p, "SysML") || self.is_named(p, "KerML"),
                None => false,
            },
            None => false,
        }
    }

    /// The element named like the metaclass of `elem` beside a reflected
    /// metaclass.
    pub fn sibling_metaclass(&self, target: usize, elem: usize) -> (r: Option<usize>)
        requires
            self@.wf(),
            target < self@.n(),
            elem < self@.n(),
        ensures
            r == self@.g.sibling_metaclass(target, elem),
            below(r, self@.n()),
    {
        match self.body_scope(target) {
            Some(t) => match self.scope_parent(t) {
                Some(p) => {
                    proof {
                        reveal(Resolver::view);
                        reveal(Builder::view);
                        reveal(RV::wf);
                        lemma_scope_ok(self@.g, p as int);
                    }
                    let ty = self.graph.elements[elem].ty;
                    match self.graph.scopes[p].names.get(ty) {
                        Some(bs) => {
                            if bs.len() > 0 {
                                assert(self@.g.scopes[p as int].names[ty@][0] == bs@[0]);
                                Some(bs[0].elem)
                            } else {
                                None
                            }
                        },
                        None => None,
                    }
                },
                None => None,
            },
            None => None,
        }
    }

    pub fn reflection_name(&self, sysml: bool, elem: usize) -> (r: QualifiedName)
        requires
            self@.wf(),
            elem < self@.n(),
        ensures
            r@ == self@.g.reflection_name(sysml, elem),
    {
        proof {
            reveal(Resolver::view);
        }
        let ty = self.graph.ty(elem);
        if sysml {
            rooted("SysML", ty)
        } else {
            rooted("KerML", ty)
        }
    }

    fn attr_elem(&self, ms: usize, attr: &str) -> (r: Option<usize>)
        requires
            self@.wf(),
            ms < self@.ns(),
        ensures
            r == self@.g.attr_elem(ms, attr@),
            below(r, self@.n()),
    {
        proof {
            reveal(Resolver::view);
            reveal(Builder::view);
            reveal(RV::wf);
            lemma_scope_ok(self@.g, ms as int);
        }
        match self.graph.scopes[ms].names.get(attr) {
            Some(bs) => {
                if bs.len() > 0 {
                    assert(self@.g.scopes[ms as int].names[attr@][0] == bs@[0]);
                    Some(bs[0].elem)
                } else {
                    None
                }
            },
            None => match self.graph.scopes[ms].effective_names.get(attr) {
                Some(bs) => {
                    if bs.len() > 0 {
                        assert(self@.g.scopes[ms as int].effective_names[attr@][0] == bs@[0]);
                        Some(bs[0].elem)
                    } else {
                        None
                    }
                },
                None => None,
            },
        }
    }

    /// The truth value an annotation binds an attribute to.
    pub fn attr_member(&self, ann: usize, attr: &str) -> (r: Tri)
        requires
            self@.wf(),
            ann < self@.n(),
        ensures
            r == self@.g.attr_member(ann, attr@),
    {
        match self.body_scope(ann) {
            Some(ms) => match self.attr_elem(ms, attr) {
                Some(f) => match self.value_expr(f) {
                    Some(x) => match &x.kind {
                        ExprKind::Literal(lit) => match lit {
                            Literal::Bool(v) => {
                                if *v {
                                    Tri::True
                                } else {
                                    Tri::False
                                }
                            },
                            _ => Tri::Unknown,
                        },
                        _ => Tri::Unknown,
                    },
                    None => Tri::Unknown,
                },
                None => Tri::Unknown,
            },
            None => Tri::Unknown,
        }
    }

    /// The bodies of the named members of a scope that the access admits, in
    /// scope order.
    pub fn sub_scopes(&self, s: usize, access: LookupAccess) -> (r: Vec<usize>)
        requires
            self@.wf(),
            s < self@.ns(),
        ensures
            r@ == self@.g.sub_scopes(s, access),
            all_below(r@, self@.ns()),
    {
        proof {
            reveal(Resolver::view);
            reveal(Builder::view);
            reveal(RV::wf);
            reveal(BV::wf);
            reveal(BV::sub_scopes);
            lemma_scope_ok(self@.g, s as int);
        }
        let names = &self.graph.scopes[s].names;
        let ghost m = self@.g.scopes[s as int].names;
        assert(m == names@);
        let mut out: Vec<usize> = Vec::new();
        let mut i: usize = 0;
        while i < names.entries.len()
            invariant
                i <= names.entries@.len(),
                m == names@,
                m == self@.g.scopes[s as int].names,
                crate::state::bindings_ok(m, self@.n(), self@.ns()),
                increasing(out@),
                all_below(out@, self@.ns()),
                forall|t: usize| #[trigger] out@.contains(t) ==> self@.g.is_sub(s, access, t),
                forall|j: int, k: int|
                    0 <= j < i && m.contains_key(names.entries@[j].name@) && 0 <= k < m[names.entries@[j].name@].len() && access.admits(
                        m[names.entries@[j].name@][k].visibility,
                    ) && m[names.entries@[j].name@][k].sub_scope is Some ==> out@.contains(
                        (#[trigger] m[names.entries@[j].name@][k]).sub_scope->0,
                    ),
            decreases names.entries@.len() - i,
        {
            let name = names.entries[i].name.as_str();
            if let Some(bs) = names.get(name) {
                let mut k: usize = 0;
                let ghost start = out@;
                while k < bs.len()
                    invariant
                        k <= bs@.len(),
                        m == self@.g.scopes[s as int].names,
                        m.contains_key(name@),
                        m[name@] == bs@,
                        crate::state::bindings_ok(m, self@.n(), self@.ns()),
                        increasing(out@),
                        all_below(out@, self@.ns()),
                        forall|t: usize| start.contains(t) ==> out@.contains(t),
                        forall|t: usize| #[trigger] out@.contains(t) ==> self@.g.is_sub(s, access, t),
                        forall|j: int|
                            0 <= j < k && access.admits(bs@[j].visibility) && bs@[j].sub_scope is Some ==> out@.contains(
                                (#[trigger] bs@[j]).sub_scope->0,
                            ),
                    decreases bs@.len() - k,
                {
                    let b = bs[k];
                    assert(m[name@][k as int] == b);
                    if access.admits(b.visibility) {
                        if let Some(t) = b.sub_scope {
                            let ghost prev = out@;
                            out = insert_sorted(out, t);
                            assert(all_below(out@, self@.ns())) by {
                                assert forall|j: int| 0 <= j < out@.len() implies #[trigger] out@[j] < self@.ns() by {
                                    assert(out@.contains(out@[j]));
                                    if out@[j] != t {
                                        assert(prev.contains(out@[j]));
                                        let l = choose|l: int| 0 <= l < prev.len() && prev[l] == out@[j];
                                        assert(prev[l] < self@.ns());
                                    }
                                }
                            }
                            assert(self@.g.is_sub(s, access, t));
                        }
                    }
                    k += 1;
                }
            }
            i += 1;
        }
        proof {
            lemma_subs_below(self@.g, s, access, self@.ns());
            assert forall|t: usize| out@.contains(t) <==> self@.g.subs_below(s, access, self@.ns()).contains(t) by {
                if out@.contains(t) {
                    let l = choose|l: int| 0 <= l < out@.len() && out@[l] == t;
                    assert(out@[l] < self@.ns());
                }
                if self@.g.is_sub(s, access, t) {
                    let (name, k) = choose|name: Seq<char>, k: int| #![trigger m[name][k]]
                        m.contains_key(name) && 0 <= k < m[name].len() && m[name][k].sub_scope == Some(t) && access.admits(
                            m[name][k].visibility,
                        );
                    lemma_assoc_key(entries_view(names.entries@), name);
                    let j = choose|j: int| 0 <= j < entries_view(names.entries@).len() && (#[trigger] entries_view(names.entries@)[j]).0 == name;
                    assert(names.entries@[j].name@ == name);
                    assert(m[names.entries@[j].name@][k].sub_scope->0 == t);
                }
            }
            lemma_increasing_unique(out@, self@.g.subs_below(s, access, self@.ns()));
        }
        out
    }
}

} // verus!
