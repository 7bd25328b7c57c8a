//! A resolved model, ready to answer derived properties.
use crate::closures::{walks_of, Closures, WalkedV, Walks};
use crate::derive_base::{
    callees_view, externals_view, lists_view, opt_ref_ok, opt_ref_view, Derivation, External,
    ExternalV, RefV, Reference, DV,
};
use crate::derive_lists::{joined, lemma_union_begins};
use crate::expose::exposed;
use crate::graph_get::opt_text;
use crate::id_names::IdIndex;
use crate::implied::{id_under, named_ids, name_rows, named_rows, with_implied, NamedId};
use crate::linker::Linker;
use crate::metamodel::{ClosurePolicy, Metamodel, MetamodelV};
use crate::model_build::{Built, BuiltV};
use crate::naming_ids::text_prop;
use crate::queries::qualified;
use crate::refname::push_text;
use crate::rstate::{Resolver, RV};
use crate::state::{all_below, Builder};
use crate::text::str_eq;
use vstd::prelude::*;

verus! {

/// A library element by its name: one of the loaded library, or else one
/// known from outside.
#[verifier::opaque]
pub open spec fn library_named(
    b: RV,
    rows: Seq<(Seq<char>, u128)>,
    quoted: Seq<char>,
    raw: Seq<char>,
) -> (RV, Option<RefV>) {
    let (b, hit) = qualified(b, quoted);
    let outside = match id_under(rows, raw, rows.len() as int) {
        Some(id) => Some(RefV::External(id)),
        None => None,
    };
    (b, match hit {
        Some(f) => if f < b.lib_boundary {
            Some(RefV::Element(f))
        } else {
            outside
        },
        None => outside,
    })
}

pub open spec fn quoted_in(package: Seq<char>, op: Seq<char>) -> Seq<char> {
    package + "::'"@ + op + "'"@
}

pub open spec fn raw_in(package: Seq<char>, op: Seq<char>) -> Seq<char> {
    package + "::"@ + op
}

/// The function of an operator: in one of three library packages.
#[verifier::opaque]
pub open spec fn operator_function(
    b: RV,
    rows: Seq<(Seq<char>, u128)>,
    op: Seq<char>,
) -> (RV, Option<RefV>) {
    let (b, x) = library_named(b, rows, quoted_in("BaseFunctions"@, op), raw_in("BaseFunctions"@, op));
    if x is Some {
        (b, x)
    } else {
        let (b, x) = library_named(
            b,
            rows,
            quoted_in("DataFunctions"@, op),
            raw_in("DataFunctions"@, op),
        );
        if x is Some {
            (b, x)
        } else {
            library_named(
                b,
                rows,
                quoted_in("ControlFunctions"@, op),
                raw_in("ControlFunctions"@, op),
            )
        }
    }
}

/// The library function of a trigger.
pub open spec fn trigger_name(kind: Option<Seq<char>>) -> Seq<char> {
    if kind == Some("when"@) {
        "Triggers::TriggerWhen"@
    } else if kind == Some("at"@) {
        "Triggers::TriggerAt"@
    } else {
        "Triggers::TriggerAfter"@
    }
}

/// The library function that an operator expression or a trigger
/// instantiates.
#[verifier::opaque]
pub open spec fn library_callee(
    b: RV,
    mm: MetamodelV,
    rows: Seq<(Seq<char>, u128)>,
    e: usize,
) -> (RV, Option<RefV>) {
    let x = b.g.elements[e as int];
    if mm.conforms(x.ty, "OperatorExpression"@) {
        match text_prop(x, "operator"@) {
            Some(op) => operator_function(b, rows, op),
            None => (b, None),
        }
    } else if x.ty == "TriggerInvocationExpression"@ {
        let name = trigger_name(text_prop(x, "kind"@));
        library_named(b, rows, name, name)
    } else {
        (b, None)
    }
}

/// The library functions of the elements from `e` on.
pub open spec fn callees_from(
    b: RV,
    mm: MetamodelV,
    rows: Seq<(Seq<char>, u128)>,
    done: Seq<Option<RefV>>,
    n: nat,
) -> (RV, Seq<Option<RefV>>)
    decreases n - done.len(),
{
    if done.len() >= n {
        (b, done)
    } else {
        let (b, x) = library_callee(b, mm, rows, done.len() as usize);
        callees_from(b, mm, rows, done.push(x), n)
    }
}

/// What the elements from `e` on expose; only views expose anything.
pub open spec fn exposures_from(
    b: RV,
    mm: MetamodelV,
    done: Seq<Seq<usize>>,
    n: nat,
) -> (RV, Seq<Seq<usize>>)
    decreases n - done.len(),
{
    if done.len() >= n {
        (b, done)
    } else {
        let e = done.len() as usize;
        if mm.conforms(b.g.elements[e as int].ty, "ViewUsage"@) {
            let (b, x) = exposed(b, e);
            exposures_from(b, mm, done.push(x), n)
        } else {
            exposures_from(b, mm, done.push(Seq::empty()), n)
        }
    }
}

/// The setting in which a built model's derived properties are read.
pub open spec fn resolved(
    m: BuiltV,
    mm: MetamodelV,
    named: Seq<(Seq<char>, u128)>,
    externals: Seq<ExternalV>,
    written: WalkedV,
    implied: WalkedV,
) -> DV {
    let b = m.l.r;
    let n = b.n();
    let rows = named_rows(m.qnames) + named;
    let (b, callee) = callees_from(b, mm, named, Seq::empty(), n);
    let (b, anything) = library_named(b, named, "Base::Anything::self"@, "Base::Anything::self"@);
    let (b, shown) = exposures_from(b, mm, Seq::empty(), n);
    let (g, owners) = with_implied(b.g, mm, rows, m.boundary);
    DV {
        g,
        mm,
        from: n as usize,
        implied_owner: owners,
        policy: ClosurePolicy::Passthrough,
        written_walks: walks_of(b.g, written).padded(owners.len()),
        implied_walks: walks_of(b.g, implied).padded(owners.len()),
        exposed: shown + Seq::new(owners.len(), |i: int| Seq::<usize>::empty()),
        callee: callee + Seq::new(owners.len(), |i: int| None::<RefV>),
        lib_boundary: m.boundary,
        externals,
        anything_self: anything,
    }
}

fn find_row(rows: &Vec<NamedId>, name: &str) -> (r: Option<u128>)
    ensures
        r == id_under(named_ids(rows@), name@, named_ids(rows@).len() as int),
{
    let n: usize = rows.len();
    let mut k: usize = n;
    assert(named_ids(rows@).len() == n);
    while k > 0
        invariant
            n == rows@.len(),
            k <= n,
            id_under(named_ids(rows@), name@, n as int) == id_under(
                named_ids(rows@),
                name@,
                k as int,
            ),
        decreases k,
    {
        k -= 1;
        assert(named_ids(rows@)[k as int] == (rows@[k as int].name@, rows@[k as int].id));
        if str_eq(rows[k].name.as_str(), name) {
            return Some(rows[k].id);
        }
    }
    None
}

fn quoted_text(package: &str, op: &str) -> (r: String)
    ensures
        r@ == quoted_in(package@, op@),
{
    let mut s: String = package.to_owned();
    push_text(&mut s, "::'");
    push_text(&mut s, op);
    push_text(&mut s, "'");
    s
}

fn raw_text(package: &str, op: &str) -> (r: String)
    ensures
        r@ == raw_in(package@, op@),
{
    let mut s: String = package.to_owned();
    push_text(&mut s, "::");
    push_text(&mut s, op);
    s
}

impl Resolver {
    fn library_named(
        &mut self,
        rows: &Vec<NamedId>,
        quoted: &str,
        raw: &str,
    ) -> (r: Option<Reference>)
        requires
            old(self)@.wf(),
        ensures
            (final(self)@, opt_ref_view(r)) == library_named(
                old(self)@,
                named_ids(rows@),
                quoted@,
                raw@,
            ),
            final(self)@.wf(),
            final(self)@.g == old(self)@.g,
            final(self)@.lib_boundary == old(self)@.lib_boundary,
            opt_ref_ok(opt_ref_view(r), final(self)@.n()),
    {
        proof {
            reveal(library_named);
        }
        let hit = self.resolve_qualified(quoted);
        let boundary: usize = self.read_lib_boundary();
        if let Some(f) = hit {
            if f < boundary {
                return Some(Reference::Element(f));
            }
        }
        match find_row(rows, raw) {
            Some(id) => Some(Reference::External(id)),
            None => None,
        }
    }

    fn operator_function(&mut self, rows: &Vec<NamedId>, op: &str) -> (r: Option<Reference>)
        requires
            old(self)@.wf(),
        ensures
            (final(self)@, opt_ref_view(r)) == operator_function(old(self)@, named_ids(rows@), op@),
            final(self)@.wf(),
            final(self)@.g == old(self)@.g,
            final(self)@.lib_boundary == old(self)@.lib_boundary,
            opt_ref_ok(opt_ref_view(r), final(self)@.n()),
    {
        proof {
            reveal(operator_function);
        }
        let q: String = quoted_text("BaseFunctions", op);
        let w: String = raw_text("BaseFunctions", op);
        let x = self.library_named(rows, q.as_str(), w.as_str());
        if x.is_some() {
            return x;
        }
        let q: String = quoted_text("DataFunctions", op);
        let w: String = raw_text("DataFunctions", op);
        let x = self.library_named(rows, q.as_str(), w.as_str());
        if x.is_some() {
            return x;
        }
        let q: String = quoted_text("ControlFunctions", op);
        let w: String = raw_text("ControlFunctions", op);
        self.library_named(rows, q.as_str(), w.as_str())
    }

    fn elem_text(&self, e: usize, key: &str) -> (r: Option<String>)
        requires
            e < self@.n(),
        ensures
            opt_text(r) == text_prop(self@.g.elements[e as int], key@),
    {
        proof {
            reveal(Resolver::view);
        }
        self.graph.text_of(e, key)
    }

    fn elem_type(&self, e: usize) -> (r: &'static str)
        requires
            e < self@.n(),
        ensures
            r@ == self@.g.elements[e as int].ty,
    {
        proof {
            reveal(Resolver::view);
        }
        self.graph.ty_of(e)
    }

    fn library_callee(
        &mut self,
        mm: &Metamodel,
        rows: &Vec<NamedId>,
        e: usize,
    ) -> (r: Option<Reference>)
        requires
            old(self)@.wf(),
            e < old(self)@.n(),
        ensures
            (final(self)@, opt_ref_view(r)) == library_callee(old(self)@, mm@, named_ids(rows@), e),
            final(self)@.wf(),
            final(self)@.g == old(self)@.g,
            final(self)@.lib_boundary == old(self)@.lib_boundary,
            opt_ref_ok(opt_ref_view(r), final(self)@.n()),
    {
        proof {
            reveal(library_callee);
        }
        let ty: &'static str = self.elem_type(e);
        if mm.conforms(ty, "OperatorExpression") {
            return match self.elem_text(e, "operator") {
                Some(op) => self.operator_function(rows, op.as_str()),
                None => None,
            };
        }
        if str_eq(ty, "TriggerInvocationExpression") {
            let name: &'static str = match self.elem_text(e, "kind") {
                Some(k) => if str_eq(k.as_str(), "when") {
                    "Triggers::TriggerWhen"
                } else if str_eq(k.as_str(), "at") {
                    "Triggers::TriggerAt"
                } else {
                    "Triggers::TriggerAfter"
                },
                None => "Triggers::TriggerAfter",
            };
            return self.library_named(rows, name, name);
        }
        None
    }

    fn all_callees(&mut self, mm: &Metamodel, rows: &Vec<NamedId>) -> (r: Vec<Option<Reference>>)
        requires
            old(self)@.wf(),
        ensures
            (final(self)@, callees_view(r@)) == callees_from(
                old(self)@,
                mm@,
                named_ids(rows@),
                Seq::empty(),
                old(self)@.n(),
            ),
            final(self)@.wf(),
            final(self)@.g == old(self)@.g,
            final(self)@.lib_boundary == old(self)@.lib_boundary,
            r@.len() == final(self)@.n(),
            forall|i: int| 0 <= i < r@.len() ==> opt_ref_ok(#[trigger] callees_view(r@)[i], final(self)@.n()),
    {
        let n: usize = self.elem_count();
        let mut out: Vec<Option<Reference>> = Vec::new();
        assert(callees_view(out@) =~= Seq::<Option<RefV>>::empty());
        while out.len() < n
            invariant
                self@.wf(),
                self@.g == old(self)@.g,
                self@.lib_boundary == old(self)@.lib_boundary,
                n == self@.n(),
                out@.len() <= n,
                forall|i: int| 0 <= i < out@.len() ==> opt_ref_ok(#[trigger] callees_view(out@)[i], self@.n()),
                callees_from(self@, mm@, named_ids(rows@), callees_view(out@), n as nat) == callees_from(
                    old(self)@,
                    mm@,
                    named_ids(rows@),
                    Seq::empty(),
                    n as nat,
                ),
            decreases n - out@.len(),
        {
            let e: usize = out.len();
            let ghost before = callees_view(out@);
            assert(before.len() == e);
            let x = self.library_callee(mm, rows, e);
            let ghost xv = opt_ref_view(x);
            out.push(x);
            assert(callees_view(out@) =~= before.push(xv));
        }
        out
    }

    fn all_exposures(&mut self, mm: &Metamodel) -> (r: Vec<Vec<usize>>)
        requires
            old(self)@.wf(),
        ensures
            (final(self)@, lists_view(r@)) == exposures_from(
                old(self)@,
                mm@,
                Seq::empty(),
                old(self)@.n(),
            ),
            final(self)@.wf(),
            final(self)@.g == old(self)@.g,
            final(self)@.lib_boundary == old(self)@.lib_boundary,
            r@.len() == final(self)@.n(),
            forall|i: int| 0 <= i < r@.len() ==> all_below(#[trigger] lists_view(r@)[i], final(self)@.n()),
    {
        let n: usize = self.elem_count();
        let mut out: Vec<Vec<usize>> = Vec::new();
        assert(lists_view(out@) =~= Seq::<Seq<usize>>::empty());
        while out.len() < n
            invariant
                self@.wf(),
                self@.g == old(self)@.g,
                self@.lib_boundary == old(self)@.lib_boundary,
                n == self@.n(),
                out@.len() <= n,
                forall|i: int| 0 <= i < out@.len() ==> all_below(#[trigger] lists_view(out@)[i], self@.n()),
                exposures_from(self@, mm@, lists_view(out@), n as nat) == exposures_from(
                    old(self)@,
                    mm@,
                    Seq::empty(),
                    n as nat,
                ),
            decreases n - out@.len(),
        {
            let e: usize = out.len();
            let ghost before = lists_view(out@);
            assert(before.len() == e);
            let x: Vec<usize> = if mm.conforms(self.elem_type(e), "ViewUsage") {
                self.view_exposed_elements(e)
            } else {
                let none: Vec<usize> = Vec::new();
                assert(none@ =~= Seq::<usize>::empty());
                none
            };
            let ghost xv = x@;
            out.push(x);
            assert(lists_view(out@) =~= before.push(xv));
        }
        out
    }
}

fn empty_lists(n: usize) -> (r: Vec<Vec<usize>>)
    ensures
        lists_view(r@) == Seq::new(n as nat, |i: int| Seq::<usize>::empty()),
{
    let mut r: Vec<Vec<usize>> = Vec::new();
    while r.len() < n
        invariant
            r@.len() <= n,
            forall|i: int| 0 <= i < r@.len() ==> (#[trigger] r@[i])@ == Seq::<usize>::empty(),
        decreases n - r@.len(),
    {
        let none: Vec<usize> = Vec::new();
        assert(none@ =~= Seq::<usize>::empty());
        r.push(none);
    }
    assert(lists_view(r@) =~= Seq::new(n as nat, |i: int| Seq::<usize>::empty()));
    r
}

fn join_named(a: Vec<NamedId>, b: &Vec<NamedId>) -> (r: Vec<NamedId>)
    ensures
        named_ids(r@) == named_ids(a@) + named_ids(b@),
{
    let ghost av = named_ids(a@);
    let ghost bv = named_ids(b@);
    let mut out: Vec<NamedId> = a;
    let n: usize = b.len();
    let mut k: usize = 0;
    assert(named_ids(out@) =~= av + bv.take(0));
    while k < n
        invariant
            n == b@.len(),
            bv == named_ids(b@),
            k <= n,
            named_ids(out@) == av + bv.take(k as int),
        decreases n - k,
    {
        let x = NamedId { name: b[k].name.clone(), id: b[k].id };
        let ghost before = named_ids(out@);
        out.push(x);
        assert(named_ids(out@) =~= before.push((x.name@, x.id)));
        assert(bv[k as int] == (x.name@, x.id));
        assert(av + bv.take(k + 1) =~= before.push(bv[k as int]));
        k += 1;
    }
    assert(av + bv.take(n as int) =~= av + bv);
    out
}

impl Derivation {
    /// A built model, ready to answer derived properties: its implied
    /// relationships are made, and what only resolution can tell is looked
    /// up. `named` and `externals` say what is known of elements outside the
    /// model, `closures` what the built elements inherit and import.
    pub fn new(
        built: Built,
        mm: Metamodel,
        named: &Vec<NamedId>,
        externals: Vec<External>,
        closures: Closures,
    ) -> (r: Derivation)
        requires
            built@.l.wf(),
            built@.boundary <= built@.l.r.n(),
            closures.written@.fits(built@.l.r.n()),
            closures.implied@.fits(built@.l.r.n()),
        ensures
            r.ok(),
            r@ == resolved(
                built@,
                mm@,
                named_ids(named@),
                externals_view(externals@),
                closures.written@,
                closures.implied@,
            ),
    {
        proof {
            reveal(Linker::view);
            reveal(Resolver::view);
            reveal(RV::wf);
            reveal(Derivation::view);
            reveal(Derivation::ok);
            reveal(DV::ok);
        }
        let mut res: Resolver = built.linker.res;
        let n: usize = res.elem_count();
        let mut callee: Vec<Option<Reference>> = res.all_callees(&mm, named);
        let anything_self = res.library_named(named, "Base::Anything::self", "Base::Anything::self");
        let mut exposed: Vec<Vec<usize>> = res.all_exposures(&mm);
        let rows: Vec<NamedId> = join_named(name_rows(&built.qnames), named);
        let ghost callee0 = callees_view(callee@);
        let ghost exposed0 = lists_view(exposed@);
        let mut graph: Builder = res.graph;
        let mut written_walks = Walks::of(&graph, closures.written);
        let mut implied_walks = Walks::of(&graph, closures.implied);
        let owners: Vec<usize> = graph.add_implied(&mm, &rows, built.boundary);
        let total: usize = graph.element_count();
        let extra: usize = owners.len();
        let mut k: usize = 0;
        while k < extra
            invariant
                k <= extra,
                callees_view(callee@) =~= callee0 + Seq::new(k as nat, |i: int| None::<RefV>),
            decreases extra - k,
        {
            let ghost before = callees_view(callee@);
            callee.push(None);
            assert(callees_view(callee@) =~= before.push(None));
            k += 1;
        }
        written_walks.pad(extra);
        implied_walks.pad(extra);
        let mut more: Vec<Vec<usize>> = empty_lists(extra);
        let ghost more0 = lists_view(more@);
        exposed.append(&mut more);
        assert(lists_view(exposed@) =~= exposed0 + more0);
        let ids: Vec<u128> = graph.element_ids();
        let index = IdIndex::new(&ids);
        let r = Derivation {
            graph,
            mm,
            from: n,
            implied_owner: owners,
            policy: ClosurePolicy::Passthrough,
            written_walks,
            implied_walks,
            exposed,
            callee,
            lib_boundary: built.boundary,
            externals,
            anything_self,
            index,
        };
        assert(r@ =~= resolved(
            built@,
            mm@,
            named_ids(named@),
            externals_view(externals@),
            closures.written@,
            closures.implied@,
        ));
        assert forall|i: int| 0 <= i < r@.n() implies all_below(#[trigger] r@.exposed[i], r@.n()) by {
            if i < n {
                assert(r@.exposed[i] == exposed0[i]);
                assert(all_below(exposed0[i], n as nat));
            }
        }
        assert forall|i: int| 0 <= i < r@.n() implies opt_ref_ok(#[trigger] r@.callee[i], r@.n()) by {
            if i < n {
                assert(r@.callee[i] == callee0[i]);
                assert(opt_ref_ok(callee0[i], n as nat));
            }
        }
        r
    }

    /// Sets the closure policy: with the closures in force the memberships
    /// that elements inherit and import widen the other names. Their own names
    /// are answered under every policy.
    pub fn set_closure_policy(&mut self, policy: ClosurePolicy)
        requires
            old(self).ok(),
        ensures
            final(self).ok(),
            final(self)@ == (DV { policy, ..old(self)@ }),
    {
        proof {
            reveal(Derivation::view);
            reveal(Derivation::ok);
            reveal(DV::ok);
        }
        self.policy = policy;
    }

    /// The closure policy in force.
    pub fn closure_policy(&self) -> (r: ClosurePolicy)
        ensures
            r == self@.policy,
    {
        proof {
            reveal(Derivation::view);
        }
        self.policy
    }
}

/// On the owned side the features and memberships of an element are those it
/// owns; with the closures in force its memberships begin with those.
pub proof fn law_closures_only_widen(d: DV, e: usize)
    ensures
        d.owned_memberships(e).is_prefix_of(d.memberships(e)),
        d.owned_feature_memberships(e).is_prefix_of(d.feature_memberships(e)),
        d.passthrough() ==> d.features(e) == d.owned_features(e),
        d.passthrough() ==> d.memberships(e) == d.owned_memberships(e),
        d.passthrough() ==> d.feature_memberships(e) == d.owned_feature_memberships(e),
{
    reveal(DV::features);
    reveal(DV::memberships);
    reveal(DV::feature_memberships);
    let a = d.owned_memberships(e);
    lemma_union_begins(a, joined(d.imported_of(e), d.inherited_of(e)), 0);
    lemma_union_begins(a, d.imported_of(e), 0);
    let b = d.owned_feature_memberships(e);
    lemma_union_begins(b, d.of_kind(d.inherited_of(e), "FeatureMembership"@), 0);
    assert(a =~= a.subrange(0, a.len() as int));
    assert(b =~= b.subrange(0, b.len() as int));
}

} // verus!
