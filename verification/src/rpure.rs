//! Decisions of name resolution that need no lookup.

use crate::ast::{
    names_view, no_span, qns_view, BinaryOp, ClassificationOp, Expr, ExprKind, Literal, Name, NameV, QnV,
    QualifiedName, Span, TargetRef, UnaryOp,
};
use crate::rstate::{LookupResult, OpenImport, Tri, Visit};
use std::rc::Rc;
use vstd::prelude::*;

verus! {

/// The room a lookup has left at a depth.
pub open spec fn room(depth: usize) -> nat {
    if depth < 30 {
        (30 - depth) as nat
    } else {
        0
    }
}

/// What a visited scope answers; nothing while it is worked on.
pub open spec fn answer_spec(v: Visit) -> LookupResult {
    match v.result {
        Some(r) => r,
        None => LookupResult::Missing,
    }
}

pub fn answer(v: Visit) -> (r: LookupResult)
    ensures
        r == answer_spec(v),
{
    match v.result {
        Some(r) => r,
        None => LookupResult::Missing,
    }
}

pub open spec fn no_hits_spec() -> Seq<LookupResult> {
    Seq::empty()
}

pub fn no_hits() -> (r: Vec<LookupResult>)
    ensures
        r@ == no_hits_spec(),
{
    Vec::new()
}

pub open spec fn no_scopes_spec() -> Seq<usize> {
    Seq::empty()
}

pub fn no_scopes() -> (r: Vec<usize>)
    ensures
        r@ == no_scopes_spec(),
{
    Vec::new()
}

pub open spec fn no_elems_spec() -> Seq<usize> {
    Seq::empty()
}

pub fn no_elems() -> (r: Vec<usize>)
    ensures
        r@ == no_elems_spec(),
{
    Vec::new()
}

pub open spec fn no_imports_spec() -> Seq<OpenImport> {
    Seq::empty()
}

pub fn no_imports() -> (r: Vec<OpenImport>)
    ensures
        r@ == no_imports_spec(),
{
    Vec::new()
}

pub open spec fn with_hit_spec(hits: Seq<LookupResult>, hit: LookupResult) -> Seq<LookupResult> {
    hits.push(hit)
}

pub fn with_hit(hits: Vec<LookupResult>, hit: LookupResult) -> (r: Vec<LookupResult>)
    ensures
        r@ == with_hit_spec(hits@, hit),
{
    let mut out = hits;
    out.push(hit);
    out
}

pub open spec fn or_self_spec(o: Option<usize>, d: usize) -> usize {
    match o {
        Some(x) => x,
        None => d,
    }
}

pub fn or_self(o: Option<usize>, d: usize) -> (r: usize)
    ensures
        r == or_self_spec(o, d),
{
    match o {
        Some(x) => x,
        None => d,
    }
}

/// A copy of a list of indices.
pub fn duplicate(v: &Vec<usize>) -> (r: Vec<usize>)
    ensures
        r@ == v@,
{
    let mut out: Vec<usize> = Vec::new();
    let mut k: usize = 0;
    while k < v.len()
        invariant
            k <= v@.len(),
            out@ =~= v@.subrange(0, k as int),
        decreases v@.len() - k,
    {
        out.push(v[k]);
        k += 1;
        assert(v@.subrange(0, k as int) =~= v@.subrange(0, k - 1).push(v@[k - 1]));
    }
    assert(v@.subrange(0, v@.len() as int) =~= v@);
    out
}

pub fn duplicate_imports(v: &Vec<OpenImport>) -> (r: Vec<OpenImport>)
    ensures
        r@ == v@,
{
    let mut out: Vec<OpenImport> = Vec::new();
    let mut k: usize = 0;
    while k < v.len()
        invariant
            k <= v@.len(),
            out@ =~= v@.subrange(0, k as int),
        decreases v@.len() - k,
    {
        out.push(v[k]);
        k += 1;
        assert(v@.subrange(0, k as int) =~= v@.subrange(0, k - 1).push(v@[k - 1]));
    }
    assert(v@.subrange(0, v@.len() as int) =~= v@);
    out
}

/// The list with one more scope, unless it is the scope itself.
pub open spec fn with_other_spec(acc: Seq<usize>, sc: Option<usize>, s: usize) -> Seq<usize> {
    match sc {
        Some(x) => if x != s {
            acc.push(x)
        } else {
            acc
        },
        None => acc,
    }
}

pub fn with_other(acc: Vec<usize>, sc: Option<usize>, s: usize) -> (r: Vec<usize>)
    ensures
        r@ == with_other_spec(acc@, sc, s),
{
    let mut out = acc;
    if let Some(x) = sc {
        if x != s {
            out.push(x);
        }
    }
    out
}

/// The list with one more index, unless it is the one left out or there
/// already.
pub open spec fn with_new_spec(acc: Seq<usize>, x: Option<usize>, out: usize) -> Seq<usize> {
    match x {
        Some(t) => if t != out && !acc.contains(t) {
            acc.push(t)
        } else {
            acc
        },
        None => acc,
    }
}

pub fn with_new(acc: Vec<usize>, x: Option<usize>, out: usize) -> (r: Vec<usize>)
    ensures
        r@ == with_new_spec(acc@, x, out),
{
    let mut list = acc;
    if let Some(t) = x {
        if t != out {
            let mut known = false;
            let mut k: usize = 0;
            while k < list.len()
                invariant
                    k <= list@.len(),
                    known <==> exists|j: int| 0 <= j < k && list@[j] == t,
                decreases list@.len() - k,
            {
                if list[k] == t {
                    known = true;
                }
                k += 1;
            }
            assert(known <==> list@.contains(t));
            if !known {
                list.push(t);
            }
        }
    }
    list
}

/// What a namespace import resolved to: an element with its body scope.
#[derive(Clone, Copy, Debug, PartialEq, Eq, Structural)]
pub struct Outcome {
    pub elem: usize,
    pub scope: usize,
}

pub open spec fn outcomes_ok(s: Seq<Option<Outcome>>, n: nat, ns: nat) -> bool {
    forall|k: int| 0 <= k < s.len() ==> (#[trigger] s[k] is Some ==> s[k]->0.elem < n && s[k]->0.scope < ns)
}

pub open spec fn no_outcomes_spec(n: nat) -> Seq<Option<Outcome>> {
    Seq::new(n, |k: int| None)
}

pub fn no_outcomes(n: usize) -> (r: Vec<Option<Outcome>>)
    ensures
        r@ == no_outcomes_spec(n as nat),
        r@.len() == n,
{
    let mut out: Vec<Option<Outcome>> = Vec::new();
    let mut k: usize = 0;
    while k < n
        invariant
            k <= n,
            out@ =~= Seq::new(k as nat, |j: int| None::<Outcome>),
        decreases n - k,
    {
        out.push(None);
        k += 1;
    }
    assert(out@ =~= no_outcomes_spec(n as nat));
    out
}

pub open spec fn set_outcome_spec(
    s: Seq<Option<Outcome>>,
    i: int,
    o: Option<Outcome>,
) -> Seq<Option<Outcome>> {
    s.update(i, o)
}

pub fn set_outcome(
    s: Vec<Option<Outcome>>,
    i: usize,
    o: Option<Outcome>,
) -> (r: Vec<Option<Outcome>>)
    requires
        i < s@.len(),
    ensures
        r@ == set_outcome_spec(s@, i as int, o),
{
    let mut out = s;
    out.set(i, o);
    out
}

pub fn duplicate_outcomes(v: &Vec<Option<Outcome>>) -> (r: Vec<Option<Outcome>>)
    ensures
        r@ == v@,
{
    let mut out: Vec<Option<Outcome>> = Vec::new();
    let mut k: usize = 0;
    while k < v.len()
        invariant
            k <= v@.len(),
            out@ =~= v@.subrange(0, k as int),
        decreases v@.len() - k,
    {
        out.push(v[k]);
        k += 1;
        assert(v@.subrange(0, k as int) =~= v@.subrange(0, k - 1).push(v@[k - 1]));
    }
    assert(v@.subrange(0, v@.len() as int) =~= v@);
    out
}

pub open spec fn same_outcomes_spec(a: Seq<Option<Outcome>>, b: Seq<Option<Outcome>>) -> bool {
    a == b
}

pub fn same_outcomes(a: &Vec<Option<Outcome>>, b: &Vec<Option<Outcome>>) -> (r: bool)
    ensures
        r == same_outcomes_spec(a@, b@),
{
    if a.len() != b.len() {
        return false;
    }
    let mut k: usize = 0;
    while k < a.len()
        invariant
            k <= a@.len(),
            a@.len() == b@.len(),
            forall|j: int| 0 <= j < k ==> a@[j] == b@[j],
        decreases a@.len() - k,
    {
        let same = match (a[k], b[k]) {
            (Some(x), Some(y)) => x == y,
            (None, None) => true,
            _ => false,
        };
        if !same {
            return false;
        }
        k += 1;
    }
    assert(a@ =~= b@);
    true
}

pub open spec fn outcome_elem(o: Option<Outcome>) -> Option<usize> {
    match o {
        Some(x) => Some(x.elem),
        None => None,
    }
}

pub open spec fn outcome_elems_spec(s: Seq<Option<Outcome>>) -> Seq<Option<usize>> {
    s.map_values(|o: Option<Outcome>| outcome_elem(o))
}

pub fn outcome_elems(s: &Vec<Option<Outcome>>) -> (r: Vec<Option<usize>>)
    ensures
        r@ == outcome_elems_spec(s@),
{
    let mut out: Vec<Option<usize>> = Vec::new();
    let mut k: usize = 0;
    while k < s.len()
        invariant
            k <= s@.len(),
            out@ =~= outcome_elems_spec(s@).subrange(0, k as int),
        decreases s@.len() - k,
    {
        out.push(
            match s[k] {
                Some(x) => Some(x.elem),
                None => None,
            },
        );
        k += 1;
        assert(outcome_elems_spec(s@).subrange(0, k as int) =~= outcome_elems_spec(s@).subrange(
            0,
            k - 1,
        ).push(outcome_elem(s@[k - 1])));
    }
    assert(out@ =~= outcome_elems_spec(s@));
    out
}

/// The imports that resolved, but the one at `skip`, from the `k`-th on.
pub open spec fn imports_from(s: Seq<Option<Outcome>>, skip: int, k: int) -> Seq<OpenImport>
    decreases s.len() - k,
{
    if 0 <= k < s.len() {
        match s[k] {
            Some(o) => if k != skip {
                seq![OpenImport { entry: k as usize, scope: o.scope }] + imports_from(s, skip, k + 1)
            } else {
                imports_from(s, skip, k + 1)
            },
            None => imports_from(s, skip, k + 1),
        }
    } else {
        Seq::empty()
    }
}

pub open spec fn open_imports_spec(s: Seq<Option<Outcome>>) -> Seq<OpenImport> {
    imports_from(s, -1, 0)
}

pub open spec fn other_imports_spec(s: Seq<Option<Outcome>>, skip: int) -> Seq<OpenImport> {
    imports_from(s, skip, 0)
}

fn collect_imports(s: &Vec<Option<Outcome>>, skip: Option<usize>) -> (r: Vec<OpenImport>)
    ensures
        r@ == imports_from(
            s@,
            match skip {
                Some(i) => i as int,
                None => -1,
            },
            0,
        ),
        forall|j: int|
            0 <= j < r@.len() ==> (#[trigger] r@[j]).entry < s@.len() && s@[r@[j].entry as int] is Some
                && s@[r@[j].entry as int]->0.scope == r@[j].scope,
{
    let ghost sk = match skip {
        Some(i) => i as int,
        None => -1,
    };
    let mut out: Vec<OpenImport> = Vec::new();
    let mut k: usize = 0;
    assert(out@ + imports_from(s@, sk, 0) =~= imports_from(s@, sk, 0));
    while k < s.len()
        invariant
            k <= s@.len(),
            sk == match skip {
                Some(i) => i as int,
                None => -1,
            },
            out@ + imports_from(s@, sk, k as int) =~= imports_from(s@, sk, 0),
            forall|j: int|
                0 <= j < out@.len() ==> (#[trigger] out@[j]).entry < s@.len() && s@[out@[j].entry as int] is Some
                    && s@[out@[j].entry as int]->0.scope == out@[j].scope,
        decreases s@.len() - k,
    {
        let left = match skip {
            Some(i) => i == k,
            None => false,
        };
        if let Some(o) = s[k] {
            if !left {
                let ghost before = out@;
                out.push(OpenImport { entry: k, scope: o.scope });
                assert(
                    out@ + imports_from(s@, sk, k + 1) =~= before + (
                        seq![OpenImport { entry: k, scope: o.scope }] + imports_from(s@, sk, k + 1)
                    )
                );
            }
        }
        k += 1;
    }
    assert(out@ =~= imports_from(s@, sk, 0));
    out
}

pub fn open_imports(s: &Vec<Option<Outcome>>) -> (r: Vec<OpenImport>)
    ensures
        r@ == open_imports_spec(s@),
        forall|j: int|
            0 <= j < r@.len() ==> (#[trigger] r@[j]).entry < s@.len() && s@[r@[j].entry as int] is Some
                && s@[r@[j].entry as int]->0.scope == r@[j].scope,
{
    collect_imports(s, None)
}

pub fn other_imports(s: &Vec<Option<Outcome>>, skip: usize) -> (r: Vec<OpenImport>)
    ensures
        r@ == other_imports_spec(s@, skip as int),
        forall|j: int|
            0 <= j < r@.len() ==> (#[trigger] r@[j]).entry < s@.len() && s@[r@[j].entry as int] is Some
                && s@[r@[j].entry as int]->0.scope == r@[j].scope,
{
    collect_imports(s, Some(skip))
}

/// No names at all.
pub open spec fn no_names_spec() -> QnV {
    QnV { is_global: false, segments: Seq::empty(), span: no_span() }
}

pub fn no_names() -> (r: QualifiedName)
    ensures
        r@ == no_names_spec(),
{
    let r = QualifiedName {
        is_global: false,
        segments: Vec::new(),
        span: Span { start: 0, end: 0 },
    };
    assert(r@.segments =~= Seq::<NameV>::empty());
    r
}

/// The names of the links from the `k`-th on.
pub open spec fn link_names(links: Seq<QnV>, k: int) -> Seq<NameV>
    decreases links.len() - k,
{
    if 0 <= k < links.len() {
        links[k].segments + link_names(links, k + 1)
    } else {
        Seq::empty()
    }
}

/// The names to follow after the first link: those of the other links, then
/// of the member.
#[verifier::opaque]
pub open spec fn chain_rest_spec(links: Seq<QnV>, member: QnV) -> QnV {
    QnV { is_global: false, segments: link_names(links, 1) + member.segments, span: member.span }
}

fn push_names(out: &mut Vec<Name>, more: &Vec<Name>)
    ensures
        names_view(final(out)@) == names_view(old(out)@) + names_view(more@),
{
    let mut i: usize = 0;
    while i < more.len()
        invariant
            i <= more@.len(),
            names_view(out@) =~= names_view(old(out)@) + names_view(more@).subrange(0, i as int),
        decreases more@.len() - i,
    {
        let ghost before = names_view(out@);
        out.push(more[i].duplicate());
        assert(names_view(out@) =~= before.push(more@[i as int]@));
        i += 1;
        assert(
            names_view(more@).subrange(0, i as int) =~= names_view(more@).subrange(0, i - 1).push(more@[i - 1]@)
        );
    }
    assert(names_view(more@).subrange(0, more@.len() as int) =~= names_view(more@));
}

pub fn chain_rest(links: &Vec<QualifiedName>, member: &QualifiedName) -> (r: QualifiedName)
    ensures
        r@ == chain_rest_spec(qns_view(links@), member@),
{
    proof {
        reveal(chain_rest_spec);
    }
    let mut segments: Vec<Name> = Vec::new();
    let mut k: usize = 1;
    let ghost all = link_names(qns_view(links@), 1);
    assert(names_view(segments@) + all =~= all);
    while k < links.len()
        invariant
            1 <= k,
            names_view(segments@) + link_names(qns_view(links@), k as int) =~= all,
            all == link_names(qns_view(links@), 1),
        ensures
            names_view(segments@) =~= all,
        decreases links@.len() - k,
    {
        proof {
            reveal(chain_rest_spec);
        }
        let ghost before = names_view(segments@);
        assert(qns_view(links@)[k as int] == links@[k as int]@);
        push_names(&mut segments, &links[k].segments);
        k += 1;
        assert(before + (names_view(links@[k - 1].segments@) + link_names(qns_view(links@), k as int))
            =~= names_view(segments@) + link_names(qns_view(links@), k as int));
    }
    push_names(&mut segments, &member.segments);
    let r = QualifiedName { is_global: false, segments, span: member.span };
    assert(r@.segments =~= chain_rest_spec(qns_view(links@), member@).segments);
    r
}

pub open spec fn seg_count_spec(qn: QnV) -> nat {
    qn.segments.len()
}

pub fn seg_count(qn: &QualifiedName) -> (r: usize)
    ensures
        r == seg_count_spec(qn@),
        r == qn@.segments.len(),
{
    qn.segments.len()
}

pub open spec fn seg_name_spec(qn: QnV, k: int) -> Seq<char> {
    qn.segments[k].value
}

pub fn seg_name(qn: &QualifiedName, k: usize) -> (r: &str)
    requires
        k < qn@.segments.len(),
    ensures
        r@ == seg_name_spec(qn@, k as int),
{
    qn.segments[k].value.as_str()
}

/// `$::package::name` for a name known at run time.
#[verifier::opaque]
pub open spec fn rooted_spec(package: Seq<char>, name: Seq<char>) -> QnV {
    QnV {
        is_global: true,
        segments: seq![
            NameV { value: package, span: no_span() },
            NameV { value: name, span: no_span() },
        ],
        span: no_span(),
    }
}

pub fn rooted(package: &str, name: &str) -> (r: QualifiedName)
    ensures
        r@ == rooted_spec(package@, name@),
{
    proof {
        reveal(rooted_spec);
    }
    let span = Span { start: 0, end: 0 };
    let mut segments: Vec<Name> = Vec::new();
    segments.push(Name { value: package.to_owned(), span });
    segments.push(Name { value: name.to_owned(), span });
    let r = QualifiedName { is_global: true, segments, span };
    assert(r@.segments =~= rooted_spec(package@, name@).segments);
    r
}

#[verifier::opaque]
pub open spec fn semantic_qn_spec() -> QnV {
    rooted_spec("Metaobjects"@, "SemanticMetadata"@)
}

pub fn semantic_qn() -> (r: QualifiedName)
    ensures
        r@ == semantic_qn_spec(),
{
    proof {
        reveal(semantic_qn_spec);
    }
    rooted("Metaobjects", "SemanticMetadata")
}

/// How deep the decided part of a filter expression nests.
pub open spec fn expr_size(e: Expr) -> nat
    decreases e,
{
    match e.kind {
        ExprKind::Unary { op, operand } => 1 + expr_size(*operand),
        ExprKind::Binary { op, lhs, rhs } => 1 + expr_size(*lhs) + expr_size(*rhs),
        _ => 0,
    }
}

#[verifier::opaque]
pub open spec fn literal_verdict_spec(lit: Literal) -> Tri {
    match lit {
        Literal::Bool(v) => if v {
            Tri::True
        } else {
            Tri::False
        },
        _ => Tri::Unknown,
    }
}

pub fn literal_verdict(lit: &Literal) -> (r: Tri)
    ensures
        r == literal_verdict_spec(*lit),
{
    proof {
        reveal(literal_verdict_spec);
    }
    match lit {
        Literal::Bool(v) => {
            if *v {
                Tri::True
            } else {
                Tri::False
            }
        },
        _ => Tri::Unknown,
    }
}

pub open spec fn not_verdict_spec(v: Tri) -> Tri {
    match v {
        Tri::True => Tri::False,
        Tri::False => Tri::True,
        Tri::Unknown => Tri::Unknown,
    }
}

pub fn not_verdict(v: Tri) -> (r: Tri)
    ensures
        r == not_verdict_spec(v),
{
    match v {
        Tri::True => Tri::False,
        Tri::False => Tri::True,
        Tri::Unknown => Tri::Unknown,
    }
}

/// A boolean connective: a conjunction, or a disjunction.
pub open spec fn connective_spec(op: BinaryOp) -> Option<bool> {
    match op {
        BinaryOp::CondAnd | BinaryOp::AndAmp => Some(true),
        BinaryOp::CondOr | BinaryOp::OrBar => Some(false),
        _ => None,
    }
}

pub fn connective(op: BinaryOp) -> (r: Option<bool>)
    ensures
        r == connective_spec(op),
{
    match op {
        BinaryOp::CondAnd | BinaryOp::AndAmp => Some(true),
        BinaryOp::CondOr | BinaryOp::OrBar => Some(false),
        _ => None,
    }
}

/// Whether the first operand decides.
pub open spec fn decides_spec(conj: bool, l: Tri) -> bool {
    (conj && l is False) || (!conj && l is True)
}

pub fn decides(conj: bool, l: Tri) -> (r: bool)
    ensures
        r == decides_spec(conj, l),
{
    (conj && l == Tri::False) || (!conj && l == Tri::True)
}

/// The verdict of a connective from those of its operands.
pub open spec fn combine_spec(conj: bool, l: Tri, r: Tri) -> Tri {
    if conj {
        if l is True {
            r
        } else if r is False {
            Tri::False
        } else {
            Tri::Unknown
        }
    } else {
        if l is False {
            r
        } else if r is True {
            Tri::True
        } else {
            Tri::Unknown
        }
    }
}

pub fn combine(conj: bool, l: Tri, r: Tri) -> (out: Tri)
    ensures
        out == combine_spec(conj, l, r),
{
    if conj {
        if l == Tri::True {
            r
        } else if r == Tri::False {
            Tri::False
        } else {
            Tri::Unknown
        }
    } else {
        if l == Tri::False {
            r
        } else if r == Tri::True {
            Tri::True
        } else {
            Tri::Unknown
        }
    }
}

/// De Morgan: negating a decided connective is the dual connective of the
/// negations.
pub proof fn law_verdicts_are_dual(conj: bool, l: Tri, r: Tri)
    requires
        !decides_spec(conj, l),
    ensures
        not_verdict_spec(combine_spec(conj, l, r)) == combine_spec(
            !conj,
            not_verdict_spec(l),
            not_verdict_spec(r),
        ),
{
}

/// What a filter expression asks: the decided forms, their parts read off.
pub enum FilterForm<'a> {
    Decided(Tri),
    Not(&'a Expr),
    Connect(bool, &'a Expr, &'a Expr),
    Annotation(&'a QualifiedName),
    Attribute(AttributeTest),
}

pub enum FilterFormV {
    Decided(Tri),
    Not(Expr),
    Connect(bool, Expr, Expr),
    Annotation(QnV),
    Attribute(AttributeTestV),
}

impl<'a> FilterForm<'a> {
    pub open spec fn view(&self) -> FilterFormV {
        match self {
            FilterForm::Decided(v) => FilterFormV::Decided(*v),
            FilterForm::Not(x) => FilterFormV::Not(**x),
            FilterForm::Connect(c, l, r) => FilterFormV::Connect(*c, **l, **r),
            FilterForm::Annotation(qn) => FilterFormV::Annotation(qn@),
            FilterForm::Attribute(t) => FilterFormV::Attribute(t@),
        }
    }
}

/// The form of a filter expression; anything else is undecided.
pub open spec fn filter_form_spec(e: Expr) -> FilterFormV {
    match e.kind {
        ExprKind::Literal(lit) => FilterFormV::Decided(literal_verdict_spec(lit)),
        ExprKind::Unary { op, operand } => if op == UnaryOp::Not {
            FilterFormV::Not(*operand)
        } else {
            FilterFormV::Decided(Tri::Unknown)
        },
        ExprKind::Binary { op, lhs, rhs } => match connective_spec(op) {
            Some(conj) => FilterFormV::Connect(conj, *lhs, *rhs),
            None => FilterFormV::Decided(Tri::Unknown),
        },
        ExprKind::Classification { op, operand, ty } => match annotation_test_spec(op, operand, ty) {
            Some(qn) => FilterFormV::Annotation(qn),
            None => FilterFormV::Decided(Tri::Unknown),
        },
        ExprKind::ChainStep { target, member } => match attribute_test_spec(*target, member) {
            Some(t) => FilterFormV::Attribute(t),
            None => FilterFormV::Decided(Tri::Unknown),
        },
        _ => FilterFormV::Decided(Tri::Unknown),
    }
}

pub fn filter_form(e: &Expr) -> (r: FilterForm<'_>)
    ensures
        r@ == filter_form_spec(*e),
        match r@ {
            FilterFormV::Not(x) => expr_size(x) < expr_size(*e),
            FilterFormV::Connect(_, x, y) => expr_size(x) + expr_size(y) < expr_size(*e),
            _ => true,
        },
{
    match &e.kind {
        ExprKind::Literal(lit) => FilterForm::Decided(literal_verdict(lit)),
        ExprKind::Unary { op, operand } => {
            if *op == UnaryOp::Not {
                FilterForm::Not(operand)
            } else {
                FilterForm::Decided(Tri::Unknown)
            }
        },
        ExprKind::Binary { op, lhs, rhs } => match connective(*op) {
            Some(conj) => FilterForm::Connect(conj, lhs, rhs),
            None => FilterForm::Decided(Tri::Unknown),
        },
        ExprKind::Classification { op, operand, ty } => match annotation_test(*op, operand, ty) {
            Some(qn) => FilterForm::Annotation(qn),
            None => FilterForm::Decided(Tri::Unknown),
        },
        ExprKind::ChainStep { target, member } => match attribute_test(target, member) {
            Some(t) => FilterForm::Attribute(t),
            None => FilterForm::Decided(Tri::Unknown),
        },
        _ => FilterForm::Decided(Tri::Unknown),
    }
}

pub open spec fn if_true_spec(v: bool) -> Tri {
    if v {
        Tri::True
    } else {
        Tri::False
    }
}

pub fn if_true(v: bool) -> (r: Tri)
    ensures
        r == if_true_spec(v),
{
    if v {
        Tri::True
    } else {
        Tri::False
    }
}

/// The metadata an implicit-subject `@M` tests for.
#[verifier::opaque]
pub open spec fn annotation_test_spec(
    op: ClassificationOp,
    operand: Option<Rc<Expr>>,
    ty: TargetRef,
) -> Option<QnV> {
    if op == ClassificationOp::AtType && operand is None {
        match ty {
            TargetRef::Name(qn) => Some(qn@),
            TargetRef::Chain(_) => None,
        }
    } else {
        None
    }
}

pub fn annotation_test<'a>(
    op: ClassificationOp,
    operand: &Option<Rc<Expr>>,
    ty: &'a TargetRef,
) -> (r: Option<&'a QualifiedName>)
    ensures
        match r {
            Some(q) => annotation_test_spec(op, *operand, *ty) == Some(q@),
            None => annotation_test_spec(op, *operand, *ty) is None,
        },
{
    proof {
        reveal(annotation_test_spec);
    }
    if op == ClassificationOp::AtType && operand.is_none() {
        match ty {
            TargetRef::Name(qn) => Some(qn),
            TargetRef::Chain(_) => None,
        }
    } else {
        None
    }
}

/// The metadata and attribute that `(as M).attr` tests.
pub struct AttributeTest {
    pub meta: QualifiedName,
    pub attr: String,
}

pub struct AttributeTestV {
    pub meta: QnV,
    pub attr: Seq<char>,
}

impl AttributeTest {
    pub open spec fn view(&self) -> AttributeTestV {
        AttributeTestV { meta: self.meta@, attr: self.attr@ }
    }
}

#[verifier::opaque]
pub open spec fn attribute_test_spec(target: Expr, member: TargetRef) -> Option<AttributeTestV> {
    match target.kind {
        ExprKind::Classification { op, operand, ty } => if op == ClassificationOp::As && operand is None {
            match ty {
                TargetRef::Name(meta) => match member {
                    TargetRef::Name(attr) => if attr.segments@.len() == 1 {
                        Some(AttributeTestV { meta: meta@, attr: attr.segments@[0].value@ })
                    } else {
                        None
                    },
                    TargetRef::Chain(_) => None,
                },
                TargetRef::Chain(_) => None,
            }
        } else {
            None
        },
        _ => None,
    }
}

pub fn attribute_test(target: &Expr, member: &TargetRef) -> (r: Option<AttributeTest>)
    ensures
        match r {
            Some(t) => attribute_test_spec(*target, *member) == Some(t@),
            None => attribute_test_spec(*target, *member) is None,
        },
{
    proof {
        reveal(attribute_test_spec);
    }
    match &target.kind {
        ExprKind::Classification { op, operand, ty } => {
            if *op == ClassificationOp::As && operand.is_none() {
                match ty {
                    TargetRef::Name(meta) => match member {
                        TargetRef::Name(attr) => {
                            if attr.segments.len() == 1 {
                                Some(
                                    AttributeTest {
                                        meta: meta.duplicate(),
                                        attr: attr.segments[0].value.clone(),
                                    },
                                )
                            } else {
                                None
                            }
                        },
                        TargetRef::Chain(_) => None,
                    },
                    TargetRef::Chain(_) => None,
                }
            } else {
                None
            }
        },
        _ => None,
    }
}

/// The feature a `baseType` value refers to, under its casts.
#[verifier::opaque]
pub open spec fn semantic_base_ref_spec(e: Expr) -> Option<QnV>
    decreases e,
{
    match e.kind {
        ExprKind::Ref(qn) => Some(qn@),
        ExprKind::Classification { op, operand, ty } => if op == ClassificationOp::Meta || op
            == ClassificationOp::As || op == ClassificationOp::MetaAtType {
            match operand {
                Some(x) => semantic_base_ref_spec(*x),
                None => None,
            }
        } else {
            None
        },
        _ => None,
    }
}

pub fn semantic_base_ref(e: &Expr) -> (r: Option<QualifiedName>)
    ensures
        crate::syntax::opt_qn(r) == semantic_base_ref_spec(*e),
    decreases e,
{
    proof {
        reveal(semantic_base_ref_spec);
    }
    match &e.kind {
        ExprKind::Ref(qn) => Some(qn.duplicate()),
        ExprKind::Classification { op, operand, ty } => {
            if *op == ClassificationOp::Meta || *op == ClassificationOp::As || *op
                == ClassificationOp::MetaAtType {
                match operand {
                    Some(x) => semantic_base_ref(x),
                    None => None,
                }
            } else {
                None
            }
        },
        _ => None,
    }
}

} // verus!
