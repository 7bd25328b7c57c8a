//! Implied relationships: the library specializations of each kind, and a
//! variant's specialization of its variation.
use crate::ast::{DefKind, UsageKind};
use crate::graph_get::link_prop;
use crate::ids::{id_of_name, id_text, name_id, uuid_text, NAMESPACE_OID};
use crate::libcache::{rows_view, texts, Row};
use crate::metamodel::{Metamodel, MetamodelV};
use crate::props::{Link, LinkV, Props, Value, ValueV};
use crate::refname::push_text;
use crate::state::{below, lemma_new_element, no_notes, Builder, Elem, ElemV, Notes, BV};
use crate::tables::{
    def_metaclass, def_metaclass_text, implicit_def_bases, implicit_def_bases_spec,
    implicit_usage_bases, implicit_usage_bases_spec, library_names_view, sysml_usage_metaclass,
    sysml_usage_metaclass_text, LibraryName, LibraryNameV,
};
use crate::text::{numbered, numbered_seg, str_eq};
use vstd::prelude::*;

verus! {

#[verifier::opaque]
pub open spec fn def_kinds() -> Seq<DefKind> {
    seq![
        DefKind::Extended,
        DefKind::Type,
        DefKind::Classifier,
        DefKind::Class,
        DefKind::Struct,
        DefKind::DataType,
        DefKind::Assoc,
        DefKind::AssocStruct,
        DefKind::Behavior,
        DefKind::Interaction,
        DefKind::Function,
        DefKind::Predicate,
        DefKind::Metaclass,
        DefKind::Attribute,
        DefKind::Enum,
        DefKind::Occurrence,
        DefKind::Individual,
        DefKind::Item,
        DefKind::Metadata,
        DefKind::Part,
        DefKind::Port,
        DefKind::Connection,
        DefKind::Interface,
        DefKind::Allocation,
        DefKind::Flow,
        DefKind::Action,
        DefKind::State,
        DefKind::Calc,
        DefKind::Constraint,
        DefKind::Requirement,
        DefKind::Concern,
        DefKind::Case,
        DefKind::Analysis,
        DefKind::Verification,
        DefKind::UseCase,
        DefKind::View,
        DefKind::Viewpoint,
        DefKind::Rendering,
    ]
}

#[verifier::opaque]
pub open spec fn usage_kinds() -> Seq<UsageKind> {
    seq![
        UsageKind::Default,
        UsageKind::Ref,
        UsageKind::Extended,
        UsageKind::Feature,
        UsageKind::Step,
        UsageKind::Expr,
        UsageKind::BoolExpr,
        UsageKind::Invariant,
        UsageKind::Connector,
        UsageKind::Attribute,
        UsageKind::Enum,
        UsageKind::Occurrence,
        UsageKind::Item,
        UsageKind::Metadata,
        UsageKind::Part,
        UsageKind::Port,
        UsageKind::Connection,
        UsageKind::Interface,
        UsageKind::Allocation,
        UsageKind::Flow,
        UsageKind::Action,
        UsageKind::State,
        UsageKind::Calc,
        UsageKind::Constraint,
        UsageKind::Requirement,
        UsageKind::Concern,
        UsageKind::Case,
        UsageKind::Analysis,
        UsageKind::Verification,
        UsageKind::UseCase,
        UsageKind::View,
        UsageKind::Viewpoint,
        UsageKind::Rendering,
        UsageKind::Perform,
        UsageKind::Exhibit,
        UsageKind::Include,
        UsageKind::Event,
        UsageKind::Satisfy,
        UsageKind::AssertConstraint,
        UsageKind::Succession,
        UsageKind::SuccessionFlow,
        UsageKind::Binding,
        UsageKind::Message,
        UsageKind::Transition,
        UsageKind::Merge,
        UsageKind::Decide,
        UsageKind::Join,
        UsageKind::Fork,
        UsageKind::Accept,
        UsageKind::Send,
        UsageKind::Assign,
        UsageKind::Terminate,
        UsageKind::IfNode,
        UsageKind::WhileLoop,
        UsageKind::ForLoop,
    ]
}

fn all_def_kinds() -> (r: Vec<DefKind>)
    ensures
        r@ == def_kinds(),
{
    reveal(def_kinds);
    let r: Vec<DefKind> = vec![
        DefKind::Extended,
        DefKind::Type,
        DefKind::Classifier,
        DefKind::Class,
        DefKind::Struct,
        DefKind::DataType,
        DefKind::Assoc,
        DefKind::AssocStruct,
        DefKind::Behavior,
        DefKind::Interaction,
        DefKind::Function,
        DefKind::Predicate,
        DefKind::Metaclass,
        DefKind::Attribute,
        DefKind::Enum,
        DefKind::Occurrence,
        DefKind::Individual,
        DefKind::Item,
        DefKind::Metadata,
        DefKind::Part,
        DefKind::Port,
        DefKind::Connection,
        DefKind::Interface,
        DefKind::Allocation,
        DefKind::Flow,
        DefKind::Action,
        DefKind::State,
        DefKind::Calc,
        DefKind::Constraint,
        DefKind::Requirement,
        DefKind::Concern,
        DefKind::Case,
        DefKind::Analysis,
        DefKind::Verification,
        DefKind::UseCase,
        DefKind::View,
        DefKind::Viewpoint,
        DefKind::Rendering,
    ];
    assert(r@ =~= def_kinds());
    r
}

fn all_usage_kinds() -> (r: Vec<UsageKind>)
    ensures
        r@ == usage_kinds(),
{
    reveal(usage_kinds);
    let r: Vec<UsageKind> = vec![
        UsageKind::Default,
        UsageKind::Ref,
        UsageKind::Extended,
        UsageKind::Feature,
        UsageKind::Step,
        UsageKind::Expr,
        UsageKind::BoolExpr,
        UsageKind::Invariant,
        UsageKind::Connector,
        UsageKind::Attribute,
        UsageKind::Enum,
        UsageKind::Occurrence,
        UsageKind::Item,
        UsageKind::Metadata,
        UsageKind::Part,
        UsageKind::Port,
        UsageKind::Connection,
        UsageKind::Interface,
        UsageKind::Allocation,
        UsageKind::Flow,
        UsageKind::Action,
        UsageKind::State,
        UsageKind::Calc,
        UsageKind::Constraint,
        UsageKind::Requirement,
        UsageKind::Concern,
        UsageKind::Case,
        UsageKind::Analysis,
        UsageKind::Verification,
        UsageKind::UseCase,
        UsageKind::View,
        UsageKind::Viewpoint,
        UsageKind::Rendering,
        UsageKind::Perform,
        UsageKind::Exhibit,
        UsageKind::Include,
        UsageKind::Event,
        UsageKind::Satisfy,
        UsageKind::AssertConstraint,
        UsageKind::Succession,
        UsageKind::SuccessionFlow,
        UsageKind::Binding,
        UsageKind::Message,
        UsageKind::Transition,
        UsageKind::Merge,
        UsageKind::Decide,
        UsageKind::Join,
        UsageKind::Fork,
        UsageKind::Accept,
        UsageKind::Send,
        UsageKind::Assign,
        UsageKind::Terminate,
        UsageKind::IfNode,
        UsageKind::WhileLoop,
        UsageKind::ForLoop,
    ];
    assert(r@ =~= usage_kinds());
    r
}

/// The definition kind of a metaclass, the first from `k` on.
pub open spec fn def_kind_from(ty: Seq<char>, k: int) -> Option<DefKind>
    decreases def_kinds().len() - k,
    when 0 <= k
{
    if k >= def_kinds().len() {
        None
    } else if def_metaclass_text(def_kinds()[k]) == ty {
        Some(def_kinds()[k])
    } else {
        def_kind_from(ty, k + 1)
    }
}

/// The usage kind of a metaclass, the first from `k` on.
pub open spec fn usage_kind_from(ty: Seq<char>, k: int) -> Option<UsageKind>
    decreases usage_kinds().len() - k,
    when 0 <= k
{
    if k >= usage_kinds().len() {
        None
    } else if sysml_usage_metaclass_text(usage_kinds()[k]) == ty {
        Some(usage_kinds()[k])
    } else {
        usage_kind_from(ty, k + 1)
    }
}

pub fn def_kind_of(ty: &str) -> (r: Option<DefKind>)
    ensures
        r == def_kind_from(ty@, 0),
{
    let kinds: Vec<DefKind> = all_def_kinds();
    let n: usize = kinds.len();
    let mut k: usize = 0;
    while k < n
        invariant
            kinds@ == def_kinds(),
            n == kinds@.len(),
            k <= n,
            def_kind_from(ty@, 0) == def_kind_from(ty@, k as int),
        decreases n - k,
    {
        if str_eq(def_metaclass(kinds[k]), ty) {
            return Some(kinds[k]);
        }
        k += 1;
    }
    None
}

pub fn usage_kind_of(ty: &str) -> (r: Option<UsageKind>)
    ensures
        r == usage_kind_from(ty@, 0),
{
    let kinds: Vec<UsageKind> = all_usage_kinds();
    let n: usize = kinds.len();
    let mut k: usize = 0;
    while k < n
        invariant
            kinds@ == usage_kinds(),
            n == kinds@.len(),
            k <= n,
            usage_kind_from(ty@, 0) == usage_kind_from(ty@, k as int),
        decreases n - k,
    {
        if str_eq(sysml_usage_metaclass(kinds[k]), ty) {
            return Some(kinds[k]);
        }
        k += 1;
    }
    None
}

/// A library element by its qualified name.
pub struct NamedId {
    pub name: String,
    pub id: u128,
}

pub open spec fn named_ids(s: Seq<NamedId>) -> Seq<(Seq<char>, u128)> {
    s.map_values(|x: NamedId| (x.name@, x.id))
}

/// The id under a name: the last of the first `k` rows.
pub open spec fn id_under(rows: Seq<(Seq<char>, u128)>, name: Seq<char>, k: int) -> Option<u128>
    decreases k,
{
    if k <= 0 {
        None
    } else if rows[k - 1].0 == name {
        Some(rows[k - 1].1)
    } else {
        id_under(rows, name, k - 1)
    }
}

pub open spec fn base_text(b: LibraryNameV) -> Seq<char> {
    b.package + "::"@ + b.name
}

/// One implied relationship: its metaclass, the keys of its ends, and the
/// id of its target.
#[verifier::ext_equal]
pub struct PlanV {
    pub ty: Seq<char>,
    pub source: Seq<char>,
    pub target: Seq<char>,
    pub id: u128,
}

pub struct Plan {
    pub ty: &'static str,
    pub source: &'static str,
    pub target: &'static str,
    pub id: u128,
}

impl Plan {
    pub open spec fn view(&self) -> PlanV {
        PlanV { ty: self.ty@, source: self.source@, target: self.target@, id: self.id }
    }
}

pub open spec fn plans(s: Seq<Plan>) -> Seq<PlanV> {
    s.map_values(|p: Plan| p@)
}

/// Whether an element owns a relationship, from `k` on, of one of three
/// metaclasses.
pub open spec fn owns_any(g: BV, i: int, a: Seq<char>, b: Seq<char>, c: Seq<char>, k: int) -> bool
    decreases g.elements[i].owned.len() - k,
    when 0 <= k
{
    k < g.elements[i].owned.len() && ({
        let ty = g.elements[g.elements[i].owned[k] as int].ty;
        ty == a || ty == b || ty == c
    } || owns_any(g, i, a, b, c, k + 1))
}

/// Whether one of them, from `k` on, also names `id` under `key`.
pub open spec fn owns_to(
    g: BV,
    i: int,
    a: Seq<char>,
    b: Seq<char>,
    c: Seq<char>,
    key: Seq<char>,
    id: u128,
    k: int,
) -> bool
    decreases g.elements[i].owned.len() - k,
    when 0 <= k
{
    k < g.elements[i].owned.len() && ({
        let r = g.elements[g.elements[i].owned[k] as int];
        (r.ty == a || r.ty == b || r.ty == c) && link_prop(r.props, key) == Some(LinkV::Id(id))
    } || owns_to(g, i, a, b, c, key, id, k + 1))
}

/// The specializations of the library bases from `k` on that are known.
pub open spec fn base_plans(
    bases: Seq<LibraryNameV>,
    rows: Seq<(Seq<char>, u128)>,
    ty: Seq<char>,
    source: Seq<char>,
    target: Seq<char>,
    k: int,
) -> Seq<PlanV>
    decreases bases.len() - k,
    when 0 <= k
{
    if k >= bases.len() {
        Seq::empty()
    } else {
        match id_under(rows, base_text(bases[k]), rows.len() as int) {
            Some(id) => seq![PlanV { ty, source, target, id }] + base_plans(
                bases,
                rows,
                ty,
                source,
                target,
                k + 1,
            ),
            None => base_plans(bases, rows, ty, source, target, k + 1),
        }
    }
}

/// The library specializations of an element's kind, unless it has a written
/// one of the covering kind.
#[verifier::opaque]
pub open spec fn kind_plans(g: BV, rows: Seq<(Seq<char>, u128)>, i: int) -> Seq<PlanV> {
    match def_kind_from(g.elements[i].ty, 0) {
        Some(kind) => if owns_any(
            g,
            i,
            "Subclassification"@,
            "Specialization"@,
            "Specialization"@,
            0,
        ) {
            Seq::empty()
        } else {
            base_plans(
                implicit_def_bases_spec(kind),
                rows,
                "Subclassification"@,
                "subclassifier"@,
                "superclassifier"@,
                0,
            )
        },
        None => match usage_kind_from(g.elements[i].ty, 0) {
            Some(kind) => if owns_any(
                g,
                i,
                "Subsetting"@,
                "Redefinition"@,
                "ReferenceSubsetting"@,
                0,
            ) {
                Seq::empty()
            } else {
                base_plans(
                    implicit_usage_bases_spec(kind),
                    rows,
                    "Subsetting"@,
                    "subsettingFeature"@,
                    "subsettedFeature"@,
                    0,
                )
            },
            None => Seq::empty(),
        },
    }
}

/// The variation that an element is a variant of.
#[verifier::opaque]
pub open spec fn variation_of(g: BV, i: int) -> Option<usize> {
    match g.elements[i].owning {
        Some(rel) => if g.elements[rel as int].ty == "VariantMembership"@ {
            g.elements[rel as int].carrier
        } else {
            None
        },
        None => None,
    }
}

/// A variant's specialization of its variation, unless it is written.
#[verifier::opaque]
pub open spec fn variant_plan(g: BV, mm: MetamodelV, i: int) -> Option<PlanV> {
    match variation_of(g, i) {
        Some(v) => {
            let id = g.elements[v as int].id;
            if mm.conforms(g.elements[v as int].ty, "Definition"@) {
                if owns_to(
                    g,
                    i,
                    "FeatureTyping"@,
                    "ConjugatedPortTyping"@,
                    "ConjugatedPortTyping"@,
                    "type"@,
                    id,
                    0,
                ) {
                    None
                } else {
                    Some(
                        PlanV {
                            ty: "FeatureTyping"@,
                            source: "typedFeature"@,
                            target: "type"@,
                            id,
                        },
                    )
                }
            } else if mm.conforms(g.elements[v as int].ty, "Usage"@) && !owns_to(
                g,
                i,
                "Subsetting"@,
                "Redefinition"@,
                "ReferenceSubsetting"@,
                "subsettedFeature"@,
                id,
                0,
            ) {
                Some(
                    PlanV {
                        ty: "Subsetting"@,
                        source: "subsettingFeature"@,
                        target: "subsettedFeature"@,
                        id,
                    },
                )
            } else {
                None
            }
        },
        None => None,
    }
}

/// The implied relationships of an element, in order.
#[verifier::opaque]
pub open spec fn implied_plan(
    g: BV,
    mm: MetamodelV,
    rows: Seq<(Seq<char>, u128)>,
    i: int,
) -> Seq<PlanV> {
    match variant_plan(g, mm, i) {
        Some(p) => kind_plans(g, rows, i).push(p),
        None => kind_plans(g, rows, i),
    }
}

/// The id of an implied relationship: of its owner's id and its position.
#[verifier::opaque]
pub open spec fn implied_id(owner: u128, n: usize) -> u128 {
    name_id(NAMESPACE_OID, uuid_text(owner) + "/"@ + numbered("implied"@, n))
}

/// The element of an implied relationship.
pub open spec fn implied_elem(owner: u128, p: PlanV, n: usize) -> ElemV {
    ElemV {
        ty: p.ty,
        id: implied_id(owner, n),
        path: Seq::empty(),
        props: Map::<Seq<char>, ValueV>::empty().insert("isImplied"@, ValueV::Bool(true)).insert(
            p.source,
            ValueV::Ref(LinkV::Id(owner)),
        ).insert(p.target, ValueV::Ref(LinkV::Id(p.id))),
        owned: Seq::empty(),
        children: Seq::empty(),
        owning: None,
        carrier: None,
        notes: no_notes(),
    }
}

/// A graph with the implied relationships of an element, from `k` on.
pub open spec fn with_plan(g: BV, owner: u128, plan: Seq<PlanV>, k: int) -> BV
    decreases plan.len() - k,
    when 0 <= k
{
    if k >= plan.len() {
        g
    } else {
        with_plan(
            BV { elements: g.elements.push(implied_elem(owner, plan[k], k as usize)), ..g },
            owner,
            plan,
            k + 1,
        )
    }
}

/// A graph with the implied relationships of its elements from `i` up to
/// `end`, and their owners.
pub open spec fn with_plans(
    g: BV,
    owners: Seq<usize>,
    mm: MetamodelV,
    rows: Seq<(Seq<char>, u128)>,
    i: int,
    end: int,
) -> (BV, Seq<usize>)
    decreases end - i,
{
    if i >= end {
        (g, owners)
    } else {
        let plan = implied_plan(g, mm, rows, i);
        with_plans(
            with_plan(g, g.elements[i].id, plan, 0),
            owners + Seq::new(plan.len(), |k: int| i as usize),
            mm,
            rows,
            i + 1,
            end,
        )
    }
}

/// The graph with all implied relationships, past its own elements. Only
/// the user's elements get them, and none does where no library is known.
pub open spec fn with_implied(
    g: BV,
    mm: MetamodelV,
    rows: Seq<(Seq<char>, u128)>,
    boundary: usize,
) -> (BV, Seq<usize>) {
    if rows.len() == 0 {
        (g, Seq::empty())
    } else {
        with_plans(g, Seq::empty(), mm, rows, boundary as int, g.n() as int)
    }
}

fn find_named(rows: &Vec<NamedId>, name: &str) -> (r: Option<u128>)
    ensures
        r == id_under(named_ids(rows@), name@, rows@.len() as int),
{
    let mut k: usize = rows.len();
    while k > 0
        invariant
            k <= rows@.len(),
            id_under(named_ids(rows@), name@, rows@.len() as int) == id_under(
                named_ids(rows@),
                name@,
                k as int,
            ),
        decreases k,
    {
        k -= 1;
        assert(named_ids(rows@)[k as int] == (rows@[k as int].name@, rows@[k as int].id));
        if str_eq(rows[k].name.as_str(), name) {
            return Some(rows[k].id);
        }
    }
    None
}

fn is_one_of(g: &Builder, r: usize, a: &str, b: &str, c: &str) -> (x: bool)
    requires
        r < g@.n(),
    ensures
        x == ({
            let ty = g@.elements[r as int].ty;
            ty == a@ || ty == b@ || ty == c@
        }),
{
    g.has_type(r, a) || g.has_type(r, b) || g.has_type(r, c)
}

fn has_any(g: &Builder, i: usize, a: &str, b: &str, c: &str) -> (x: bool)
    requires
        g@.wf(),
        i < g@.n(),
    ensures
        x == owns_any(g@, i as int, a@, b@, c@, 0),
{
    let n: usize = g.owned_len(i);
    let mut k: usize = 0;
    while k < n
        invariant
            g@.wf(),
            i < g@.n(),
            n == g@.elements[i as int].owned.len(),
            k <= n,
            owns_any(g@, i as int, a@, b@, c@, 0) == owns_any(g@, i as int, a@, b@, c@, k as int),
        decreases n - k,
    {
        let r: usize = g.owned_at(i, k);
        if is_one_of(g, r, a, b, c) {
            return true;
        }
        k += 1;
    }
    false
}

fn links_to(g: &Builder, r: usize, key: &str, id: u128) -> (x: bool)
    requires
        r < g@.n(),
    ensures
        x == (link_prop(g@.elements[r as int].props, key@) == Some(LinkV::Id(id))),
{
    match g.link_of(r, key) {
        Some(Link::Id(x)) => x == id,
        _ => false,
    }
}

fn has_to(g: &Builder, i: usize, a: &str, b: &str, c: &str, key: &str, id: u128) -> (x: bool)
    requires
        g@.wf(),
        i < g@.n(),
    ensures
        x == owns_to(g@, i as int, a@, b@, c@, key@, id, 0),
{
    let n: usize = g.owned_len(i);
    let mut k: usize = 0;
    while k < n
        invariant
            g@.wf(),
            i < g@.n(),
            n == g@.elements[i as int].owned.len(),
            k <= n,
            owns_to(g@, i as int, a@, b@, c@, key@, id, 0) == owns_to(
                g@,
                i as int,
                a@,
                b@,
                c@,
                key@,
                id,
                k as int,
            ),
        decreases n - k,
    {
        let r: usize = g.owned_at(i, k);
        if is_one_of(g, r, a, b, c) && links_to(g, r, key, id) {
            return true;
        }
        k += 1;
    }
    false
}

fn plan_bases(
    bases: &Vec<LibraryName>,
    rows: &Vec<NamedId>,
    ty: &'static str,
    source: &'static str,
    target: &'static str,
) -> (r: Vec<Plan>)
    ensures
        plans(r@) == base_plans(
            library_names_view(bases@),
            named_ids(rows@),
            ty@,
            source@,
            target@,
            0,
        ),
{
    let mut out: Vec<Plan> = Vec::new();
    let n: usize = bases.len();
    let mut k: usize = 0;
    let ghost bv = library_names_view(bases@);
    let ghost whole = base_plans(bv, named_ids(rows@), ty@, source@, target@, 0);
    assert(plans(out@) + whole =~= whole);
    while k < n
        invariant
            n == bases@.len(),
            bv == library_names_view(bases@),
            k <= n,
            plans(out@) + base_plans(bv, named_ids(rows@), ty@, source@, target@, k as int) == whole,
        decreases n - k,
    {
        let b: &LibraryName = &bases[k];
        assert(bv[k as int] == b@);
        let mut text: String = b.package.to_owned();
        push_text(&mut text, "::");
        push_text(&mut text, b.name);
        assert(text@ =~= base_text(b@));
        let ghost before = plans(out@);
        let ghost rest = base_plans(bv, named_ids(rows@), ty@, source@, target@, k + 1);
        assert(named_ids(rows@).len() == rows@.len());
        if let Some(id) = find_named(rows, text.as_str()) {
            let p = Plan { ty, source, target, id };
            out.push(p);
            assert(plans(out@) =~= before.push(p@));
            assert(before + (seq![p@] + rest) =~= plans(out@) + rest);
        }
        k += 1;
    }
    assert(plans(out@) + Seq::<PlanV>::empty() =~= plans(out@));
    out
}

fn no_plans() -> (r: Vec<Plan>)
    ensures
        plans(r@) == Seq::<PlanV>::empty(),
{
    let r: Vec<Plan> = Vec::new();
    assert(plans(r@) =~= Seq::<PlanV>::empty());
    r
}

fn plan_kind(g: &Builder, rows: &Vec<NamedId>, i: usize) -> (r: Vec<Plan>)
    requires
        g@.wf(),
        i < g@.n(),
    ensures
        plans(r@) == kind_plans(g@, named_ids(rows@), i as int),
{
    proof {
        reveal(kind_plans);
    }
    let ty: &'static str = g.ty_of(i);
    match def_kind_of(ty) {
        Some(kind) => {
            if has_any(g, i, "Subclassification", "Specialization", "Specialization") {
                return no_plans();
            }
            plan_bases(
                &implicit_def_bases(kind),
                rows,
                "Subclassification",
                "subclassifier",
                "superclassifier",
            )
        },
        None => match usage_kind_of(ty) {
            Some(kind) => {
                if has_any(g, i, "Subsetting", "Redefinition", "ReferenceSubsetting") {
                    return no_plans();
                }
                plan_bases(
                    &implicit_usage_bases(kind),
                    rows,
                    "Subsetting",
                    "subsettingFeature",
                    "subsettedFeature",
                )
            },
            None => no_plans(),
        },
    }
}

fn find_variation(g: &Builder, i: usize) -> (r: Option<usize>)
    requires
        g@.wf(),
        i < g@.n(),
    ensures
        r == variation_of(g@, i as int),
        below(r, g@.n()),
{
    proof {
        reveal(variation_of);
    }
    match g.owning_of(i) {
        Some(rel) => if g.has_type(rel, "VariantMembership") {
            g.carrier_of(rel)
        } else {
            None
        },
        None => None,
    }
}

fn plan_variant(g: &Builder, mm: &Metamodel, i: usize) -> (r: Option<Plan>)
    requires
        g@.wf(),
        i < g@.n(),
    ensures
        variant_plan(g@, mm@, i as int) == (match r {
            Some(p) => Some(p@),
            None => None,
        }),
{
    proof {
        reveal(variant_plan);
    }
    match find_variation(g, i) {
        Some(v) => {
            let id: u128 = g.id_of(v);
            let ty: &'static str = g.ty_of(v);
            if mm.conforms(ty, "Definition") {
                if has_to(
                    g,
                    i,
                    "FeatureTyping",
                    "ConjugatedPortTyping",
                    "ConjugatedPortTyping",
                    "type",
                    id,
                ) {
                    None
                } else {
                    Some(Plan { ty: "FeatureTyping", source: "typedFeature", target: "type", id })
                }
            } else if mm.conforms(ty, "Usage") && !has_to(
                g,
                i,
                "Subsetting",
                "Redefinition",
                "ReferenceSubsetting",
                "subsettedFeature",
                id,
            ) {
                Some(
                    Plan {
                        ty: "Subsetting",
                        source: "subsettingFeature",
                        target: "subsettedFeature",
                        id,
                    },
                )
            } else {
                None
            }
        },
        None => None,
    }
}

/// The implied relationships of an element, in order.
pub fn plan_implied(g: &Builder, mm: &Metamodel, rows: &Vec<NamedId>, i: usize) -> (r: Vec<Plan>)
    requires
        g@.wf(),
        i < g@.n(),
    ensures
        plans(r@) == implied_plan(g@, mm@, named_ids(rows@), i as int),
{
    proof {
        reveal(implied_plan);
    }
    let mut out: Vec<Plan> = plan_kind(g, rows, i);
    if let Some(p) = plan_variant(g, mm, i) {
        let ghost before = plans(out@);
        out.push(p);
        assert(plans(out@) =~= before.push(p@));
    }
    out
}

fn id_of_implied(owner: u128, n: usize) -> (r: u128)
    ensures
        r == implied_id(owner, n),
{
    proof {
        reveal(implied_id);
    }
    let mut s: String = id_text(owner);
    push_text(&mut s, "/");
    let seg: String = numbered_seg("implied", n);
    push_text(&mut s, seg.as_str());
    assert(s@ =~= uuid_text(owner) + "/"@ + numbered("implied"@, n));
    id_of_name(NAMESPACE_OID, s.as_str())
}

impl Builder {
    fn push_implied(&mut self, owner: u128, p: &Plan, n: usize)
        requires
            old(self)@.wf(),
        ensures
            final(self)@ == (BV {
                elements: old(self)@.elements.push(implied_elem(owner, p@, n)),
                ..old(self)@
            }),
            final(self)@.wf(),
    {
        proof {
            reveal(Builder::view);
        }
        let mut props = Props::new();
        props.insert("isImplied", Value::Bool(true));
        props.insert(p.source, Value::Ref(Link::Id(owner)));
        props.insert(p.target, Value::Ref(Link::Id(p.id)));
        let x = Elem {
            ty: p.ty,
            id: id_of_implied(owner, n),
            path: String::new(),
            props,
            owned: Vec::new(),
            children: Vec::new(),
            owning: None,
            carrier: None,
            notes: Notes::new(),
        };
        let ghost before = self@;
        assert(x@ =~= implied_elem(owner, p@, n));
        self.elements.push(x);
        assert(self.elements.len() == self.elements@.len());
        assert(self@.elements =~= before.elements.push(x@));
        proof {
            lemma_new_element(before, self@, x@);
        }
    }

    fn push_plan(&mut self, owner: u128, plan: &Vec<Plan>)
        requires
            old(self)@.wf(),
        ensures
            final(self)@ == with_plan(old(self)@, owner, plans(plan@), 0),
            final(self)@.wf(),
            final(self)@.n() == old(self)@.n() + plan@.len(),
    {
        let n: usize = plan.len();
        let mut k: usize = 0;
        while k < n
            invariant
                n == plan@.len(),
                k <= n,
                self@.wf(),
                self@.n() == old(self)@.n() + k,
                with_plan(self@, owner, plans(plan@), k as int) == with_plan(
                    old(self)@,
                    owner,
                    plans(plan@),
                    0,
                ),
            decreases n - k,
        {
            assert(plans(plan@)[k as int] == plan@[k as int]@);
            self.push_implied(owner, &plan[k], k);
            k += 1;
        }
    }

    /// Appends the implied relationships of the user's elements, and lists
    /// the owner of each.
    pub fn add_implied(
        &mut self,
        mm: &Metamodel,
        rows: &Vec<NamedId>,
        boundary: usize,
    ) -> (owners: Vec<usize>)
        requires
            old(self)@.wf(),
        ensures
            (final(self)@, owners@) == with_implied(old(self)@, mm@, named_ids(rows@), boundary),
            final(self)@.wf(),
            final(self)@.n() == old(self)@.n() + owners@.len(),
            crate::state::all_below(owners@, old(self)@.n()),
    {
        let mut owners: Vec<usize> = Vec::new();
        assert(owners@ =~= Seq::<usize>::empty());
        assert(named_ids(rows@).len() == rows@.len());
        if rows.len() == 0 {
            return owners;
        }
        let end: usize = self.element_count();
        let mut i: usize = boundary;
        while i < end
            invariant
                self@.wf(),
                end == old(self)@.n(),
                self@.n() == end + owners@.len(),
                crate::state::all_below(owners@, old(self)@.n()),
                with_plans(self@, owners@, mm@, named_ids(rows@), i as int, end as int) == with_plans(
                    old(self)@,
                    Seq::empty(),
                    mm@,
                    named_ids(rows@),
                    boundary as int,
                    end as int,
                ),
            decreases end - i,
        {
            let plan: Vec<Plan> = plan_implied(self, mm, rows, i);
            let owner: u128 = self.id_of(i);
            self.push_plan(owner, &plan);
            let ghost before = owners@;
            let n: usize = plan.len();
            let mut k: usize = 0;
            while k < n
                invariant
                    n == plan@.len(),
                    k <= n,
                    i < old(self)@.n(),
                    crate::state::all_below(owners@, old(self)@.n()),
                    owners@ == before + Seq::new(k as nat, |j: int| i),
                decreases n - k,
            {
                owners.push(i);
                assert(owners@ =~= before + Seq::new((k + 1) as nat, |j: int| i));
                k += 1;
            }
            assert(plans(plan@).len() == n);
            assert(owners@ =~= before + Seq::new(plans(plan@).len(), |j: int| i));
            i += 1;
        }
        owners
    }
}

/// The raw qualified name of the first `k` segments.
pub open spec fn raw_path(s: Seq<Seq<char>>, k: int) -> Seq<char>
    decreases k,
{
    if k <= 0 {
        Seq::empty()
    } else if k == 1 {
        s[0]
    } else {
        raw_path(s, k - 1) + "::"@ + s[k - 1]
    }
}

/// The library elements by their raw qualified names.
pub open spec fn named_rows(rows: Seq<(u128, Seq<Seq<char>>)>) -> Seq<(Seq<char>, u128)> {
    rows.map_values(|r: (u128, Seq<Seq<char>>)| (raw_path(r.1, r.1.len() as int), r.0))
}

pub fn raw_name(segs: &Vec<String>) -> (r: String)
    ensures
        r@ == raw_path(texts(segs@), segs@.len() as int),
{
    let n: usize = segs.len();
    if n == 0 {
        let r: String = String::new();
        assert(r@ =~= Seq::<char>::empty());
        return r;
    }
    assert(texts(segs@)[0] == segs@[0]@);
    let mut s: String = segs[0].clone();
    let mut k: usize = 1;
    while k < n
        invariant
            n == segs@.len(),
            1 <= k <= n,
            s@ == raw_path(texts(segs@), k as int),
        decreases n - k,
    {
        push_text(&mut s, "::");
        push_text(&mut s, segs[k].as_str());
        assert(texts(segs@)[k as int] == segs@[k as int]@);
        k += 1;
    }
    s
}

/// The library elements of a name table, by their raw qualified names.
pub fn name_rows(rows: &Vec<Row>) -> (r: Vec<NamedId>)
    ensures
        named_ids(r@) == named_rows(rows_view(rows@)),
{
    let mut out: Vec<NamedId> = Vec::new();
    let n: usize = rows.len();
    let mut k: usize = 0;
    let ghost want = named_rows(rows_view(rows@));
    while k < n
        invariant
            n == rows@.len(),
            k <= n,
            want == named_rows(rows_view(rows@)),
            named_ids(out@) == want.take(k as int),
        decreases n - k,
    {
        let row: &Row = &rows[k];
        assert(rows_view(rows@)[k as int] == row@);
        let x = NamedId { name: raw_name(&row.segs), id: row.id };
        let ghost before = named_ids(out@);
        out.push(x);
        assert(texts(row.segs@).len() == row.segs@.len());
        assert(want[k as int] == (x.name@, x.id));
        assert(named_ids(out@) =~= before.push((x.name@, x.id)));
        assert(want.take(k + 1) =~= before.push(want[k as int]));
        k += 1;
    }
    assert(want.take(n as int) =~= want);
    out
}

} // verus!
