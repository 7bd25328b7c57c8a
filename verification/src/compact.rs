//! The compact form: each element as the properties it is interchanged with.
use crate::assoc::assoc;
use crate::ast::{ModelUnit, SourceUnit};
use crate::checks::{all_cyclic_imports, all_loose_aliases, reports, Report, ReportV};
use crate::ids::{id_text, uuid_text};
use crate::libcache::{rows_view, Row};
use crate::linker::{mentions, Linker, Mention};
use crate::linking::{Hint, elem_unit, linked, MentionV, LV};
use crate::model_build::{build_model, built, unlinked, with_user_ids, BuiltV, CacheSlot};
use crate::props::{links_view, pairs_view, Link, LinkV, Props, Value, ValueV};
use crate::rstate::{Resolver, RV};
use crate::shape;
use crate::state::{empty_graph, Builder, BV};
use vstd::prelude::*;

verus! {

/// The links to a list of elements.
pub open spec fn id_links(g: BV, es: Seq<usize>) -> Seq<LinkV> {
    es.map_values(|e: usize| LinkV::Id(g.elements[e as int].id))
}

/// The properties every element has by its place in the graph.
pub open spec fn place_map(g: BV, i: int) -> Map<Seq<char>, ValueV> {
    let e = g.elements[i];
    Map::<Seq<char>, ValueV>::empty().insert("@type"@, ValueV::Str(e.ty)).insert(
        "@id"@,
        ValueV::Str(uuid_text(e.id)),
    ).insert("elementId"@, ValueV::Str(uuid_text(e.id))).insert(
        "isImpliedIncluded"@,
        ValueV::Bool(false),
    ).insert("ownedRelationship"@, ValueV::List(id_links(g, e.owned))).insert(
        "owningRelationship"@,
        match e.owning {
            Some(r) => ValueV::Ref(LinkV::Id(g.elements[r as int].id)),
            None => ValueV::Null,
        },
    )
}

/// The compact form of an element: its place, and over that its own
/// properties.
pub open spec fn compact_map(g: BV, i: int) -> Map<Seq<char>, ValueV> {
    place_map(g, i).union_prefer_right(g.elements[i].props)
}

pub open spec fn compact_range(g: BV, start: int, end: int) -> Seq<Map<Seq<char>, ValueV>> {
    Seq::new((end - start) as nat, |k: int| compact_map(g, start + k))
}

pub open spec fn props_views(s: Seq<Props>) -> Seq<Map<Seq<char>, ValueV>> {
    s.map_values(|p: Props| p@)
}

impl Value {
    pub fn duplicate(&self) -> (r: Value)
        ensures
            r@ == self@,
    {
        match self {
            Value::Null => Value::Null,
            Value::Bool(b) => Value::Bool(*b),
            Value::Int(n) => Value::Int(*n),
            Value::Real(s) => Value::Real(s.clone()),
            Value::Str(s) => Value::Str(s.clone()),
            Value::Ref(l) => Value::Ref(l.duplicate()),
            Value::List(ls) => {
                let mut out: Vec<Link> = Vec::new();
                let n: usize = ls.len();
                let mut i: usize = 0;
                while i < n
                    invariant
                        n == ls@.len(),
                        i <= n,
                        links_view(out@) == links_view(ls@).take(i as int),
                    decreases n - i,
                {
                    let ghost before = links_view(out@);
                    let l: Link = ls[i].duplicate();
                    out.push(l);
                    assert(links_view(out@) =~= before.push(l@));
                    assert(links_view(ls@).take(i + 1) =~= before.push(ls@[i as int]@));
                    i += 1;
                }
                assert(links_view(out@) =~= links_view(ls@));
                Value::List(out)
            },
        }
    }
}

impl Props {
    /// Takes over the properties of another list, over those already there.
    pub fn absorb(&mut self, other: &Props)
        ensures
            final(self)@ == old(self)@.union_prefer_right(other@),
    {
        let n: usize = other.pairs.len();
        let mut i: usize = 0;
        let ghost all = pairs_view(other.pairs@);
        assert(all.take(0) =~= Seq::empty());
        assert(self@ =~= old(self)@.union_prefer_right(assoc(all.take(0))));
        while i < n
            invariant
                n == other.pairs@.len(),
                all == pairs_view(other.pairs@),
                i <= n,
                self@ == old(self)@.union_prefer_right(assoc(all.take(i as int))),
            decreases n - i,
        {
            let key: &'static str = other.pairs[i].0;
            let v: Value = other.pairs[i].1.duplicate();
            let ghost next = all.take(i + 1);
            assert(next.drop_last() =~= all.take(i as int));
            assert(next.last() == (key@, v@));
            self.insert(key, v);
            assert(self@ =~= old(self)@.union_prefer_right(assoc(next)));
            i += 1;
        }
        assert(all.take(n as int) =~= all);
    }
}

impl Builder {
    fn owned_links(&self, e: usize) -> (r: Vec<Link>)
        requires
            self@.wf(),
            e < self@.n(),
        ensures
            links_view(r@) == id_links(self@, self@.elements[e as int].owned),
    {
        let n: usize = self.owned_len(e);
        let mut out: Vec<Link> = Vec::new();
        let mut i: usize = 0;
        let ghost want = id_links(self@, self@.elements[e as int].owned);
        while i < n
            invariant
                self@.wf(),
                e < self@.n(),
                n == self@.elements[e as int].owned.len(),
                i <= n,
                want == id_links(self@, self@.elements[e as int].owned),
                links_view(out@) == want.take(i as int),
            decreases n - i,
        {
            let r: usize = self.owned_at(e, i);
            let ghost before = links_view(out@);
            let l = Link::Id(self.id_of(r));
            out.push(l);
            assert(links_view(out@) =~= before.push(l@));
            assert(want.take(i + 1) =~= before.push(want[i as int]));
            i += 1;
        }
        assert(want.take(n as int) =~= want);
        out
    }

    /// The compact form of one element.
    pub fn compact_element(&self, e: usize) -> (r: Props)
        requires
            self@.wf(),
            e < self@.n(),
        ensures
            r@ == compact_map(self@, e as int),
    {
        let mut p = Props::new();
        let id: u128 = self.id_of(e);
        p.insert("@type", Value::Str(self.ty_of(e).to_owned()));
        p.insert("@id", Value::Str(id_text(id)));
        p.insert("elementId", Value::Str(id_text(id)));
        p.insert("isImpliedIncluded", Value::Bool(false));
        p.insert("ownedRelationship", Value::List(self.owned_links(e)));
        let owner: Value = match self.owning_of(e) {
            Some(r) => Value::Ref(Link::Id(self.id_of(r))),
            None => Value::Null,
        };
        p.insert("owningRelationship", owner);
        assert(p@ == place_map(self@, e as int));
        proof {
            reveal(Builder::view);
        }
        p.absorb(&self.elements[e].props);
        p
    }

    /// The compact form of the elements from `start` up to `end`.
    pub fn finish_range(&self, start: usize, end: usize) -> (r: Vec<Props>)
        requires
            self@.wf(),
            start <= end <= self@.n(),
        ensures
            props_views(r@) == compact_range(self@, start as int, end as int),
    {
        let mut out: Vec<Props> = Vec::new();
        let mut i: usize = start;
        let ghost want = compact_range(self@, start as int, end as int);
        while i < end
            invariant
                self@.wf(),
                start <= i <= end <= self@.n(),
                want == compact_range(self@, start as int, end as int),
                props_views(out@) == want.take(i - start),
            decreases end - i,
        {
            let p: Props = self.compact_element(i);
            let ghost before = props_views(out@);
            out.push(p);
            assert(props_views(out@) =~= before.push(p@));
            assert(want.take(i + 1 - start) =~= before.push(want[i - start]));
            i += 1;
        }
        assert(want.take(end - start) =~= want);
        out
    }
}

/// The graph of a single unit, before its references are resolved.
pub open spec fn unit_graph(unit: SourceUnit) -> BV {
    let (b, scope) = empty_graph(unit.dialect).push_scope(None);
    let (b, root) = b.new_root("Namespace"@, "$root"@);
    shape::build_members(b, unit.members, root, 0)
}

/// A single unit, resolved and with its ids.
pub open spec fn unit_model(unit: SourceUnit) -> LV {
    with_user_ids(
        linked(unlinked(unit_graph(unit), 0, seq![(0usize, 0usize)], Seq::empty())),
        0,
        Seq::empty(),
        Seq::empty(),
    )
}

/// Builds and resolves a single unit.
pub fn build_unit(unit: &SourceUnit) -> (r: Linker)
    ensures
        r@ == unit_model(*unit),
        r@.wf(),
{
    let mut b = Builder::new(unit.dialect);
    let scope: usize = b.push_scope(None);
    let root: usize = b.new_root("Namespace", "$root");
    b.build_members(&unit.members, root, scope);
    let mut starts: Vec<(usize, usize)> = Vec::new();
    starts.push((0, 0));
    assert(starts@ =~= seq![(0usize, 0usize)]);
    let hints: Vec<Option<Hint>> = Vec::new();
    assert(hints@ =~= Seq::<Option<Hint>>::empty());
    let mut l = Linker::start(b, 0, starts, hints);
    l.resolve_pending();
    let qnames: Vec<Row> = Vec::new();
    let mem_qnames: Vec<Row> = Vec::new();
    assert(rows_view(qnames@) =~= Seq::empty());
    assert(rows_view(mem_qnames@) =~= Seq::empty());
    let _tables = l.set_user_ids(0, qnames, mem_qnames);
    l
}

impl Linker {
    /// The compact form of the elements from `start` up to `end`.
    pub fn compact(&self, start: usize, end: usize) -> (r: Vec<Props>)
        requires
            self@.wf(),
            start <= end <= self@.r.n(),
        ensures
            props_views(r@) == compact_range(self@.r.g, start as int, end as int),
    {
        proof {
            reveal(Linker::view);
            reveal(Resolver::view);
            reveal(RV::wf);
        }
        self.res.graph.finish_range(start, end)
    }

    pub fn element_total(&self) -> (r: usize)
        ensures
            r == self@.r.n(),
    {
        proof {
            reveal(Linker::view);
            reveal(Resolver::view);
        }
        self.res.graph.element_count()
    }

    /// The mentions as reports, each with the unit it is written in.
    fn mention_reports(&self, ms: &Vec<Mention>) -> (r: Vec<Report>)
        ensures
            reports(r@) == mentions(ms@).map_values(
                |m: MentionV| ReportV { unit: elem_unit(self@.unit_starts, m.elem), qn: m.qn },
            ),
    {
        let mut out: Vec<Report> = Vec::new();
        let n: usize = ms.len();
        let mut i: usize = 0;
        let ghost want = mentions(ms@).map_values(
            |m: MentionV| ReportV { unit: elem_unit(self@.unit_starts, m.elem), qn: m.qn },
        );
        while i < n
            invariant
                n == ms@.len(),
                i <= n,
                want == mentions(ms@).map_values(
                    |m: MentionV| ReportV { unit: elem_unit(self@.unit_starts, m.elem), qn: m.qn },
                ),
                reports(out@) == want.take(i as int),
            decreases n - i,
        {
            let ghost before = reports(out@);
            let x = Report { unit: self.unit_of_elem(ms[i].elem), qn: ms[i].qn.duplicate() };
            out.push(x);
            assert(reports(out@) =~= before.push(x@));
            assert(want[i as int] == x@);
            assert(want.take(i + 1) =~= before.push(want[i as int]));
            i += 1;
        }
        assert(want.take(n as int) =~= want);
        out
    }

    /// What resolution could not resolve, what was ambiguous, the aliases
    /// without a target, and the imports that lead back to where they stand.
    /// The first two are taken from the linked graph.
    pub fn resolution_report(&mut self, scope_starts: &Vec<(usize, usize)>) -> (r: ResolutionReport)
        requires
            old(self)@.wf(),
        ensures
            r@ == report_of(old(self)@, scope_starts@),
            final(self)@.wf(),
            final(self)@.r.g == old(self)@.r.g,
            final(self)@.unresolved.len() == 0,
            final(self)@.ambiguous.len() == 0,
            final(self)@.sites == old(self)@.sites,
            final(self)@.unit_starts == old(self)@.unit_starts,
    {
        proof {
            reveal(Linker::view);
        }
        let unresolved: Vec<Report> = self.mention_reports(&self.unresolved);
        let ambiguous: Vec<Report> = self.mention_reports(&self.ambiguous);
        self.unresolved = Vec::new();
        self.ambiguous = Vec::new();
        let unresolved_aliases: Vec<Report> = self.res.check_aliases(scope_starts);
        let import_cycles: Vec<Report> = self.res.check_import_cycles(scope_starts);
        ResolutionReport { unresolved, ambiguous, unresolved_aliases, import_cycles }
    }
}

/// The findings of resolving a model. Each carries the unit it is written
/// in and the name as written.
pub struct ResolutionReport {
    /// References that did not resolve.
    pub unresolved: Vec<Report>,
    /// References with more than one candidate at the same precedence.
    pub ambiguous: Vec<Report>,
    /// Aliases whose target does not resolve.
    pub unresolved_aliases: Vec<Report>,
    /// Namespace imports that lead back to the importing namespace.
    pub import_cycles: Vec<Report>,
}

pub struct ReportsV {
    pub unresolved: Seq<ReportV>,
    pub ambiguous: Seq<ReportV>,
    pub unresolved_aliases: Seq<ReportV>,
    pub import_cycles: Seq<ReportV>,
}

impl ResolutionReport {
    pub open spec fn view(&self) -> ReportsV {
        ReportsV {
            unresolved: reports(self.unresolved@),
            ambiguous: reports(self.ambiguous@),
            unresolved_aliases: reports(self.unresolved_aliases@),
            import_cycles: reports(self.import_cycles@),
        }
    }
}

pub open spec fn mention_views(l: LV, ms: Seq<MentionV>) -> Seq<ReportV> {
    ms.map_values(|m: MentionV| ReportV { unit: elem_unit(l.unit_starts, m.elem), qn: m.qn })
}

/// The report over a linked graph.
pub open spec fn report_of(l: LV, scope_starts: Seq<(usize, usize)>) -> ReportsV {
    let (b, aliases) = all_loose_aliases(l.r, scope_starts, 0, l.r.ns());
    let (_, cycles) = all_cyclic_imports(b, scope_starts, 0, b.ns());
    ReportsV {
        unresolved: mention_views(l, l.unresolved),
        ambiguous: mention_views(l, l.ambiguous),
        unresolved_aliases: aliases,
        import_cycles: cycles,
    }
}

/// The compact form of a single unit.
pub fn to_compact_json(unit: &SourceUnit) -> (r: Vec<Props>)
    ensures
        props_views(r@) == compact_range(
            unit_model(*unit).r.g,
            0,
            unit_model(*unit).r.n() as int,
        ),
{
    let l: Linker = build_unit(unit);
    let n: usize = l.element_total();
    l.compact(0, n)
}

/// The units that start at or past the boundary, or before it, from `k` on:
/// where their elements start, and their names.
pub open spec fn unit_names(
    units: Seq<ModelUnit>,
    starts: Seq<(usize, usize)>,
    boundary: usize,
    user: bool,
    k: int,
) -> Seq<(usize, Seq<char>)>
    decreases starts.len() - k,
    when 0 <= k
{
    if k >= starts.len() {
        Seq::empty()
    } else {
        let (start, unit) = starts[k];
        let rest = unit_names(units, starts, boundary, user, k + 1);
        if user && start >= boundary {
            seq![((start - boundary) as usize, unit_name(units, unit))] + rest
        } else if !user && start < boundary {
            seq![(start, unit_name(units, unit))] + rest
        } else {
            rest
        }
    }
}

pub open spec fn unit_name(units: Seq<ModelUnit>, unit: usize) -> Seq<char> {
    if unit < units.len() {
        units[unit as int].name@
    } else {
        Seq::empty()
    }
}

/// A unit of a compact form: the position of its root, and its name.
pub struct UnitRow {
    pub start: usize,
    pub name: String,
}

pub open spec fn unit_rows(s: Seq<UnitRow>) -> Seq<(usize, Seq<char>)> {
    s.map_values(|u: UnitRow| (u.start, u.name@))
}

fn name_units(
    units: &Vec<ModelUnit>,
    starts: &Vec<(usize, usize)>,
    boundary: usize,
    user: bool,
) -> (r: Vec<UnitRow>)
    ensures
        unit_rows(r@) == unit_names(units@, starts@, boundary, user, 0),
{
    let mut out: Vec<UnitRow> = Vec::new();
    let n: usize = starts.len();
    let mut k: usize = 0;
    let ghost whole = unit_names(units@, starts@, boundary, user, 0);
    assert(unit_rows(out@) + whole =~= whole);
    while k < n
        invariant
            n == starts@.len(),
            k <= n,
            unit_rows(out@) + unit_names(units@, starts@, boundary, user, k as int) == whole,
        decreases n - k,
    {
        let (start, unit) = starts[k];
        let ghost before = unit_rows(out@);
        let ghost rest = unit_names(units@, starts@, boundary, user, k + 1);
        let name: String = if unit < units.len() {
            units[unit].name.clone()
        } else {
            String::new()
        };
        assert(name@ =~= unit_name(units@, unit));
        if user && start >= boundary {
            let row = UnitRow { start: start - boundary, name };
            out.push(row);
            assert(unit_rows(out@) =~= before.push((row.start, row.name@)));
            assert(before + (seq![(row.start, row.name@)] + rest) =~= unit_rows(out@) + rest);
        } else if !user && start < boundary {
            let row = UnitRow { start, name };
            out.push(row);
            assert(unit_rows(out@) =~= before.push((row.start, row.name@)));
            assert(before + (seq![(row.start, row.name@)] + rest) =~= unit_rows(out@) + rest);
        }
        k += 1;
    }
    assert(unit_rows(out@) + Seq::<(usize, Seq<char>)>::empty() =~= unit_rows(out@));
    out
}

/// The compact form of a model: the elements of the user's units, and where
/// each unit starts in it.
pub fn model_to_compact_json_with_units(
    units: &Vec<ModelUnit>,
    slot: CacheSlot,
) -> (r: (Vec<Props>, Vec<UnitRow>))
    ensures
        ({
            let b = built(units@, slot);
            &&& props_views(r.0@) == compact_range(b.l.r.g, b.boundary as int, b.l.r.n() as int)
            &&& unit_rows(r.1@) == unit_names(units@, b.l.unit_starts, b.boundary, true, 0)
        }),
{
    let (b, _stale) = build_model(units, slot);
    let n: usize = b.linker.element_total();
    let starts: Vec<(usize, usize)> = b.linker.read_starts();
    (b.linker.compact(b.boundary, n), name_units(units, &starts, b.boundary, true))
}

/// The compact form of a model: the elements of the user's units.
pub fn model_to_compact_json(units: &Vec<ModelUnit>, slot: CacheSlot) -> (r: Vec<Props>)
    ensures
        ({
            let b = built(units@, slot);
            props_views(r@) == compact_range(b.l.r.g, b.boundary as int, b.l.r.n() as int)
        }),
{
    let (props, _rows) = model_to_compact_json_with_units(units, slot);
    props
}

/// The compact form of a model's library: the elements of its library units.
pub fn library_to_compact_json(units: &Vec<ModelUnit>, slot: CacheSlot) -> (r: Vec<Props>)
    ensures
        ({
            let b = built(units@, slot);
            props_views(r@) == compact_range(b.l.r.g, 0, b.boundary as int)
        }),
{
    let (props, _rows) = library_to_compact_json_with_units(units, slot);
    props
}

/// The compact form of a model's library: the elements of its library
/// units, and where each unit starts in it.
pub fn library_to_compact_json_with_units(
    units: &Vec<ModelUnit>,
    slot: CacheSlot,
) -> (r: (Vec<Props>, Vec<UnitRow>))
    ensures
        ({
            let b = built(units@, slot);
            &&& props_views(r.0@) == compact_range(b.l.r.g, 0, b.boundary as int)
            &&& unit_rows(r.1@) == unit_names(units@, b.l.unit_starts, b.boundary, false, 0)
        }),
{
    let (b, _stale) = build_model(units, slot);
    let starts: Vec<(usize, usize)> = b.linker.read_starts();
    (b.linker.compact(0, b.boundary), name_units(units, &starts, b.boundary, false))
}

/// The findings of resolving a model.
pub fn model_resolution_report(units: &Vec<ModelUnit>, slot: CacheSlot) -> (r: ResolutionReport)
    ensures
        r@ == report_of(built(units@, slot).l, built(units@, slot).scope_starts),
{
    let (b, _stale) = build_model(units, slot);
    let mut l: Linker = b.linker;
    l.resolution_report(&b.scope_starts)
}

/// The compact forms of the library and of the user's units part the graph:
/// together they are the compact form of all its elements.
pub proof fn law_compact_forms_part_the_graph(b: BuiltV)
    requires
        b.boundary <= b.l.r.n(),
    ensures
        compact_range(b.l.r.g, 0, b.boundary as int) + compact_range(
            b.l.r.g,
            b.boundary as int,
            b.l.r.n() as int,
        ) == compact_range(b.l.r.g, 0, b.l.r.n() as int),
{
    assert(compact_range(b.l.r.g, 0, b.boundary as int) + compact_range(
        b.l.r.g,
        b.boundary as int,
        b.l.r.n() as int,
    ) =~= compact_range(b.l.r.g, 0, b.l.r.n() as int));
}

/// An element's own properties stand in its compact form as they are.
pub proof fn law_own_properties_win(g: BV, i: int, key: Seq<char>)
    requires
        0 <= i < g.n(),
        g.elements[i].props.contains_key(key),
    ensures
        compact_map(g, i).contains_key(key),
        compact_map(g, i)[key] == g.elements[i].props[key],
{
}

} // verus!
