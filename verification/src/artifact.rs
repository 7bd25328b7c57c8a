//! The resolver tables of a library: which id a qualified name stands for.
use crate::ast::ModelUnit;
use crate::ids::{id_text, uuid_text};
use crate::implied::{raw_name, raw_path, NamedId};
use crate::lib_names::copy_segs;
use crate::libcache::{rows_view, texts, Row};
use crate::model_build::{build_model, built, CacheSlot};
use crate::text::str_eq;
use vstd::prelude::*;

verus! {

pub type NamedRowV = (u128, Seq<Seq<char>>);

/// The qualified name of a row.
pub open spec fn row_name(r: NamedRowV) -> Seq<char> {
    raw_path(r.1, r.1.len() as int)
}

/// Whether a row is the last of its id.
pub open spec fn is_current(rows: Seq<NamedRowV>, i: int) -> bool {
    0 <= i < rows.len() && forall|j: int| i < j < rows.len() ==> (#[trigger] rows[j]).0 != rows[i].0
}

/// Whether an element claims a name.
pub open spec fn claims(rows: Seq<NamedRowV>, name: Seq<char>, id: u128) -> bool {
    exists|i: int| #[trigger] is_current(rows, i) && rows[i].0 == id && row_name(rows[i]) == name
}

/// Whether two distinct elements claim a name.
pub open spec fn contested(rows: Seq<NamedRowV>, name: Seq<char>) -> bool {
    exists|i: int, j: int| #[trigger]
        is_current(rows, i) && #[trigger] is_current(rows, j) && rows[i].0 != rows[j].0 && row_name(
            rows[i],
        ) == name && row_name(rows[j]) == name
}

/// The names that stand for one element, and those that two elements claim.
pub struct ResolverTables {
    pub inverse: Vec<NamedId>,
    pub collisions: Vec<String>,
}

fn is_last(rows: &Vec<Row>, i: usize) -> (r: bool)
    requires
        i < rows@.len(),
    ensures
        r == is_current(rows_view(rows@), i as int),
{
    let n: usize = rows.len();
    let mut j: usize = i + 1;
    while j < n
        invariant
            n == rows@.len(),
            i < j <= n,
            forall|k: int| i < k < j ==> (#[trigger] rows_view(rows@)[k]).0 != rows_view(rows@)[i as int].0,
        decreases n - j,
    {
        assert(rows_view(rows@)[j as int].0 == rows@[j as int].id);
        if rows[j].id == rows[i].id {
            return false;
        }
        j += 1;
    }
    true
}

fn is_contested(rows: &Vec<Row>, i: usize, name: &str) -> (r: bool)
    requires
        is_current(rows_view(rows@), i as int),
        row_name(rows_view(rows@)[i as int]) == name@,
    ensures
        r == contested(rows_view(rows@), name@),
{
    let ghost v = rows_view(rows@);
    let n: usize = rows.len();
    let mut j: usize = 0;
    while j < n
        invariant
            n == rows@.len(),
            v == rows_view(rows@),
            is_current(v, i as int),
            row_name(v[i as int]) == name@,
            j <= n,
            forall|k: int|
                0 <= k < j && #[trigger] is_current(v, k) && v[k].0 != v[i as int].0 ==> row_name(v[k]) != name@,
        decreases n - j,
    {
        let row: &Row = &rows[j];
        assert(v[j as int] == row@);
        assert(v[i as int] == rows@[i as int]@);
        if row.id != rows[i].id && is_last(rows, j) {
            let other: String = raw_name(&row.segs);
            assert(texts(row.segs@).len() == row.segs@.len());
            if str_eq(other.as_str(), name) {
                assert(is_current(v, i as int) && is_current(v, j as int));
                return true;
            }
        }
        j += 1;
    }
    proof {
        if contested(v, name@) {
            let (a, b) = choose|a: int, b: int| #[trigger]
                is_current(v, a) && #[trigger] is_current(v, b) && v[a].0 != v[b].0 && row_name(v[a])
                    == name@ && row_name(v[b]) == name@;
            if v[a].0 == v[i as int].0 {
                assert(v[b].0 != v[i as int].0);
            }
        }
    }
    false
}

fn has_text(s: &Vec<String>, x: &str) -> (r: bool)
    ensures
        r == texts(s@).contains(x@),
{
    let n: usize = s.len();
    let mut k: usize = 0;
    while k < n
        invariant
            n == s@.len(),
            k <= n,
            forall|j: int| 0 <= j < k ==> #[trigger] texts(s@)[j] != x@,
        decreases n - k,
    {
        assert(texts(s@)[k as int] == s@[k as int]@);
        if str_eq(s[k].as_str(), x) {
            return true;
        }
        k += 1;
    }
    false
}

/// Whether the inverse holds a name under an id.
pub open spec fn maps(s: Seq<NamedId>, name: Seq<char>, id: u128) -> bool {
    exists|k: int| 0 <= k < s.len() && (#[trigger] s[k]).name@ == name && s[k].id == id
}

/// The inverse of a library's name table: a name stands for the element
/// that claims it, unless two distinct elements do, which is reported
/// instead.
pub fn resolver_tables(rows: &Vec<Row>) -> (r: ResolverTables)
    ensures
        forall|name: Seq<char>, id: u128|
            #![trigger maps(r.inverse@, name, id)]
            #![trigger claims(rows_view(rows@), name, id)]
            maps(r.inverse@, name, id) <==> claims(rows_view(rows@), name, id) && !contested(
                rows_view(rows@),
                name,
            ),
        forall|name: Seq<char>|
            #![trigger texts(r.collisions@).contains(name)]
            #![trigger contested(rows_view(rows@), name)]
            texts(r.collisions@).contains(name) <==> contested(rows_view(rows@), name),
{
    let ghost v = rows_view(rows@);
    let mut inverse: Vec<NamedId> = Vec::new();
    let mut collisions: Vec<String> = Vec::new();
    let n: usize = rows.len();
    let mut i: usize = 0;
    while i < n
        invariant
            n == rows@.len(),
            v == rows_view(rows@),
            i <= n,
            forall|k: int|
                0 <= k < inverse@.len() ==> claims(v, (#[trigger] inverse@[k]).name@, inverse@[k].id)
                    && !contested(v, inverse@[k].name@),
            forall|k: int|
                0 <= k < i && #[trigger] is_current(v, k) && !contested(v, row_name(v[k])) ==> maps(
                    inverse@,
                    row_name(v[k]),
                    v[k].0,
                ),
            forall|k: int| 0 <= k < collisions@.len() ==> contested(v, (#[trigger] collisions@[k])@),
            forall|k: int|
                0 <= k < i && #[trigger] is_current(v, k) && contested(v, row_name(v[k])) ==> texts(
                    collisions@,
                ).contains(row_name(v[k])),
        decreases n - i,
    {
        let row: &Row = &rows[i];
        assert(v[i as int] == row@);
        if is_last(rows, i) {
            let name: String = raw_name(&row.segs);
            assert(texts(row.segs@).len() == row.segs@.len());
            assert(row_name(v[i as int]) == name@);
            if is_contested(rows, i, name.as_str()) {
                if !has_text(&collisions, name.as_str()) {
                    let ghost before = collisions@;
                    let ghost nv = name@;
                    collisions.push(name);
                    assert(texts(collisions@) =~= texts(before).push(nv));
                    assert forall|k: int|
                        0 <= k < i && #[trigger] is_current(v, k) && contested(v, row_name(v[k])) implies texts(
                    collisions@).contains(row_name(v[k])) by {
                        let j = texts(before).index_of(row_name(v[k]));
                        assert(texts(collisions@)[j] == row_name(v[k]));
                    }
                    assert(texts(collisions@)[before.len() as int] == nv);
                }
            } else {
                let ghost before = inverse@;
                let x = NamedId { name, id: row.id };
                let ghost nv = name@;
                assert(is_current(v, i as int));
                assert(claims(v, nv, row.id));
                inverse.push(x);
                assert forall|k: int|
                    0 <= k < i && #[trigger] is_current(v, k) && !contested(v, row_name(v[k])) implies maps(
                inverse@, row_name(v[k]), v[k].0) by {
                    let j = choose|j: int|
                        0 <= j < before.len() && (#[trigger] before[j]).name@ == row_name(v[k])
                            && before[j].id == v[k].0;
                    assert(inverse@[j] == before[j]);
                }
                assert(inverse@[before.len() as int].name@ == nv);
                assert(maps(inverse@, row_name(v[i as int]), v[i as int].0));
            }
        }
        i += 1;
    }
    assert forall|name: Seq<char>| contested(v, name) implies #[trigger] texts(collisions@).contains(
        name,
    ) by {
        let (a, b) = choose|a: int, b: int| #[trigger]
            is_current(v, a) && #[trigger] is_current(v, b) && v[a].0 != v[b].0 && row_name(v[a])
                == name && row_name(v[b]) == name;
        assert(is_current(v, a));
    }
    assert forall|name: Seq<char>| #[trigger] texts(collisions@).contains(name) implies contested(
        v,
        name,
    ) by {
        let k = texts(collisions@).index_of(name);
        assert(texts(collisions@)[k] == collisions@[k]@);
    }
    assert forall|name: Seq<char>, id: u128| #[trigger] maps(inverse@, name, id) implies claims(
        v,
        name,
        id,
    ) && !contested(v, name) by {
        let k = choose|k: int|
            0 <= k < inverse@.len() && (#[trigger] inverse@[k]).name@ == name && inverse@[k].id == id;
        assert(claims(v, inverse@[k].name@, inverse@[k].id));
    }
    assert forall|name: Seq<char>, id: u128| #[trigger] claims(v, name, id) && !contested(v, name) implies maps(
    inverse@, name, id) by {
        let k = choose|k: int| #[trigger] is_current(v, k) && v[k].0 == id && row_name(v[k]) == name;
        assert(is_current(v, k));
    }
    ResolverTables { inverse, collisions }
}

/// A name of the inverse stands for one element only.
pub proof fn law_names_stand_for_one_element(
    rows: Seq<NamedRowV>,
    name: Seq<char>,
    a: u128,
    b: u128,
)
    requires
        claims(rows, name, a),
        claims(rows, name, b),
        !contested(rows, name),
    ensures
        a == b,
{
    let i = choose|i: int| #[trigger] is_current(rows, i) && rows[i].0 == a && row_name(rows[i]) == name;
    let j = choose|j: int| #[trigger] is_current(rows, j) && rows[j].0 == b && row_name(rows[j]) == name;
    if a != b {
        assert(is_current(rows, i) && is_current(rows, j));
    }
}

/// The segments of a qualified name under the text of its id.
pub struct NameMapRow {
    pub id: String,
    pub segments: Vec<String>,
}

pub open spec fn name_map_view(s: Seq<NameMapRow>) -> Seq<(Seq<char>, Seq<Seq<char>>)> {
    s.map_values(|x: NameMapRow| (x.id@, texts(x.segments@)))
}

/// The rows from `i` on that are the last of their ids.
pub open spec fn name_map(rows: Seq<NamedRowV>, i: int) -> Seq<(Seq<char>, Seq<Seq<char>>)>
    decreases rows.len() - i,
    when 0 <= i
{
    if i >= rows.len() {
        Seq::empty()
    } else if is_current(rows, i) {
        seq![(uuid_text(rows[i].0), rows[i].1)] + name_map(rows, i + 1)
    } else {
        name_map(rows, i + 1)
    }
}

fn name_map_of(rows: &Vec<Row>) -> (r: Vec<NameMapRow>)
    ensures
        name_map_view(r@) == name_map(rows_view(rows@), 0),
{
    let ghost v = rows_view(rows@);
    let mut out: Vec<NameMapRow> = Vec::new();
    let n: usize = rows.len();
    let mut i: usize = 0;
    let ghost whole = name_map(v, 0);
    assert(name_map_view(out@) + whole =~= whole);
    while i < n
        invariant
            n == rows@.len(),
            v == rows_view(rows@),
            i <= n,
            name_map_view(out@) + name_map(v, i as int) == whole,
        decreases n - i,
    {
        if is_last(rows, i) {
            let row: &Row = &rows[i];
            assert(v[i as int] == row@);
            let x = NameMapRow { id: id_text(row.id), segments: copy_segs(&row.segs) };
            let ghost before = name_map_view(out@);
            let ghost rest = name_map(v, i + 1);
            let ghost xv = (x.id@, texts(x.segments@));
            out.push(x);
            assert(name_map_view(out@) =~= before.push(xv));
            assert(before + (seq![xv] + rest) =~= name_map_view(out@) + rest);
        }
        i += 1;
    }
    assert(name_map_view(out@) + Seq::<(Seq<char>, Seq<Seq<char>>)>::empty() =~= name_map_view(out@));
    out
}

/// The qualified names of a model's library elements, memberships and aliases
/// by id.
pub fn library_name_map(units: &Vec<ModelUnit>, slot: CacheSlot) -> (r: Vec<NameMapRow>)
    ensures
        ({
            let b = built(units@, slot);
            name_map_view(r@) == name_map(b.qnames + b.mem_qnames, 0)
        }),
{
    let (b, _stale) = build_model(units, slot);
    let ghost q = rows_view(b.qnames@);
    let ghost m = rows_view(b.mem_qnames@);
    let mut rows: Vec<Row> = b.qnames;
    let mut more: Vec<Row> = b.mem_qnames;
    rows.append(&mut more);
    assert(rows_view(rows@) =~= q + m);
    name_map_of(&rows)
}

/// The qualified names of a model's library elements by id, without the
/// memberships and aliases.
pub fn library_element_name_map(units: &Vec<ModelUnit>, slot: CacheSlot) -> (r: Vec<NameMapRow>)
    ensures
        name_map_view(r@) == name_map(built(units@, slot).qnames, 0),
{
    let (b, _stale) = build_model(units, slot);
    name_map_of(&b.qnames)
}

} // verus!
