//! Names of library members that take them from what they redefine, and the
//! fingerprint of a library's references.
use crate::assign_ids::with_name;
use crate::cache_format::{fnv, fnv_start};
use crate::graph_get::opt_text;
use crate::libcache::{rows_view, texts, Fnv, Row};
use crate::naming_ids::{id_index, is_membership, naming_link, text_prop};
use crate::props::{Link, LinkV, Value, ValueV};
use crate::refname::{ref_string, ref_text};
use crate::state::{Builder, PendingRef, PendingV, BV};
use crate::text::{numeral, push_numeral};
use vstd::bytes::{spec_u64_to_le_bytes, u64_to_le_bytes};
use vstd::prelude::*;
use vstd::utf8::encode_utf8;

verus! {

pub type SegsV = Seq<Seq<char>>;

/// The segments that the name table gives the library elements, rows from
/// `k` on.
pub open spec fn seeded(
    ids: Seq<u128>,
    boundary: int,
    segs: Seq<Option<SegsV>>,
    table: Seq<(u128, SegsV)>,
    k: int,
) -> Seq<Option<SegsV>>
    decreases table.len() - k,
    when 0 <= k
{
    if k >= table.len() {
        segs
    } else {
        let segs = match id_index(ids, table[k].0, boundary) {
            Some(i) => segs.update(i as int, Some(table[k].1)),
            None => segs,
        };
        seeded(ids, boundary, segs, table, k + 1)
    }
}

/// Whether an element has a declared name, be it any value but null.
pub open spec fn names_itself(g: BV, i: usize) -> bool {
    let p = g.elements[i as int].props;
    p.contains_key("declaredName"@) && p["declaredName"@] != ValueV::Null
}

/// The name of a naming target: declared, or known from its segments.
pub open spec fn target_name(g: BV, segs: Seq<Option<SegsV>>, t: usize) -> Option<Seq<char>> {
    match text_prop(g.elements[t as int], "declaredName"@) {
        Some(s) => Some(s),
        None => match segs[t as int] {
            Some(x) => if x.len() > 0 {
                Some(x.last())
            } else {
                None
            },
            None => None,
        },
    }
}

/// The segments of the element that owns an element through a membership.
pub open spec fn owner_segments(g: BV, segs: Seq<Option<SegsV>>, i: usize) -> Option<SegsV> {
    match g.elements[i as int].owning {
        Some(rel) => match g.elements[rel as int].carrier {
            Some(owner) => segs[owner as int],
            None => None,
        },
        None => None,
    }
}

/// The name an unnamed element takes from what it redefines or references.
pub open spec fn taken_name(
    g: BV,
    ids: Seq<u128>,
    boundary: int,
    segs: Seq<Option<SegsV>>,
    i: usize,
) -> Option<Seq<char>> {
    match naming_link(g, i) {
        Some(LinkV::Id(id)) => match id_index(ids, id, boundary) {
            Some(t) => target_name(g, segs, t),
            None => None,
        },
        _ => None,
    }
}

/// The segments of a library element that had none, where it can take a
/// name below a known owner.
#[verifier::opaque]
pub open spec fn found_segments(
    g: BV,
    ids: Seq<u128>,
    boundary: int,
    segs: Seq<Option<SegsV>>,
    i: usize,
) -> Option<SegsV> {
    if segs[i as int] is Some || is_membership(g.elements[i as int].ty) || names_itself(g, i) {
        None
    } else {
        match (owner_segments(g, segs, i), taken_name(g, ids, boundary, segs, i)) {
            (Some(o), Some(name)) => Some(o.push(name)),
            _ => None,
        }
    }
}

/// What one round finds among the library elements from `i` on.
pub open spec fn found(
    g: BV,
    ids: Seq<u128>,
    boundary: int,
    segs: Seq<Option<SegsV>>,
    i: int,
) -> Seq<(usize, SegsV)>
    decreases boundary - i,
    when 0 <= i
{
    if i >= boundary {
        Seq::empty()
    } else {
        match found_segments(g, ids, boundary, segs, i as usize) {
            Some(x) => seq![(i as usize, x)] + found(g, ids, boundary, segs, i + 1),
            None => found(g, ids, boundary, segs, i + 1),
        }
    }
}

/// The name table with what a round found, from `k` on.
pub open spec fn named_rows(
    ids: Seq<u128>,
    qnames: Seq<(u128, SegsV)>,
    found: Seq<(usize, SegsV)>,
    k: int,
) -> Seq<(u128, SegsV)>
    decreases found.len() - k,
    when 0 <= k
{
    if k >= found.len() {
        qnames
    } else {
        named_rows(ids, qnames.push((ids[found[k].0 as int], found[k].1)), found, k + 1)
    }
}

pub open spec fn known_segments(
    segs: Seq<Option<SegsV>>,
    found: Seq<(usize, SegsV)>,
    k: int,
) -> Seq<Option<SegsV>>
    decreases found.len() - k,
    when 0 <= k
{
    if k >= found.len() {
        segs
    } else {
        known_segments(segs.update(found[k].0 as int, Some(found[k].1)), found, k + 1)
    }
}

/// Rounds until nothing is found; each names at least one element, so there
/// are at most as many as library elements.
pub open spec fn effective_rounds(
    g: BV,
    ids: Seq<u128>,
    boundary: int,
    segs: Seq<Option<SegsV>>,
    qnames: Seq<(u128, SegsV)>,
    fuel: nat,
) -> Seq<(u128, SegsV)>
    decreases fuel,
{
    let f = found(g, ids, boundary, segs, 0);
    if fuel == 0 || f.len() == 0 {
        qnames
    } else {
        effective_rounds(
            g,
            ids,
            boundary,
            known_segments(segs, f, 0),
            named_rows(ids, qnames, f, 0),
            (fuel - 1) as nat,
        )
    }
}

/// The name table of a library, extended by the members that take their
/// names from what they redefine.
pub open spec fn effective_table(
    g: BV,
    ids: Seq<u128>,
    boundary: int,
    qnames: Seq<(u128, SegsV)>,
) -> Seq<(u128, SegsV)> {
    let none = Seq::new(g.n(), |i: int| None::<SegsV>);
    effective_rounds(
        g,
        ids,
        boundary,
        seeded(ids, boundary, none, qnames, 0),
        qnames,
        boundary as nat,
    )
}

pub open spec fn opt_segs(s: Seq<Option<Vec<String>>>) -> Seq<Option<SegsV>> {
    s.map_values(
        |o: Option<Vec<String>>|
            match o {
                Some(v) => Some(texts(v@)),
                None => None,
            },
    )
}

pub struct Found {
    pub elem: usize,
    pub segs: Vec<String>,
}

pub open spec fn found_view(s: Seq<Found>) -> Seq<(usize, SegsV)> {
    s.map_values(|f: Found| (f.elem, texts(f.segs@)))
}

pub fn copy_segs(segs: &Vec<String>) -> (r: Vec<String>)
    ensures
        texts(r@) == texts(segs@),
{
    let mut out: Vec<String> = Vec::new();
    let n: usize = segs.len();
    let mut i: usize = 0;
    while i < n
        invariant
            n == segs@.len(),
            i <= n,
            out@.len() == i,
            forall|j: int| 0 <= j < i ==> #[trigger] out@[j]@ == segs@[j]@,
        decreases n - i,
    {
        out.push(segs[i].clone());
        i += 1;
    }
    assert(texts(out@) =~= texts(segs@));
    out
}

fn find_id(ids: &Vec<u128>, id: u128, boundary: usize) -> (r: Option<usize>)
    requires
        boundary <= ids@.len(),
    ensures
        r == id_index(ids@, id, boundary as int),
        r is Some ==> r->0 < boundary,
{
    let mut k: usize = boundary;
    while k > 0
        invariant
            k <= boundary <= ids@.len(),
            id_index(ids@, id, boundary as int) == id_index(ids@, id, k as int),
        decreases k,
    {
        k -= 1;
        if ids[k] == id {
            return Some(k);
        }
    }
    None
}

fn seed(
    ids: &Vec<u128>,
    boundary: usize,
    n: usize,
    table: &Vec<Row>,
) -> (r: Vec<Option<Vec<String>>>)
    requires
        boundary <= n,
        ids@.len() == n,
    ensures
        opt_segs(r@) == seeded(
            ids@,
            boundary as int,
            Seq::new(n as nat, |i: int| None::<SegsV>),
            rows_view(table@),
            0,
        ),
        r@.len() == n,
{
    let mut segs: Vec<Option<Vec<String>>> = Vec::new();
    while segs.len() < n
        invariant
            segs@.len() <= n,
            forall|j: int| 0 <= j < segs@.len() ==> segs@[j] is None,
        decreases n - segs@.len(),
    {
        segs.push(None);
    }
    let ghost none = Seq::new(n as nat, |i: int| None::<SegsV>);
    assert(opt_segs(segs@) =~= none);
    let m: usize = table.len();
    let mut k: usize = 0;
    while k < m
        invariant
            boundary <= n,
            ids@.len() == n,
            m == table@.len(),
            k <= m,
            segs@.len() == n,
            seeded(ids@, boundary as int, opt_segs(segs@), rows_view(table@), k as int) == seeded(
                ids@,
                boundary as int,
                none,
                rows_view(table@),
                0,
            ),
        decreases m - k,
    {
        let row: &Row = &table[k];
        assert(rows_view(table@)[k as int] == row@);
        if let Some(i) = find_id(ids, row.id, boundary) {
            let ghost before = opt_segs(segs@);
            let copy: Vec<String> = copy_segs(&row.segs);
            segs.set(i, Some(copy));
            assert(opt_segs(segs@) =~= before.update(i as int, Some(texts(copy@))));
        }
        k += 1;
    }
    segs
}

fn has_own_name(g: &Builder, i: usize) -> (r: bool)
    requires
        i < g@.n(),
    ensures
        r == names_itself(g@, i),
{
    proof {
        reveal(Builder::view);
    }
    match g.elements[i].props.get("declaredName") {
        Some(Value::Null) => false,
        Some(v) => {
            assert(v@ != ValueV::Null);
            true
        },
        None => false,
    }
}

fn name_of_target(g: &Builder, segs: &Vec<Option<Vec<String>>>, t: usize) -> (r: Option<String>)
    requires
        t < g@.n(),
        segs@.len() == g@.n(),
    ensures
        opt_text(r) == target_name(g@, opt_segs(segs@), t),
{
    match g.text_of(t, "declaredName") {
        Some(s) => Some(s),
        None => {
            assert(opt_segs(segs@)[t as int] == (match segs@[t as int] {
                Some(v) => Some(texts(v@)),
                None => None,
            }));
            match &segs[t] {
                Some(x) => {
                    let n: usize = x.len();
                    if n > 0 {
                        Some(x[n - 1].clone())
                    } else {
                        None
                    }
                },
                None => None,
            }
        },
    }
}

fn segments_of_owner(
    g: &Builder,
    segs: &Vec<Option<Vec<String>>>,
    i: usize,
) -> (r: Option<Vec<String>>)
    requires
        g@.wf(),
        i < g@.n(),
        segs@.len() == g@.n(),
    ensures
        owner_segments(g@, opt_segs(segs@), i) == (match r {
            Some(v) => Some(texts(v@)),
            None => None,
        }),
{
    match g.owning_of(i) {
        Some(rel) => match g.carrier_of(rel) {
            Some(owner) => {
                assert(opt_segs(segs@)[owner as int] == (match segs@[owner as int] {
                    Some(v) => Some(texts(v@)),
                    None => None,
                }));
                match &segs[owner] {
                    Some(x) => Some(copy_segs(x)),
                    None => None,
                }
            },
            None => None,
        },
        None => None,
    }
}

fn name_taken(
    g: &Builder,
    ids: &Vec<u128>,
    boundary: usize,
    segs: &Vec<Option<Vec<String>>>,
    i: usize,
) -> (r: Option<String>)
    requires
        g@.wf(),
        i < g@.n(),
        ids@.len() == g@.n(),
        boundary <= g@.n(),
        segs@.len() == g@.n(),
    ensures
        opt_text(r) == taken_name(g@, ids@, boundary as int, opt_segs(segs@), i),
{
    match g.naming_link(i) {
        Some(Link::Id(id)) => match find_id(ids, id, boundary) {
            Some(t) => name_of_target(g, segs, t),
            None => None,
        },
        _ => None,
    }
}

fn find_segments(
    g: &Builder,
    ids: &Vec<u128>,
    boundary: usize,
    segs: &Vec<Option<Vec<String>>>,
    i: usize,
) -> (r: Option<Vec<String>>)
    requires
        g@.wf(),
        i < g@.n(),
        ids@.len() == g@.n(),
        boundary <= g@.n(),
        segs@.len() == g@.n(),
    ensures
        found_segments(g@, ids@, boundary as int, opt_segs(segs@), i) == (match r {
            Some(v) => Some(texts(v@)),
            None => None,
        }),
{
    proof {
        reveal(found_segments);
    }
    assert(opt_segs(segs@)[i as int] is Some == segs@[i as int] is Some);
    if segs[i].is_some() || g.membership(i) || has_own_name(g, i) {
        return None;
    }
    match (segments_of_owner(g, segs, i), name_taken(g, ids, boundary, segs, i)) {
        (Some(o), Some(name)) => Some(with_name(&o, name.as_str())),
        _ => None,
    }
}

fn find_all(
    g: &Builder,
    ids: &Vec<u128>,
    boundary: usize,
    segs: &Vec<Option<Vec<String>>>,
) -> (r: Vec<Found>)
    requires
        g@.wf(),
        ids@.len() == g@.n(),
        boundary <= g@.n(),
        segs@.len() == g@.n(),
    ensures
        found_view(r@) == found(g@, ids@, boundary as int, opt_segs(segs@), 0),
        forall|k: int| 0 <= k < r@.len() ==> (#[trigger] r@[k]).elem < g@.n(),
{
    let mut out: Vec<Found> = Vec::new();
    let mut i: usize = 0;
    let ghost whole = found(g@, ids@, boundary as int, opt_segs(segs@), 0);
    assert(found_view(out@) + whole =~= whole);
    while i < boundary
        invariant
            g@.wf(),
            ids@.len() == g@.n(),
            boundary <= g@.n(),
            segs@.len() == g@.n(),
            i <= boundary,
            forall|k: int| 0 <= k < out@.len() ==> (#[trigger] out@[k]).elem < g@.n(),
            found_view(out@) + found(g@, ids@, boundary as int, opt_segs(segs@), i as int) == whole,
        decreases boundary - i,
    {
        let ghost before = found_view(out@);
        let ghost rest = found(g@, ids@, boundary as int, opt_segs(segs@), i + 1);
        if let Some(x) = find_segments(g, ids, boundary, segs, i) {
            let ghost row = (i, texts(x@));
            out.push(Found { elem: i, segs: x });
            assert(found_view(out@) =~= before.push(row));
            assert(before + (seq![row] + rest) =~= before.push(row) + rest);
        }
        i += 1;
    }
    assert(found_view(out@) + Seq::<(usize, SegsV)>::empty() =~= found_view(out@));
    out
}

fn add_found(
    ids: &Vec<u128>,
    fs: &Vec<Found>,
    segs: &mut Vec<Option<Vec<String>>>,
    qnames: &mut Vec<Row>,
)
    requires
        old(segs)@.len() == ids@.len(),
        forall|k: int| 0 <= k < fs@.len() ==> (#[trigger] fs@[k]).elem < ids@.len(),
    ensures
        opt_segs(final(segs)@) == known_segments(opt_segs(old(segs)@), found_view(fs@), 0),
        rows_view(final(qnames)@) == named_rows(ids@, rows_view(old(qnames)@), found_view(fs@), 0),
        final(segs)@.len() == ids@.len(),
{
    let n: usize = fs.len();
    let mut k: usize = 0;
    while k < n
        invariant
            n == fs@.len(),
            k <= n,
            segs@.len() == ids@.len(),
            forall|k: int| 0 <= k < fs@.len() ==> (#[trigger] fs@[k]).elem < ids@.len(),
            known_segments(opt_segs(segs@), found_view(fs@), k as int) == known_segments(
                opt_segs(old(segs)@),
                found_view(fs@),
                0,
            ),
            named_rows(ids@, rows_view(qnames@), found_view(fs@), k as int) == named_rows(
                ids@,
                rows_view(old(qnames)@),
                found_view(fs@),
                0,
            ),
        decreases n - k,
    {
        let f: &Found = &fs[k];
        assert(found_view(fs@)[k as int] == (f.elem, texts(f.segs@)));
        let ghost sb = opt_segs(segs@);
        let ghost qb = rows_view(qnames@);
        let a: Vec<String> = copy_segs(&f.segs);
        let b: Vec<String> = copy_segs(&f.segs);
        segs.set(f.elem, Some(a));
        assert(opt_segs(segs@) =~= sb.update(f.elem as int, Some(texts(f.segs@))));
        let row = Row { id: ids[f.elem], segs: b };
        qnames.push(row);
        assert(rows_view(qnames@) =~= qb.push(row@));
        k += 1;
    }
}

/// Extends a library's name table by the members that take their names from
/// what they redefine.
pub fn record_lib_effective_names(
    g: &Builder,
    ids: &Vec<u128>,
    boundary: usize,
    qnames: &mut Vec<Row>,
)
    requires
        g@.wf(),
        ids@.len() == g@.n(),
        boundary <= g@.n(),
    ensures
        rows_view(final(qnames)@) == effective_table(
            g@,
            ids@,
            boundary as int,
            rows_view(old(qnames)@),
        ),
{
    let n: usize = g.element_count();
    let mut segs: Vec<Option<Vec<String>>> = seed(ids, boundary, n, qnames);
    let mut fuel: usize = boundary;
    let ghost start = opt_segs(segs@);
    loop
        invariant
            g@.wf(),
            ids@.len() == g@.n(),
            boundary <= g@.n(),
            segs@.len() == g@.n(),
            effective_rounds(
                g@,
                ids@,
                boundary as int,
                opt_segs(segs@),
                rows_view(qnames@),
                fuel as nat,
            ) == effective_rounds(
                g@,
                ids@,
                boundary as int,
                start,
                rows_view(old(qnames)@),
                boundary as nat,
            ),
        ensures
            rows_view(qnames@) == effective_rounds(
                g@,
                ids@,
                boundary as int,
                start,
                rows_view(old(qnames)@),
                boundary as nat,
            ),
        decreases fuel,
    {
        let fs: Vec<Found> = find_all(g, ids, boundary, &segs);
        assert(found_view(fs@).len() == fs@.len());
        if fuel == 0 || fs.len() == 0 {
            break;
        }
        add_found(ids, &fs, &mut segs, qnames);
        fuel -= 1;
    }
}

/// The key of a reference with its position in a list.
pub open spec fn key_text(p: PendingV) -> Seq<char> {
    match p.index {
        Some(i) => (p.key + "#"@) + numeral(i as nat),
        None => p.key,
    }
}

/// The hash of the first `k` references, library references only.
pub open spec fn refs_hash(pending: Seq<PendingV>, boundary: usize, k: int) -> u64
    decreases k,
{
    if k <= 0 {
        fnv_start()
    } else {
        let h = refs_hash(pending, boundary, k - 1);
        let p = pending[k - 1];
        if p.elem >= boundary {
            h
        } else {
            let h = fnv(h, spec_u64_to_le_bytes(p.elem as u64));
            let h = fnv(h, encode_utf8(key_text(p)));
            fnv(h, encode_utf8(ref_text(p.qn)))
        }
    }
}

fn key_string(p: &PendingRef) -> (r: String)
    ensures
        r@ == key_text(p@),
{
    let mut s: String = p.key.to_owned();
    if let Some(i) = p.index {
        s.push('#');
        proof {
            reveal_strlit("#");
            assert("#"@ =~= seq!['#']);
            assert(s@ =~= p.key@ + "#"@);
        }
        push_numeral(&mut s, i);
    }
    s
}

/// The hash of a library's references, in order: what a cache's outcomes
/// are aligned with.
pub fn lib_pending_fingerprint(g: &Builder, boundary: usize) -> (r: u64)
    ensures
        r == refs_hash(g@.pending, boundary, g@.pending.len() as int),
{
    proof {
        reveal(Builder::view);
    }
    let mut h = Fnv::new();
    let n: usize = g.pending.len();
    let mut k: usize = 0;
    while k < n
        invariant
            n == g@.pending.len(),
            n == g.pending@.len(),
            k <= n,
            h.state() == refs_hash(g@.pending, boundary, k as int),
        decreases n - k,
    {
        proof {
            reveal(Builder::view);
        }
        let p: &PendingRef = &g.pending[k];
        assert(g@.pending[k as int] == p@);
        if p.elem < boundary {
            let le: Vec<u8> = u64_to_le_bytes(p.elem as u64);
            h.update(le.as_slice());
            let key: String = key_string(p);
            h.update(key.as_str().as_bytes());
            let text: String = ref_string(&p.qn);
            h.update(text.as_str().as_bytes());
        }
        k += 1;
    }
    h.finish()
}

} // verus!
