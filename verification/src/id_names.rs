//! The names that user element identifiers chain from.
use crate::assign_ids::IdWork;
use crate::graph_get::opt_text;
use crate::libcache::{rows_view, Row};
use crate::naming_ids::{
    declared_name, declared_names, element_names, graph_name, id_index, name_pass, name_rounds,
    table_names,
};
use crate::props::Link;
use crate::refname::last_segment_of;
use crate::rstate::{lemma_none_count_update, none_count};
use crate::state::Builder;
use std::collections::HashMap;
use vstd::prelude::*;

verus! {

pub open spec fn opt_texts(s: Seq<Option<String>>) -> Seq<Option<Seq<char>>> {
    s.map_values(|o: Option<String>| opt_text(o))
}

/// Elements by their ids; of several with one id the last.
pub struct IdIndex {
    map: HashMap<u128, usize>,
    ids: Ghost<Seq<u128>>,
}

impl IdIndex {
    pub closed spec fn covers(&self, ids: Seq<u128>) -> bool {
        &&& self.ids@ == ids
        &&& forall|id: u128|
            #![trigger self.map@.contains_key(id)]
            #![trigger id_index(ids, id, ids.len() as int)]
            match id_index(ids, id, ids.len() as int) {
                Some(i) => self.map@.contains_key(id) && self.map@[id] == i,
                None => !self.map@.contains_key(id),
            }
    }

    /// The index over a list of ids.
    pub fn new(ids: &Vec<u128>) -> (r: IdIndex)
        ensures
            r.covers(ids@),
    {
        broadcast use vstd::std_specs::hash::group_hash_axioms;

        let mut map: HashMap<u128, usize> = HashMap::new();
        let n: usize = ids.len();
        let mut k: usize = 0;
        while k < n
            invariant
                n == ids@.len(),
                k <= n,
                forall|id: u128|
                    #![trigger map@.contains_key(id)]
                    #![trigger id_index(ids@, id, k as int)]
                    match id_index(ids@, id, k as int) {
                        Some(i) => map@.contains_key(id) && map@[id] == i,
                        None => !map@.contains_key(id),
                    },
            decreases n - k,
        {
            broadcast use vstd::std_specs::hash::group_hash_axioms;

            let ghost before = map@;
            let id: u128 = ids[k];
            map.insert(id, k);
            assert forall|x: u128|
                #![trigger map@.contains_key(x)]
                #![trigger id_index(ids@, x, k + 1)]
                match id_index(ids@, x, k + 1) {
                    Some(i) => map@.contains_key(x) && map@[x] == i,
                    None => !map@.contains_key(x),
                } by {
                assert(map@ == before.insert(id, k));
                let was = id_index(ids@, x, k as int);
                assert(match was {
                    Some(i) => before.contains_key(x) && before[x] == i,
                    None => !before.contains_key(x),
                });
            }
            k += 1;
        }
        IdIndex { map, ids: Ghost(ids@) }
    }

    /// The element with an id.
    pub fn find(&self, id: u128, Ghost(ids): Ghost<Seq<u128>>) -> (r: Option<usize>)
        requires
            self.covers(ids),
        ensures
            r == id_index(ids, id, ids.len() as int),
            r is Some ==> r->0 < ids.len(),
    {
        broadcast use vstd::std_specs::hash::group_hash_axioms;

        proof {
            lemma_id_index(ids, id, ids.len() as int);
        }
        match self.map.get(&id) {
            Some(i) => {
                assert(self.map@.contains_key(id));
                Some(*i)
            },
            None => {
                assert(!self.map@.contains_key(id));
                None
            },
        }
    }
}

pub proof fn lemma_id_index(ids: Seq<u128>, id: u128, k: int)
    requires
        k <= ids.len(),
    ensures
        id_index(ids, id, k) is Some ==> id_index(ids, id, k)->0 < k || ids.len() > usize::MAX,
        id_index(ids, id, k) is Some && ids.len() <= usize::MAX ==> ids[id_index(ids, id, k)->0 as int] == id,
    decreases k,
{
    if k > 0 && ids[k - 1] != id {
        lemma_id_index(ids, id, k - 1);
    }
}

fn copy_name(o: &Option<String>) -> (r: Option<String>)
    ensures
        opt_text(r) == opt_text(*o),
{
    match o {
        Some(s) => Some(s.clone()),
        None => None,
    }
}

fn declared(g: &Builder) -> (r: Vec<Option<String>>)
    ensures
        opt_texts(r@) == declared_names(g@),
{
    let n: usize = g.element_count();
    let mut out: Vec<Option<String>> = Vec::new();
    let mut i: usize = 0;
    while i < n
        invariant
            n == g@.n(),
            i <= n,
            opt_texts(out@) == declared_names(g@).take(i as int),
        decreases n - i,
    {
        let name = g.effective_name(i);
        let ghost before = opt_texts(out@);
        out.push(name);
        assert(opt_texts(out@) =~= before.push(opt_text(name)));
        assert(
            declared_names(g@).take(i + 1) =~= declared_names(g@).take(i as int).push(
                declared_name(g@.elements[i as int])
            )
        );
        i += 1;
    }
    assert(opt_texts(out@) =~= declared_names(g@));
    out
}

fn add_table(
    index: &IdIndex,
    Ghost(ids): Ghost<Seq<u128>>,
    names: &mut Vec<Option<String>>,
    table: &Vec<Row>,
)
    requires
        index.covers(ids),
        old(names)@.len() == ids.len(),
    ensures
        opt_texts(final(names)@) == table_names(ids, opt_texts(old(names)@), rows_view(table@), 0),
        final(names)@.len() == ids.len(),
{
    let n: usize = table.len();
    let mut k: usize = 0;
    while k < n
        invariant
            n == table@.len(),
            k <= n,
            index.covers(ids),
            names@.len() == ids.len(),
            table_names(ids, opt_texts(names@), rows_view(table@), k as int) == table_names(
                ids,
                opt_texts(old(names)@),
                rows_view(table@),
                0,
            ),
        decreases n - k,
    {
        let row: &Row = &table[k];
        assert(rows_view(table@)[k as int] == row@);
        let m: usize = row.segs.len();
        if let Some(i) = index.find(row.id, Ghost(ids)) {
            if names[i].is_none() && m > 0 {
                let ghost before = opt_texts(names@);
                let last: Option<String> = Some(row.segs[m - 1].clone());
                names.set(i, last);
                assert(opt_texts(names@) =~= before.update(i as int, opt_text(last)));
            }
        }
        k += 1;
    }
}

fn name_from_graph(
    g: &Builder,
    index: &IdIndex,
    Ghost(ids): Ghost<Seq<u128>>,
    names: &Vec<Option<String>>,
    e: usize,
) -> (r: Option<String>)
    requires
        g@.wf(),
        e < g@.n(),
        index.covers(ids),
        names@.len() == ids.len(),
    ensures
        opt_text(r) == graph_name(g@, ids, opt_texts(names@), e),
{
    proof {
        reveal(graph_name);
    }
    match g.naming_link(e) {
        Some(Link::Name(s)) => Some(last_segment_of(s.as_str())),
        Some(Link::Id(id)) => match index.find(id, Ghost(ids)) {
            Some(t) => copy_name(&names[t]),
            None => None,
        },
        None => None,
    }
}

fn pass(
    g: &Builder,
    index: &IdIndex,
    Ghost(ids): Ghost<Seq<u128>>,
    names: &mut Vec<Option<String>>,
    boundary: usize,
) -> (changed: bool)
    requires
        g@.wf(),
        index.covers(ids),
        ids.len() == g@.n(),
        old(names)@.len() == ids.len(),
        boundary <= g@.n(),
    ensures
        opt_texts(final(names)@) == name_pass(g@, ids, opt_texts(old(names)@), boundary as int),
        final(names)@.len() == ids.len(),
        changed == (none_count(opt_texts(final(names)@)) < none_count(opt_texts(old(names)@))),
{
    let n: usize = g.element_count();
    let mut e: usize = boundary;
    let mut changed: bool = false;
    let ghost start = opt_texts(names@);
    while e < n
        invariant
            g@.wf(),
            index.covers(ids),
            ids.len() == g@.n(),
            n == g@.n(),
            boundary <= e <= n,
            names@.len() == ids.len(),
            none_count(opt_texts(names@)) <= none_count(start),
            changed == (none_count(opt_texts(names@)) < none_count(start)),
            name_pass(g@, ids, opt_texts(names@), e as int) == name_pass(
                g@,
                ids,
                start,
                boundary as int,
            ),
        decreases n - e,
    {
        assert(opt_texts(names@)[e as int] == opt_text(names@[e as int]));
        if names[e].is_none() && !g.membership(e) {
            let ghost before = opt_texts(names@);
            let name = name_from_graph(g, index, Ghost(ids), names, e);
            proof {
                lemma_none_count_update(before, e as int, opt_text(name));
                assert(opt_text(name) is None ==> before.update(e as int, opt_text(name)) =~= before);
            }
            if name.is_some() {
                names.set(e, name);
                changed = true;
            }
            assert(opt_texts(names@) =~= before.update(e as int, opt_text(name)));
        }
        e += 1;
    }
    changed
}

fn rounds(
    g: &Builder,
    index: &IdIndex,
    Ghost(ids): Ghost<Seq<u128>>,
    names: &mut Vec<Option<String>>,
    boundary: usize,
)
    requires
        g@.wf(),
        index.covers(ids),
        ids.len() == g@.n(),
        old(names)@.len() == ids.len(),
        boundary <= g@.n(),
    ensures
        opt_texts(final(names)@) == name_rounds(g@, ids, opt_texts(old(names)@), boundary as int),
        final(names)@.len() == ids.len(),
    decreases none_count(opt_texts(old(names)@)),
{
    if pass(g, index, Ghost(ids), names, boundary) {
        rounds(g, index, Ghost(ids), names, boundary);
    }
}

/// The name of every element that its id can chain from: declared, known
/// from the library tables, or effective.
pub fn names_for_ids(g: &Builder, w: &IdWork, boundary: usize) -> (r: Vec<Option<String>>)
    requires
        g@.wf(),
        w@.ids.len() == g@.n(),
        boundary <= g@.n(),
    ensures
        opt_texts(r@) == element_names(g@, w@, boundary as int),
        r@.len() == g@.n(),
{
    proof {
        reveal(IdWork::view);
    }
    let index = IdIndex::new(&w.ids);
    let ghost ids = w@.ids;
    let mut names: Vec<Option<String>> = declared(g);
    assert(opt_texts(names@).len() == g@.n());
    add_table(&index, Ghost(ids), &mut names, &w.qnames);
    add_table(&index, Ghost(ids), &mut names, &w.mem_qnames);
    rounds(g, &index, Ghost(ids), &mut names, boundary);
    names
}

} // verus!
