//! Putting assigned identifiers into a graph.
use crate::assign_ids::IdWork;
use crate::assoc::assoc;
use crate::naming_ids::{own_ids, patched, patched_link, patched_props, with_id, with_ids, IdsV};
use crate::props::{links_view, pairs_view, Link, LinkV, Props, Value, ValueV};
use crate::state::{ElemV, Builder, BV};
use std::collections::HashMap;
use vstd::prelude::*;

verus! {

pub open spec fn patched_pairs(
    s: Seq<(Seq<char>, ValueV)>,
    remap: Map<u128, u128>,
) -> Seq<(Seq<char>, ValueV)> {
    s.map_values(|p: (Seq<char>, ValueV)| (p.0, patched(p.1, remap)))
}

proof fn lemma_patched_assoc(s: Seq<(Seq<char>, ValueV)>, remap: Map<u128, u128>)
    ensures
        assoc(patched_pairs(s, remap)) == patched_props(assoc(s), remap),
    decreases s.len(),
{
    let t = patched_pairs(s, remap);
    if s.len() == 0 {
        assert(assoc(t) =~= patched_props(assoc(s), remap));
    } else {
        lemma_patched_assoc(s.drop_last(), remap);
        assert(t.drop_last() =~= patched_pairs(s.drop_last(), remap));
        assert(assoc(t) =~= patched_props(assoc(s), remap));
    }
}

fn patch_link(l: &Link, remap: &HashMap<u128, u128>) -> (r: Link)
    ensures
        r@ == patched_link(l@, remap@),
{
    broadcast use vstd::std_specs::hash::group_hash_axioms;

    match l {
        Link::Id(id) => match remap.get(id) {
            Some(new) => Link::Id(*new),
            None => Link::Id(*id),
        },
        Link::Name(s) => Link::Name(s.clone()),
    }
}

fn patch_value(v: &Value, remap: &HashMap<u128, u128>) -> (r: Option<Value>)
    ensures
        patched(v@, remap@) == (match r {
            Some(x) => x@,
            None => v@,
        }),
{
    match v {
        Value::Ref(l) => Some(Value::Ref(patch_link(l, remap))),
        Value::List(ls) => {
            let mut out: Vec<Link> = Vec::new();
            let n: usize = ls.len();
            let mut i: usize = 0;
            let ghost want = links_view(ls@).map_values(|l: LinkV| patched_link(l, remap@));
            while i < n
                invariant
                    n == ls@.len(),
                    i <= n,
                    want == links_view(ls@).map_values(|l: LinkV| patched_link(l, remap@)),
                    links_view(out@) == want.take(i as int),
                decreases n - i,
            {
                let l: Link = patch_link(&ls[i], remap);
                let ghost before = links_view(out@);
                out.push(l);
                assert(want[i as int] == l@);
                assert(links_view(out@) =~= before.push(l@));
                assert(links_view(out@) =~= want.take(i + 1));
                i += 1;
            }
            assert(links_view(out@) =~= want);
            Some(Value::List(out))
        },
        _ => None,
    }
}

impl Props {
    /// Re-points every link to a replaced id.
    pub fn patch_ids(&mut self, remap: &HashMap<u128, u128>)
        ensures
            final(self)@ == patched_props(old(self)@, remap@),
    {
        let n: usize = self.pairs.len();
        let mut i: usize = 0;
        let ghost start = pairs_view(self.pairs@);
        let ghost want = patched_pairs(start, remap@);
        while i < n
            invariant
                n == self.pairs@.len(),
                i <= n,
                start.len() == n,
                want == patched_pairs(start, remap@),
                forall|j: int| 0 <= j < i ==> #[trigger] pairs_view(self.pairs@)[j] == want[j],
                forall|j: int| i <= j < n ==> #[trigger] pairs_view(self.pairs@)[j] == start[j],
            decreases n - i,
        {
            let key: &'static str = self.pairs[i].0;
            assert(pairs_view(self.pairs@)[i as int] == start[i as int]);
            let ghost before = pairs_view(self.pairs@);
            if let Some(v) = patch_value(&self.pairs[i].1, remap) {
                let ghost x = v@;
                self.pairs.set(i, (key, v));
                assert(pairs_view(self.pairs@) =~= before.update(i as int, (key@, x)));
            }
            assert(pairs_view(self.pairs@)[i as int] == want[i as int]);
            i += 1;
        }
        assert(pairs_view(self.pairs@) =~= want);
        proof {
            lemma_patched_assoc(start, remap@);
        }
    }
}

/// A graph of which the first `i` elements carry their assigned ids.
pub open spec fn partly(g: BV, s: IdsV, from: int, i: int) -> BV {
    BV {
        elements: Seq::new(
            g.n(),
            |j: int|
                if j < i {
                    with_id(g, s, from, j)
                } else {
                    g.elements[j]
                },
        ),
        ..g
    }
}

proof fn lemma_ids_keep_wf(g: BV, s: IdsV, from: int)
    requires
        g.wf(),
    ensures
        with_ids(g, s, from).wf(),
{
    reveal(BV::wf);
    let h = with_ids(g, s, from);
    assert forall|i: int| 0 <= i < h.n() implies #[trigger] h.elem_ok(i) by {
        assert(g.elem_ok(i));
        let e = h.elements[i];
        assert forall|k: int| 0 <= k < e.owned.len() implies i < #[trigger] e.owned[k] < h.n()
            && crate::state::is_at(h.elements[e.owned[k] as int].carrier, i) by {
            assert(g.elements[i].owned[k] == e.owned[k]);
        }
        assert forall|k: int| 0 <= k < e.children.len() implies i < #[trigger] e.children[k] < h.n()
            && crate::state::is_at(h.elements[e.children[k] as int].owning, i) by {
            assert(g.elements[i].children[k] == e.children[k]);
        }
    }
}

impl Builder {
    /// The ids of the elements.
    pub fn element_ids(&self) -> (r: Vec<u128>)
        ensures
            r@ == own_ids(self@),
    {
        let n: usize = self.element_count();
        let mut out: Vec<u128> = Vec::new();
        let mut i: usize = 0;
        while i < n
            invariant
                n == self@.n(),
                i <= n,
                out@ == own_ids(self@).take(i as int),
            decreases n - i,
        {
            out.push(self.id_of(i));
            assert(out@ =~= own_ids(self@).take(i + 1));
            i += 1;
        }
        assert(out@ =~= own_ids(self@));
        out
    }

    /// Puts assigned ids in, and re-points the links of the elements from
    /// `from` on.
    pub fn apply_ids(&mut self, w: &IdWork, from: usize)
        requires
            old(self)@.wf(),
            w@.ids.len() == old(self)@.n(),
        ensures
            final(self)@ == with_ids(old(self)@, w@, from as int),
            final(self)@.wf(),
    {
        proof {
            reveal(Builder::view);
            reveal(IdWork::view);
            lemma_ids_keep_wf(self@, w@, from as int);
        }
        let n: usize = self.elements.len();
        let mut i: usize = 0;
        assert(self@.elements =~= partly(self@, w@, from as int, 0).elements);
        while i < n
            invariant
                n == old(self)@.n(),
                n == self.elements@.len(),
                w@.ids.len() == n,
                i <= n,
                self@ == partly(old(self)@, w@, from as int, i as int),
            decreases n - i,
        {
            proof {
                reveal(Builder::view);
                reveal(IdWork::view);
            }
            let ghost before = self@;
            assert(before.elements[i as int] == old(self)@.elements[i as int]);
            let id: u128 = w.ids[i];
            self.elements[i].id = id;
            if i >= from {
                self.elements[i].props.patch_ids(&w.remap);
            }
            assert(self@.elements =~= before.elements.update(
                i as int,
                with_id(old(self)@, w@, from as int, i as int),
            ));
            assert(self@.elements =~= partly(old(self)@, w@, from as int, i + 1).elements);
            i += 1;
        }
        assert(self@.elements =~= with_ids(old(self)@, w@, from as int).elements);
    }
}

/// Assigning ids changes no element but for its id and where its links
/// point; before the first assigned element links stay, and so does a link to
/// an element that kept its id.
pub proof fn law_ids_keep_the_forest(g: BV, s: IdsV, from: int)
    ensures
        crate::link_search::same_forest(g, with_ids(g, IdsV { ids: own_ids(g), ..s }, from)),
        forall|i: int, key: Seq<char>|
            0 <= i < g.n() ==> #[trigger] with_ids(g, s, from).elements[i].props.contains_key(key)
                == g.elements[i].props.contains_key(key),
        forall|i: int|
            0 <= i < g.n() && i < from ==> (#[trigger] with_ids(g, s, from).elements[i]) == (ElemV {
                id: s.ids[i],
                ..g.elements[i]
            }),
        forall|l: LinkV|
            !(l is Id && s.remap.contains_key(l->Id_0)) ==> #[trigger] patched_link(l, s.remap) == l,
{
}

} // verus!
