//! Assigning element identifiers.
use crate::ast::Dialect;
use crate::ids::{id_of_name, NAMESPACE_URL};
use crate::libcache::{rows_view, texts, Row};
use crate::naming_ids::{
    alias_id, descend, descend_kids, id_name, id_prefix, library_ids, member_ids, member_path,
    membership_path, named_segment, one_package, root_ids, root_packages, top_packages, IdsV, TopV,
};
use crate::refname::{escape_name, push_escaped, push_text};
use crate::state::Builder;
use crate::text::concat;
use std::collections::HashMap;
use vstd::prelude::*;

verus! {

/// The ids being assigned, what they replace, and the library name tables.
pub struct IdWork {
    pub ids: Vec<u128>,
    pub remap: HashMap<u128, u128>,
    pub qnames: Vec<Row>,
    pub mem_qnames: Vec<Row>,
}

pub open spec fn same_size(a: IdsV, b: IdsV) -> bool {
    a.ids.len() == b.ids.len()
}

pub fn with_name(segs: &Vec<String>, name: &str) -> (r: Vec<String>)
    ensures
        texts(r@) == texts(segs@).push(name@),
{
    let mut out: Vec<String> = Vec::new();
    let n: usize = segs.len();
    let mut i: usize = 0;
    while i < n
        invariant
            n == segs@.len(),
            i <= n,
            out@.len() == i,
            forall|j: int| 0 <= j < i ==> #[trigger] out@[j]@ == segs@[j]@,
        decreases n - i,
    {
        out.push(segs[i].clone());
        i += 1;
    }
    out.push(name.to_owned());
    assert(texts(out@) =~= texts(segs@).push(name@));
    out
}

fn one_name(name: &str) -> (r: Vec<String>)
    ensures
        texts(r@) == seq![name@],
{
    let mut out: Vec<String> = Vec::new();
    out.push(name.to_owned());
    assert(texts(out@) =~= seq![name@]);
    out
}

fn path_of_member(q: &str, name: &str) -> (r: String)
    ensures
        r@ == member_path(q@, name@),
{
    proof {
        reveal(member_path);
    }
    let mut s: String = q.to_owned();
    push_text(&mut s, "::");
    push_escaped(&mut s, name);
    assert(s@ =~= member_path(q@, name@));
    s
}

fn path_of_membership(q: &str) -> (r: String)
    ensures
        r@ == membership_path(q@),
{
    proof {
        reveal(membership_path);
        reveal(crate::text::joined);
    }
    concat(q, "/owningMembership")
}

pub fn segment_of(name: &str) -> (r: String)
    ensures
        r@ == named_segment(name@),
{
    proof {
        reveal(named_segment);
    }
    let mut s: String = "::".to_owned();
    push_escaped(&mut s, name);
    s
}

fn prefix_of(d: Dialect) -> (r: &'static str)
    ensures
        r@ == id_prefix(d),
{
    match d {
        Dialect::Kerml => "https://www.omg.org/spec/KerML/",
        Dialect::Sysml => "https://www.omg.org/spec/SysML/",
    }
}

impl IdWork {
    #[verifier::opaque]
    pub open spec fn view(&self) -> IdsV {
        IdsV {
            ids: self.ids@,
            remap: self.remap@,
            qnames: rows_view(self.qnames@),
            mem_qnames: rows_view(self.mem_qnames@),
        }
    }

    pub fn reassign(&mut self, e: usize, id: u128)
        requires
            e < old(self)@.ids.len(),
        ensures
            final(self)@ == old(self)@.reassign(e, id),
            same_size(old(self)@, final(self)@),
    {
        broadcast use vstd::std_specs::hash::group_hash_axioms;

        proof {
            reveal(IdWork::view);
            reveal(IdsV::reassign);
        }
        let was: u128 = self.ids[e];
        if was != id {
            self.remap.insert(was, id);
            self.ids.set(e, id);
        }
    }

    fn name(&mut self, id: u128, segs: Vec<String>)
        ensures
            final(self)@ == old(self)@.name(id, texts(segs@)),
            same_size(old(self)@, final(self)@),
    {
        proof {
            reveal(IdWork::view);
            reveal(IdsV::name);
        }
        let row = Row { id, segs };
        self.qnames.push(row);
        assert(rows_view(self.qnames@) =~= rows_view(old(self).qnames@).push((id, texts(segs@))));
    }

    fn name_membership(&mut self, id: u128, segs: Vec<String>)
        ensures
            final(self)@ == old(self)@.name_membership(id, texts(segs@)),
            same_size(old(self)@, final(self)@),
    {
        proof {
            reveal(IdWork::view);
            reveal(IdsV::name_membership);
        }
        let row = Row { id, segs };
        self.mem_qnames.push(row);
        assert(rows_view(self.mem_qnames@) =~= rows_view(old(self).mem_qnames@).push((id, texts(segs@))));
    }

    pub fn id_at(&self, e: usize) -> (r: u128)
        requires
            e < self@.ids.len(),
        ensures
            r == self@.ids[e as int],
    {
        proof {
            reveal(IdWork::view);
        }
        self.ids[e]
    }

    fn alias_id(&mut self, g: &Builder, rel: usize, q: &str, segs: &Vec<String>, top: u128)
        requires
            g@.wf(),
            rel < g@.n(),
            old(self)@.ids.len() == g@.n(),
        ensures
            final(self)@ == alias_id(g@, old(self)@, rel, q@, texts(segs@), top),
            same_size(old(self)@, final(self)@),
    {
        proof {
            reveal(alias_id);
        }
        if g.has_type(rel, "Membership") {
            if let Some(name) = g.alias_name(rel) {
                let path: String = path_of_member(q, name.as_str());
                let id: u128 = id_of_name(top, path.as_str());
                self.reassign(rel, id);
                self.name_membership(id, with_name(segs, name.as_str()));
            }
        }
    }

    fn member_ids(
        &mut self,
        g: &Builder,
        rel: usize,
        kid: usize,
        name: &str,
        q: &str,
        segs: &Vec<String>,
        top: u128,
    )
        requires
            g@.wf(),
            rel < g@.n(),
            kid < g@.n(),
            old(self)@.ids.len() == g@.n(),
        ensures
            final(self)@ == member_ids(g@, old(self)@, rel, kid, name@, q@, texts(segs@), top),
            same_size(old(self)@, final(self)@),
    {
        proof {
            reveal(member_ids);
        }
        let kq: String = path_of_member(q, name);
        let id: u128 = id_of_name(top, kq.as_str());
        self.reassign(kid, id);
        self.name(id, with_name(segs, name));
        if g.child_len(rel) == 1 {
            let mq: String = path_of_membership(kq.as_str());
            let mid: u128 = id_of_name(top, mq.as_str());
            self.reassign(rel, mid);
            self.name_membership(mid, with_name(segs, name));
        }
    }

    /// The ids below an element, from its qualified name.
    fn descend(&mut self, g: &Builder, e: usize, q: &str, segs: &Vec<String>, top: u128)
        requires
            g@.wf(),
            e < g@.n(),
            old(self)@.ids.len() == g@.n(),
        ensures
            final(self)@ == descend(g@, old(self)@, e, q@, texts(segs@), top, 0),
            same_size(old(self)@, final(self)@),
        decreases g@.n() - e, 1int,
    {
        let n: usize = g.owned_len(e);
        let mut i: usize = 0;
        while i < n
            invariant
                g@.wf(),
                e < g@.n(),
                n == g@.elements[e as int].owned.len(),
                i <= n,
                self@.ids.len() == g@.n(),
                descend(g@, self@, e, q@, texts(segs@), top, i as int) == descend(
                    g@,
                    old(self)@,
                    e,
                    q@,
                    texts(segs@),
                    top,
                    0,
                ),
            decreases n - i,
        {
            let rel: usize = g.owned_at(e, i);
            if g.child_len(rel) == 0 {
                self.alias_id(g, rel, q, segs, top);
            } else if g.membership(rel) {
                self.descend_kids(g, e, rel, q, segs, top, Ghost(i as int));
            }
            i += 1;
        }
    }

    fn descend_kids(
        &mut self,
        g: &Builder,
        e: usize,
        rel: usize,
        q: &str,
        segs: &Vec<String>,
        top: u128,
        Ghost(i): Ghost<int>,
    )
        requires
            g@.wf(),
            e < rel < g@.n(),
            old(self)@.ids.len() == g@.n(),
            i >= 0,
        ensures
            final(self)@ == descend_kids(g@, old(self)@, e, rel, q@, texts(segs@), top, i, 0),
            same_size(old(self)@, final(self)@),
        decreases g@.n() - e, 0int,
    {
        let n: usize = g.child_len(rel);
        let mut j: usize = 0;
        while j < n
            invariant
                g@.wf(),
                e < rel < g@.n(),
                i >= 0,
                n == g@.elements[rel as int].children.len(),
                j <= n,
                self@.ids.len() == g@.n(),
                descend_kids(g@, self@, e, rel, q@, texts(segs@), top, i, j as int) == descend_kids(
                    g@,
                    old(self)@,
                    e,
                    rel,
                    q@,
                    texts(segs@),
                    top,
                    i,
                    0,
                ),
            decreases n - j,
        {
            let kid: usize = g.child_at(rel, j);
            if let Some(name) = g.id_name(kid) {
                self.member_ids(g, rel, kid, name.as_str(), q, segs, top);
                let kq: String = path_of_member(q, name.as_str());
                let more: Vec<String> = with_name(segs, name.as_str());
                self.descend(g, kid, kq.as_str(), &more, top);
            }
            j += 1;
        }
    }

    fn one_package(&mut self, g: &Builder, d: Dialect, rel: usize, pkg: usize, tops: &mut Vec<Top>)
        requires
            g@.wf(),
            rel < g@.n(),
            pkg < g@.n(),
            old(self)@.ids.len() == g@.n(),
            tops_ok(old(tops)@, g@.n()),
        ensures
            (final(self)@, tops_view(final(tops)@)) == one_package(
                g@,
                old(self)@,
                tops_view(old(tops)@),
                d,
                rel,
                pkg,
            ),
            same_size(old(self)@, final(self)@),
            tops_ok(final(tops)@, g@.n()),
    {
        proof {
            reveal(one_package);
        }
        if !g.has_type(pkg, "LibraryPackage") {
            return;
        }
        if let Some(name) = g.effective_name(pkg) {
            let esc: String = escape_name(name.as_str());
            proof {
                reveal(crate::text::joined);
            }
            let url: String = concat(prefix_of(d), esc.as_str());
            let id: u128 = id_of_name(NAMESPACE_URL, url.as_str());
            self.reassign(pkg, id);
            let segs: Vec<String> = one_name(name.as_str());
            self.name(id, one_name(name.as_str()));
            self.descend(g, pkg, esc.as_str(), &segs, id);
            let ghost before = tops_view(tops@);
            let t = Top { rel, id, name };
            tops.push(t);
            assert(tops_view(tops@) =~= before.push(t@));
        }
    }

    fn top_packages(&mut self, g: &Builder, d: Dialect, rel: usize, tops: &mut Vec<Top>)
        requires
            g@.wf(),
            rel < g@.n(),
            old(self)@.ids.len() == g@.n(),
            tops_ok(old(tops)@, g@.n()),
        ensures
            (final(self)@, tops_view(final(tops)@)) == top_packages(
                g@,
                old(self)@,
                tops_view(old(tops)@),
                d,
                rel,
                0,
            ),
            same_size(old(self)@, final(self)@),
            tops_ok(final(tops)@, g@.n()),
    {
        let n: usize = g.child_len(rel);
        let mut j: usize = 0;
        while j < n
            invariant
                g@.wf(),
                rel < g@.n(),
                n == g@.elements[rel as int].children.len(),
                j <= n,
                self@.ids.len() == g@.n(),
                tops_ok(tops@, g@.n()),
                top_packages(g@, self@, tops_view(tops@), d, rel, j as int) == top_packages(
                    g@,
                    old(self)@,
                    tops_view(old(tops)@),
                    d,
                    rel,
                    0,
                ),
            decreases n - j,
        {
            let pkg: usize = g.child_at(rel, j);
            self.one_package(g, d, rel, pkg, tops);
            j += 1;
        }
    }

    fn root_packages(&mut self, g: &Builder, d: Dialect, root: usize) -> (tops: Vec<Top>)
        requires
            g@.wf(),
            root < g@.n(),
            old(self)@.ids.len() == g@.n(),
        ensures
            (final(self)@, tops_view(tops@)) == root_packages(g@, old(self)@, Seq::empty(), d, root, 0),
            same_size(old(self)@, final(self)@),
            tops_ok(tops@, g@.n()),
    {
        let mut tops: Vec<Top> = Vec::new();
        let n: usize = g.owned_len(root);
        let mut i: usize = 0;
        assert(tops_view(tops@) =~= Seq::<TopV>::empty());
        while i < n
            invariant
                g@.wf(),
                root < g@.n(),
                n == g@.elements[root as int].owned.len(),
                i <= n,
                self@.ids.len() == g@.n(),
                tops_ok(tops@, g@.n()),
                root_packages(g@, self@, tops_view(tops@), d, root, i as int) == root_packages(
                    g@,
                    old(self)@,
                    Seq::empty(),
                    d,
                    root,
                    0,
                ),
            decreases n - i,
        {
            let rel: usize = g.owned_at(root, i);
            self.top_packages(g, d, rel, &mut tops);
            i += 1;
        }
        tops
    }

    fn root_ids(&mut self, g: &Builder, tops: &Vec<Top>, root: usize)
        requires
            g@.wf(),
            root < g@.n(),
            old(self)@.ids.len() == g@.n(),
            tops_ok(tops@, g@.n()),
        ensures
            final(self)@ == root_ids(g@, old(self)@, tops_view(tops@), root),
            same_size(old(self)@, final(self)@),
    {
        proof {
            reveal(root_ids);
        }
        if tops.len() != 1 {
            return;
        }
        let t: &Top = &tops[0];
        assert(tops_view(tops@)[0] == t@);
        let id: u128 = id_of_name(t.id, "");
        self.reassign(root, id);
        if g.membership(t.rel) && g.child_len(t.rel) == 1 {
            let esc: String = escape_name(t.name.as_str());
            let path: String = path_of_membership(esc.as_str());
            let mid: u128 = id_of_name(t.id, path.as_str());
            self.reassign(t.rel, mid);
            self.name_membership(mid, one_name(t.name.as_str()));
        }
    }

    /// The name-based ids of the library: every named element below a
    /// top-level library package, its membership, and the root.
    pub fn assign_library_ids(&mut self, g: &Builder, roots: &Vec<(usize, Dialect)>)
        requires
            g@.wf(),
            old(self)@.ids.len() == g@.n(),
            forall|k: int| 0 <= k < roots@.len() ==> (#[trigger] roots@[k]).0 < g@.n(),
        ensures
            final(self)@ == library_ids(g@, old(self)@, roots@, 0),
            same_size(old(self)@, final(self)@),
    {
        let n: usize = roots.len();
        let mut k: usize = 0;
        while k < n
            invariant
                g@.wf(),
                n == roots@.len(),
                k <= n,
                forall|k: int| 0 <= k < roots@.len() ==> (#[trigger] roots@[k]).0 < g@.n(),
                self@.ids.len() == g@.n(),
                library_ids(g@, self@, roots@, k as int) == library_ids(g@, old(self)@, roots@, 0),
            decreases n - k,
        {
            let (root, d) = roots[k];
            let tops: Vec<Top> = self.root_packages(g, d, root);
            self.root_ids(g, &tops, root);
            k += 1;
        }
    }
}

/// A top-level library package found under a root.
struct Top {
    rel: usize,
    id: u128,
    name: String,
}

impl Top {
    spec fn view(&self) -> TopV {
        TopV { rel: self.rel, id: self.id, name: self.name@ }
    }
}

spec fn tops_view(s: Seq<Top>) -> Seq<TopV> {
    s.map_values(|t: Top| t@)
}

spec fn tops_ok(s: Seq<Top>, n: nat) -> bool {
    forall|i: int| 0 <= i < s.len() ==> (#[trigger] s[i]).rel < n
}

} // verus!
