//! Assigning the identifiers of the user's elements.
use crate::assign_ids::{same_size, segment_of, IdWork};
use crate::graph_get::opt_text;
use crate::id_names::{names_for_ids, opt_texts};
use crate::ids::id_of_name;
use crate::libcache::texts;
use crate::naming_ids::{
    alias_segment, below_owner, below_pushed, below_roots, is_membership, kid_ids, member_segment,
    named_member, named_segment, owner_walk, placed_relationship, user_ids, IdsV, WalkV,
};
use crate::state::{all_below, Builder};
use crate::text::{numbered_seg, str_eq};
use vstd::prelude::*;

verus! {

/// Naming one owner's relationships: the segments in use, and the elements
/// whose own parts come next.
struct Walk {
    used: Vec<String>,
    pushed: Vec<usize>,
}

spec fn walk_view(w: IdsV, k: Walk) -> WalkV {
    WalkV { s: w, used: texts(k.used@), pushed: k.pushed@ }
}

/// The elements to visit come after their owner.
spec fn after_owner(s: Seq<usize>, owner: usize, n: nat) -> bool {
    forall|i: int| 0 <= i < s.len() ==> owner < #[trigger] s[i] < n
}

fn in_use(used: &Vec<String>, seg: &str) -> (r: bool)
    ensures
        r == texts(used@).contains(seg@),
{
    let n: usize = used.len();
    let mut i: usize = 0;
    while i < n
        invariant
            n == used@.len(),
            i <= n,
            forall|j: int| 0 <= j < i ==> #[trigger] texts(used@)[j] != seg@,
        decreases n - i,
    {
        if str_eq(used[i].as_str(), seg) {
            assert(texts(used@)[i as int] == seg@);
            return true;
        }
        i += 1;
    }
    false
}

fn push_segment(used: &mut Vec<String>, seg: &str)
    ensures
        texts(final(used)@) == texts(old(used)@).push(seg@),
{
    used.push(seg.to_owned());
    assert(texts(used@) =~= texts(old(used)@).push(seg@));
}

/// The segment of a name, where it is not in use.
fn free_segment(used: &Vec<String>, name: &str) -> (r: Option<String>)
    ensures
        opt_text(r) == (if texts(used@).contains(named_segment(name@)) {
            None
        } else {
            Some(named_segment(name@))
        }),
{
    let seg: String = segment_of(name);
    if in_use(used, seg.as_str()) {
        None
    } else {
        Some(seg)
    }
}

fn member_segment_of(
    g: &Builder,
    names: &Vec<Option<String>>,
    used: &Vec<String>,
    rel: usize,
) -> (r: Option<String>)
    requires
        g@.wf(),
        rel < g@.n(),
        names@.len() == g@.n(),
    ensures
        opt_text(r) == member_segment(g@, opt_texts(names@), texts(used@), rel),
        r is Some ==> g@.elements[rel as int].children.len() == 1,
{
    proof {
        reveal(member_segment);
    }
    if g.membership(rel) && g.child_len(rel) == 1 {
        let kid: usize = g.child_at(rel, 0);
        match &names[kid] {
            Some(name) => free_segment(used, name.as_str()),
            None => None,
        }
    } else {
        None
    }
}

fn alias_segment_of(g: &Builder, used: &Vec<String>, rel: usize) -> (r: Option<String>)
    requires
        g@.wf(),
        rel < g@.n(),
    ensures
        opt_text(r) == alias_segment(g@, texts(used@), rel),
{
    proof {
        reveal(alias_segment);
    }
    if g.child_len(rel) == 0 && g.has_type(rel, "Membership") {
        match g.alias_name(rel) {
            Some(name) => free_segment(used, name.as_str()),
            None => None,
        }
    } else {
        None
    }
}

impl IdWork {
    fn kid_ids(
        &mut self,
        g: &Builder,
        names: &Vec<Option<String>>,
        k: &mut Walk,
        owner: usize,
        rel: usize,
        rel_id: u128,
    )
        requires
            g@.wf(),
            owner < rel < g@.n(),
            names@.len() == g@.n(),
            old(self)@.ids.len() == g@.n(),
            after_owner(old(k).pushed@, owner, g@.n()),
        ensures
            walk_view(final(self)@, *final(k)) == kid_ids(
                g@,
                opt_texts(names@),
                walk_view(old(self)@, *old(k)),
                rel,
                rel_id,
                Seq::empty(),
                0,
            ),
            same_size(old(self)@, final(self)@),
            after_owner(final(k).pushed@, owner, g@.n()),
    {
        let n: usize = g.child_len(rel);
        let member: bool = g.membership(rel);
        let mut used: Vec<String> = Vec::new();
        let mut j: usize = 0;
        assert(texts(used@) =~= Seq::<Seq<char>>::empty());
        while j < n
            invariant
                g@.wf(),
                owner < rel < g@.n(),
                names@.len() == g@.n(),
                self@.ids.len() == g@.n(),
                member == is_membership(g@.elements[rel as int].ty),
                n == g@.elements[rel as int].children.len(),
                j <= n,
                after_owner(k.pushed@, owner, g@.n()),
                kid_ids(
                    g@,
                    opt_texts(names@),
                    walk_view(self@, *k),
                    rel,
                    rel_id,
                    texts(used@),
                    j as int,
                ) == kid_ids(
                    g@,
                    opt_texts(names@),
                    walk_view(old(self)@, *old(k)),
                    rel,
                    rel_id,
                    Seq::empty(),
                    0,
                ),
            decreases n - j,
        {
            let ghost before = walk_view(self@, *k);
            let kid: usize = g.child_at(rel, j);
            assert(opt_texts(names@)[kid as int] == opt_text(names@[kid as int]));
            let named: Option<String> = match &names[kid] {
                Some(name) => if member {
                    free_segment(&used, name.as_str())
                } else {
                    None
                },
                None => None,
            };
            let seg: String = match &named {
                Some(x) => x.clone(),
                None => numbered_seg("e", j),
            };
            if named.is_some() {
                push_segment(&mut used, seg.as_str());
            }
            let id: u128 = id_of_name(rel_id, seg.as_str());
            self.reassign(kid, id);
            k.pushed.push(kid);
            j += 1;
        }
    }

    fn named_member(
        &mut self,
        g: &Builder,
        k: &mut Walk,
        owner: usize,
        owner_id: u128,
        rel: usize,
        seg: &str,
    )
        requires
            g@.wf(),
            owner < rel < g@.n(),
            old(self)@.ids.len() == g@.n(),
            g@.elements[rel as int].children.len() == 1,
            after_owner(old(k).pushed@, owner, g@.n()),
        ensures
            walk_view(final(self)@, *final(k)) == named_member(
                g@,
                walk_view(old(self)@, *old(k)),
                owner_id,
                rel,
                seg@,
            ),
            same_size(old(self)@, final(self)@),
            after_owner(final(k).pushed@, owner, g@.n()),
    {
        proof {
            reveal(named_member);
        }
        let kid: usize = g.child_at(rel, 0);
        let kid_id: u128 = id_of_name(owner_id, seg);
        self.reassign(kid, kid_id);
        let rel_id: u128 = id_of_name(kid_id, "m");
        self.reassign(rel, rel_id);
        push_segment(&mut k.used, seg);
        k.pushed.push(kid);
        k.pushed.push(rel);
    }

    fn placed_relationship(
        &mut self,
        g: &Builder,
        names: &Vec<Option<String>>,
        k: &mut Walk,
        owner: usize,
        owner_id: u128,
        rel: usize,
        i: usize,
    )
        requires
            g@.wf(),
            owner < rel < g@.n(),
            names@.len() == g@.n(),
            old(self)@.ids.len() == g@.n(),
            after_owner(old(k).pushed@, owner, g@.n()),
        ensures
            walk_view(final(self)@, *final(k)) == placed_relationship(
                g@,
                opt_texts(names@),
                walk_view(old(self)@, *old(k)),
                owner_id,
                rel,
                i,
            ),
            same_size(old(self)@, final(self)@),
            after_owner(final(k).pushed@, owner, g@.n()),
    {
        proof {
            reveal(placed_relationship);
        }
        let named: Option<String> = alias_segment_of(g, &k.used, rel);
        let seg: String = match &named {
            Some(x) => x.clone(),
            None => numbered_seg("r", i),
        };
        if named.is_some() {
            push_segment(&mut k.used, seg.as_str());
        }
        let rel_id: u128 = id_of_name(owner_id, seg.as_str());
        self.reassign(rel, rel_id);
        k.pushed.push(rel);
        self.kid_ids(g, names, k, owner, rel, rel_id);
    }

    fn owner_walk(
        &mut self,
        g: &Builder,
        names: &Vec<Option<String>>,
        owner: usize,
    ) -> (pushed: Vec<usize>)
        requires
            g@.wf(),
            owner < g@.n(),
            names@.len() == g@.n(),
            old(self)@.ids.len() == g@.n(),
        ensures
            ({
                let w = owner_walk(
                    g@,
                    opt_texts(names@),
                    WalkV { s: old(self)@, used: Seq::empty(), pushed: Seq::empty() },
                    owner,
                    old(self)@.ids[owner as int],
                    0,
                );
                final(self)@ == w.s && pushed@ == w.pushed
            }),
            same_size(old(self)@, final(self)@),
            after_owner(pushed@, owner, g@.n()),
    {
        let mut k = Walk { used: Vec::new(), pushed: Vec::new() };
        let owner_id: u128 = self.id_at(owner);
        let n: usize = g.owned_len(owner);
        let mut i: usize = 0;
        assert(walk_view(self@, k) =~= (WalkV {
            s: old(self)@,
            used: Seq::empty(),
            pushed: Seq::empty(),
        }));
        while i < n
            invariant
                g@.wf(),
                owner < g@.n(),
                names@.len() == g@.n(),
                self@.ids.len() == g@.n(),
                n == g@.elements[owner as int].owned.len(),
                i <= n,
                after_owner(k.pushed@, owner, g@.n()),
                owner_walk(
                    g@,
                    opt_texts(names@),
                    walk_view(self@, k),
                    owner,
                    owner_id,
                    i as int,
                ) == owner_walk(
                    g@,
                    opt_texts(names@),
                    WalkV { s: old(self)@, used: Seq::empty(), pushed: Seq::empty() },
                    owner,
                    owner_id,
                    0,
                ),
            decreases n - i,
        {
            let rel: usize = g.owned_at(owner, i);
            match member_segment_of(g, names, &k.used, rel) {
                Some(seg) => self.named_member(g, &mut k, owner, owner_id, rel, seg.as_str()),
                None => self.placed_relationship(g, names, &mut k, owner, owner_id, rel, i),
            }
            i += 1;
        }
        k.pushed
    }

    fn below_owner(&mut self, g: &Builder, names: &Vec<Option<String>>, owner: usize)
        requires
            g@.wf(),
            owner < g@.n(),
            names@.len() == g@.n(),
            old(self)@.ids.len() == g@.n(),
        ensures
            final(self)@ == below_owner(g@, opt_texts(names@), old(self)@, owner),
            same_size(old(self)@, final(self)@),
        decreases g@.n() - owner,
    {
        let pushed: Vec<usize> = self.owner_walk(g, names, owner);
        let ghost start = self@;
        let mut k: usize = pushed.len();
        while k > 0
            invariant
                g@.wf(),
                owner < g@.n(),
                names@.len() == g@.n(),
                self@.ids.len() == g@.n(),
                k <= pushed@.len(),
                after_owner(pushed@, owner, g@.n()),
                below_pushed(g@, opt_texts(names@), self@, owner, pushed@, k as int)
                    == below_pushed(
                    g@,
                    opt_texts(names@),
                    start,
                    owner,
                    pushed@,
                    pushed@.len() as int,
                ),
            decreases k,
        {
            k -= 1;
            let x: usize = pushed[k];
            self.below_owner(g, names, x);
        }
    }

    /// The ids of the user's elements: each derives from its owner's id and
    /// the element's name, or its position where it has no free name.
    pub fn assign_user_ids(&mut self, g: &Builder, boundary: usize, roots: &Vec<usize>)
        requires
            g@.wf(),
            old(self)@.ids.len() == g@.n(),
            all_below(roots@, g@.n()),
        ensures
            final(self)@ == user_ids(g@, old(self)@, boundary as int, roots@),
            same_size(old(self)@, final(self)@),
    {
        proof {
            reveal(user_ids);
        }
        if boundary >= g.element_count() || roots.len() == 0 {
            return;
        }
        let names: Vec<Option<String>> = names_for_ids(g, self, boundary);
        let mut k: usize = roots.len();
        while k > 0
            invariant
                g@.wf(),
                names@.len() == g@.n(),
                self@.ids.len() == g@.n(),
                k <= roots@.len(),
                all_below(roots@, g@.n()),
                below_roots(g@, opt_texts(names@), self@, roots@, k as int) == below_roots(
                    g@,
                    opt_texts(names@),
                    old(self)@,
                    roots@,
                    roots@.len() as int,
                ),
            decreases k,
        {
            k -= 1;
            self.below_owner(g, &names, roots[k]);
        }
    }
}

} // verus!
