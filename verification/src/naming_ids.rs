//! Which identifier every element gets: name-based ids for library elements,
//! and ids chained down the ownership tree for the others.
use crate::ast::Dialect;
use crate::ids::{name_id, NAMESPACE_URL};
use crate::props::{LinkV, ValueV};
use crate::refname::{escaped, last_segment};
use crate::rstate::none_count;
use crate::state::{ElemV, BV};
use crate::text::{ends_with, numbered};
use vstd::prelude::*;

verus! {

/// The ids being assigned, what they replace, and the library name tables.
#[verifier::ext_equal]
pub struct IdsV {
    pub ids: Seq<u128>,
    pub remap: Map<u128, u128>,
    pub qnames: Seq<(u128, Seq<Seq<char>>)>,
    pub mem_qnames: Seq<(u128, Seq<Seq<char>>)>,
}

impl IdsV {
    /// Gives an element an id; a changed id is remembered.
    #[verifier::opaque]
    pub open spec fn reassign(self, e: usize, id: u128) -> IdsV {
        if e >= self.ids.len() || self.ids[e as int] == id {
            self
        } else {
            IdsV {
                ids: self.ids.update(e as int, id),
                remap: self.remap.insert(self.ids[e as int], id),
                ..self
            }
        }
    }

    #[verifier::opaque]
    pub open spec fn name(self, id: u128, segs: Seq<Seq<char>>) -> IdsV {
        IdsV { qnames: self.qnames.push((id, segs)), ..self }
    }

    #[verifier::opaque]
    pub open spec fn name_membership(self, id: u128, segs: Seq<Seq<char>>) -> IdsV {
        IdsV { mem_qnames: self.mem_qnames.push((id, segs)), ..self }
    }
}

/// A string property.
pub open spec fn text_prop(e: ElemV, key: Seq<char>) -> Option<Seq<char>> {
    if e.props.contains_key(key) {
        e.props[key].as_str()
    } else {
        None
    }
}

/// The first of two names that is there.
pub open spec fn or_name(a: Option<Seq<char>>, b: Option<Seq<char>>) -> Option<Seq<char>> {
    match a {
        Some(_) => a,
        None => b,
    }
}

/// The declared name, or else the declared short name.
#[verifier::opaque]
pub open spec fn declared_name(e: ElemV) -> Option<Seq<char>> {
    or_name(text_prop(e, "declaredName"@), text_prop(e, "declaredShortName"@))
}

/// The name an element's library id derives from: declared, or else the
/// effective name it was written with.
#[verifier::opaque]
pub open spec fn id_name(e: ElemV) -> Option<Seq<char>> {
    or_name(declared_name(e), e.notes.hint)
}

/// The name of an alias membership.
#[verifier::opaque]
pub open spec fn alias_name(e: ElemV) -> Option<Seq<char>> {
    or_name(text_prop(e, "memberName"@), text_prop(e, "memberShortName"@))
}

pub open spec fn is_membership(ty: Seq<char>) -> bool {
    ends_with(ty, "Membership"@)
}

/// A name below a qualified name.
#[verifier::opaque]
pub open spec fn member_path(q: Seq<char>, name: Seq<char>) -> Seq<char> {
    q + ("::"@ + escaped(name))
}

#[verifier::opaque]
pub open spec fn membership_path(q: Seq<char>) -> Seq<char> {
    q + "/owningMembership"@
}

/// The id of a membership that owns nothing: that of the alias it names.
#[verifier::opaque]
pub open spec fn alias_id(
    g: BV,
    s: IdsV,
    rel: usize,
    q: Seq<char>,
    segs: Seq<Seq<char>>,
    top: u128,
) -> IdsV {
    if g.elements[rel as int].ty == "Membership"@ {
        match alias_name(g.elements[rel as int]) {
            Some(name) => {
                let id = name_id(top, member_path(q, name));
                s.reassign(rel, id).name_membership(id, segs.push(name))
            },
            None => s,
        }
    } else {
        s
    }
}

/// The ids of a named member and, where it is the only one, its membership.
#[verifier::opaque]
pub open spec fn member_ids(
    g: BV,
    s: IdsV,
    rel: usize,
    kid: usize,
    name: Seq<char>,
    q: Seq<char>,
    segs: Seq<Seq<char>>,
    top: u128,
) -> IdsV {
    let kq = member_path(q, name);
    let id = name_id(top, kq);
    let s = s.reassign(kid, id).name(id, segs.push(name));
    if g.elements[rel as int].children.len() == 1 {
        let mid = name_id(top, membership_path(kq));
        s.reassign(rel, mid).name_membership(mid, segs.push(name))
    } else {
        s
    }
}

/// The ids below an element, its relationships from `i` on.
pub open spec fn descend(
    g: BV,
    s: IdsV,
    e: usize,
    q: Seq<char>,
    segs: Seq<Seq<char>>,
    top: u128,
    i: int,
) -> IdsV
    decreases g.n() - e, g.elements[e as int].owned.len() - i, 1int, 0int,
    when 0 <= i
{
    if i >= g.elements[e as int].owned.len() {
        s
    } else {
        let rel = g.elements[e as int].owned[i];
        let s = if g.elements[rel as int].children.len() == 0 {
            alias_id(g, s, rel, q, segs, top)
        } else if is_membership(g.elements[rel as int].ty) {
            descend_kids(g, s, e, rel, q, segs, top, i, 0)
        } else {
            s
        };
        descend(g, s, e, q, segs, top, i + 1)
    }
}

/// The ids of the members of one relationship from `j` on.
pub open spec fn descend_kids(
    g: BV,
    s: IdsV,
    e: usize,
    rel: usize,
    q: Seq<char>,
    segs: Seq<Seq<char>>,
    top: u128,
    i: int,
    j: int,
) -> IdsV
    decreases
            g.n() - e,
            g.elements[e as int].owned.len() - i,
            0int,
            g.elements[rel as int].children.len() - j,
    when 0 <= i && 0 <= j
{
    if j >= g.elements[rel as int].children.len() {
        s
    } else {
        let kid = g.elements[rel as int].children[j];
        let s = match id_name(g.elements[kid as int]) {
            Some(name) => {
                let s = member_ids(g, s, rel, kid, name, q, segs, top);
                if e < kid < g.n() {
                    descend(g, s, kid, member_path(q, name), segs.push(name), top, 0)
                } else {
                    s
                }
            },
            None => s,
        };
        descend_kids(g, s, e, rel, q, segs, top, i, j + 1)
    }
}

/// The URL prefix of a library's ids.
pub open spec fn id_prefix(d: Dialect) -> Seq<char> {
    match d {
        Dialect::Kerml => "https://www.omg.org/spec/KerML/"@,
        Dialect::Sysml => "https://www.omg.org/spec/SysML/"@,
    }
}

/// A top-level library package found under a root.
pub struct TopV {
    pub rel: usize,
    pub id: u128,
    pub name: Seq<char>,
}

pub open spec fn top_id(d: Dialect, name: Seq<char>) -> u128 {
    name_id(NAMESPACE_URL, id_prefix(d) + escaped(name))
}

/// The packages of one relationship of a root from `j` on.
pub open spec fn top_packages(
    g: BV,
    s: IdsV,
    tops: Seq<TopV>,
    d: Dialect,
    rel: usize,
    j: int,
) -> (IdsV, Seq<TopV>)
    decreases g.elements[rel as int].children.len() - j,
    when 0 <= j
{
    if j >= g.elements[rel as int].children.len() {
        (s, tops)
    } else {
        let pkg = g.elements[rel as int].children[j];
        let (s, tops) = one_package(g, s, tops, d, rel, pkg);
        top_packages(g, s, tops, d, rel, j + 1)
    }
}

/// A top-level package: its id is that of its URL, those below it follow.
#[verifier::opaque]
pub open spec fn one_package(
    g: BV,
    s: IdsV,
    tops: Seq<TopV>,
    d: Dialect,
    rel: usize,
    pkg: usize,
) -> (IdsV, Seq<TopV>) {
    if g.elements[pkg as int].ty != "LibraryPackage"@ {
        (s, tops)
    } else {
        match declared_name(g.elements[pkg as int]) {
            Some(name) => {
                let id = top_id(d, name);
                let s = s.reassign(pkg, id).name(id, seq![name]);
                let s = descend(g, s, pkg, escaped(name), seq![name], id, 0);
                (s, tops.push(TopV { rel, id, name }))
            },
            None => (s, tops),
        }
    }
}

/// The packages of a root from relationship `i` on.
pub open spec fn root_packages(
    g: BV,
    s: IdsV,
    tops: Seq<TopV>,
    d: Dialect,
    root: usize,
    i: int,
) -> (IdsV, Seq<TopV>)
    decreases g.elements[root as int].owned.len() - i,
    when 0 <= i
{
    if i >= g.elements[root as int].owned.len() {
        (s, tops)
    } else {
        let (s, tops) = top_packages(g, s, tops, d, g.elements[root as int].owned[i], 0);
        root_packages(g, s, tops, d, root, i + 1)
    }
}

/// The root namespace and the package's membership, where the root holds
/// exactly one library package.
#[verifier::opaque]
pub open spec fn root_ids(g: BV, s: IdsV, tops: Seq<TopV>, root: usize) -> IdsV {
    if tops.len() != 1 {
        s
    } else {
        let t = tops[0];
        let s = s.reassign(root, name_id(t.id, ""@));
        let rel = g.elements[t.rel as int];
        if is_membership(rel.ty) && rel.children.len() == 1 {
            let mid = name_id(t.id, membership_path(escaped(t.name)));
            s.reassign(t.rel, mid).name_membership(mid, seq![t.name])
        } else {
            s
        }
    }
}

/// The library ids: every root from `k` on.
pub open spec fn library_ids(g: BV, s: IdsV, roots: Seq<(usize, Dialect)>, k: int) -> IdsV
    decreases roots.len() - k,
    when 0 <= k
{
    if k >= roots.len() {
        s
    } else {
        let (s, tops) = root_packages(g, s, Seq::empty(), roots[k].1, roots[k].0, 0);
        library_ids(g, root_ids(g, s, tops, roots[k].0), roots, k + 1)
    }
}

// ---- effective names ----

/// The property that names what a redefining or referencing feature is about.
pub open spec fn naming_key(ty: Seq<char>) -> Option<Seq<char>> {
    if ty == "Redefinition"@ {
        Some("redefinedFeature"@)
    } else if ty == "ReferenceSubsetting"@ {
        Some("referencedFeature"@)
    } else {
        None
    }
}

/// The first redefinition or reference subsetting of an element, from `i` on.
pub open spec fn naming_relationship(g: BV, e: usize, i: int) -> Option<usize>
    decreases g.elements[e as int].owned.len() - i,
    when 0 <= i
{
    if i >= g.elements[e as int].owned.len() {
        None
    } else if naming_key(g.elements[g.elements[e as int].owned[i] as int].ty) is Some {
        Some(g.elements[e as int].owned[i])
    } else {
        naming_relationship(g, e, i + 1)
    }
}

/// What the naming relationship of an element links to.
#[verifier::opaque]
pub open spec fn naming_link(g: BV, e: usize) -> Option<LinkV> {
    match naming_relationship(g, e, 0) {
        Some(r) => {
            let rel = g.elements[r as int];
            let key = naming_key(rel.ty)->0;
            if rel.props.contains_key(key) {
                match rel.props[key] {
                    ValueV::Ref(l) => Some(l),
                    _ => None,
                }
            } else {
                None
            }
        },
        None => None,
    }
}

/// The effective name of an unnamed element, read from the graph.
#[verifier::opaque]
pub open spec fn graph_name(
    g: BV,
    ids: Seq<u128>,
    names: Seq<Option<Seq<char>>>,
    e: usize,
) -> Option<Seq<char>> {
    match naming_link(g, e) {
        Some(LinkV::Name(s)) => Some(last_segment(s)),
        Some(LinkV::Id(id)) => match id_index(ids, id, ids.len() as int) {
            Some(t) => names[t as int],
            None => None,
        },
        None => None,
    }
}

/// The last of the first `k` elements with an id.
pub open spec fn id_index(ids: Seq<u128>, id: u128, k: int) -> Option<usize>
    decreases k,
{
    if k <= 0 {
        None
    } else if ids[k - 1] == id {
        Some((k - 1) as usize)
    } else {
        id_index(ids, id, k - 1)
    }
}

/// One pass over the elements from `e` on, naming those that can be named.
pub open spec fn name_pass(
    g: BV,
    ids: Seq<u128>,
    names: Seq<Option<Seq<char>>>,
    e: int,
) -> Seq<Option<Seq<char>>>
    decreases g.n() - e,
{
    if e < 0 || e >= g.n() {
        names
    } else {
        let names = if names[e] is Some || is_membership(g.elements[e].ty) {
            names
        } else {
            names.update(e, graph_name(g, ids, names, e as usize))
        };
        name_pass(g, ids, names, e + 1)
    }
}

/// Passes until no more names are found.
pub open spec fn name_rounds(
    g: BV,
    ids: Seq<u128>,
    names: Seq<Option<Seq<char>>>,
    boundary: int,
) -> Seq<Option<Seq<char>>>
    decreases none_count(names),
{
    let next = name_pass(g, ids, names, boundary);
    if none_count(next) < none_count(names) {
        name_rounds(g, ids, next, boundary)
    } else {
        next
    }
}

/// The names of a table for elements that have none, from row `k` on.
pub open spec fn table_names(
    ids: Seq<u128>,
    names: Seq<Option<Seq<char>>>,
    table: Seq<(u128, Seq<Seq<char>>)>,
    k: int,
) -> Seq<Option<Seq<char>>>
    decreases table.len() - k,
    when 0 <= k
{
    if k >= table.len() {
        names
    } else {
        let names = match id_index(ids, table[k].0, ids.len() as int) {
            Some(i) => if names[i as int] is None && table[k].1.len() > 0 {
                names.update(i as int, Some(table[k].1.last()))
            } else {
                names
            },
            None => names,
        };
        table_names(ids, names, table, k + 1)
    }
}

pub open spec fn declared_names(g: BV) -> Seq<Option<Seq<char>>> {
    Seq::new(g.n(), |i: int| declared_name(g.elements[i]))
}

/// The name of every element: declared, from the library tables, or
/// effective.
pub open spec fn element_names(g: BV, s: IdsV, boundary: int) -> Seq<Option<Seq<char>>> {
    let names = declared_names(g);
    let names = table_names(s.ids, names, s.qnames, 0);
    let names = table_names(s.ids, names, s.mem_qnames, 0);
    name_rounds(g, s.ids, names, boundary)
}

// ---- user ids ----

#[verifier::opaque]
pub open spec fn named_segment(name: Seq<char>) -> Seq<char> {
    "::"@ + escaped(name)
}

/// The state of naming one owner's relationships.
#[verifier::ext_equal]
pub struct WalkV {
    pub s: IdsV,
    pub used: Seq<Seq<char>>,
    pub pushed: Seq<usize>,
}

/// The members of one relationship from `j` on, named where they can be.
pub open spec fn kid_ids(
    g: BV,
    names: Seq<Option<Seq<char>>>,
    w: WalkV,
    rel: usize,
    rel_id: u128,
    used: Seq<Seq<char>>,
    j: int,
) -> WalkV
    decreases g.elements[rel as int].children.len() - j,
    when 0 <= j
{
    if j >= g.elements[rel as int].children.len() {
        w
    } else {
        let kid = g.elements[rel as int].children[j];
        let named = match names[kid as int] {
            Some(name) => if is_membership(g.elements[rel as int].ty) && !used.contains(
                named_segment(name),
            ) {
                Some(named_segment(name))
            } else {
                None
            },
            None => None,
        };
        let seg = match named {
            Some(x) => x,
            None => numbered("e"@, j as usize),
        };
        let used = match named {
            Some(x) => used.push(x),
            None => used,
        };
        let w = WalkV {
            s: w.s.reassign(kid, name_id(rel_id, seg)),
            pushed: w.pushed.push(kid),
            ..w
        };
        kid_ids(g, names, w, rel, rel_id, used, j + 1)
    }
}

/// The named segment that a relationship's only member takes, where it is
/// free.
#[verifier::opaque]
pub open spec fn member_segment(
    g: BV,
    names: Seq<Option<Seq<char>>>,
    used: Seq<Seq<char>>,
    rel: usize,
) -> Option<Seq<char>> {
    let r = g.elements[rel as int];
    if is_membership(r.ty) && r.children.len() == 1 {
        match names[r.children[0] as int] {
            Some(name) => if used.contains(named_segment(name)) {
                None
            } else {
                Some(named_segment(name))
            },
            None => None,
        }
    } else {
        None
    }
}

/// The named segment that an alias takes, where it is free.
#[verifier::opaque]
pub open spec fn alias_segment(g: BV, used: Seq<Seq<char>>, rel: usize) -> Option<Seq<char>> {
    let r = g.elements[rel as int];
    if r.children.len() == 0 && r.ty == "Membership"@ {
        match alias_name(r) {
            Some(name) => if used.contains(named_segment(name)) {
                None
            } else {
                Some(named_segment(name))
            },
            None => None,
        }
    } else {
        None
    }
}

/// A member named past its membership.
#[verifier::opaque]
pub open spec fn named_member(
    g: BV,
    w: WalkV,
    owner_id: u128,
    rel: usize,
    seg: Seq<char>,
) -> WalkV {
    let kid = g.elements[rel as int].children[0];
    let kid_id = name_id(owner_id, seg);
    WalkV {
        s: w.s.reassign(kid, kid_id).reassign(rel, name_id(kid_id, "m"@)),
        used: w.used.push(seg),
        pushed: w.pushed.push(kid).push(rel),
    }
}

/// A relationship named by an alias or by its position, with its members.
#[verifier::opaque]
pub open spec fn placed_relationship(
    g: BV,
    names: Seq<Option<Seq<char>>>,
    w: WalkV,
    owner_id: u128,
    rel: usize,
    i: usize,
) -> WalkV {
    let named = alias_segment(g, w.used, rel);
    let seg = match named {
        Some(x) => x,
        None => numbered("r"@, i),
    };
    let rel_id = name_id(owner_id, seg);
    let w = WalkV {
        s: w.s.reassign(rel, rel_id),
        used: match named {
            Some(x) => w.used.push(x),
            None => w.used,
        },
        pushed: w.pushed.push(rel),
    };
    kid_ids(g, names, w, rel, rel_id, Seq::empty(), 0)
}

/// The relationships of an owner from `i` on.
pub open spec fn owner_walk(
    g: BV,
    names: Seq<Option<Seq<char>>>,
    w: WalkV,
    owner: usize,
    owner_id: u128,
    i: int,
) -> WalkV
    decreases g.elements[owner as int].owned.len() - i,
    when 0 <= i
{
    if i >= g.elements[owner as int].owned.len() {
        w
    } else {
        let rel = g.elements[owner as int].owned[i];
        let w = match member_segment(g, names, w.used, rel) {
            Some(seg) => named_member(g, w, owner_id, rel, seg),
            None => placed_relationship(g, names, w, owner_id, rel, i as usize),
        };
        owner_walk(g, names, w, owner, owner_id, i + 1)
    }
}

/// The ids below an owner, which carries its own id already.
pub open spec fn below_owner(g: BV, names: Seq<Option<Seq<char>>>, s: IdsV, owner: usize) -> IdsV
    decreases g.n() - owner, 1int, 0int,
{
    let w = owner_walk(
        g,
        names,
        WalkV { s, used: Seq::empty(), pushed: Seq::empty() },
        owner,
        s.ids[owner as int],
        0,
    );
    below_pushed(g, names, w.s, owner, w.pushed, w.pushed.len() as int)
}

/// The ids below the first `k` elements of a list, the last one first.
pub open spec fn below_pushed(
    g: BV,
    names: Seq<Option<Seq<char>>>,
    s: IdsV,
    owner: usize,
    pushed: Seq<usize>,
    k: int,
) -> IdsV
    decreases g.n() - owner, 0int, k,
{
    if k <= 0 {
        s
    } else {
        let x = pushed[k - 1];
        let s = if owner < x < g.n() {
            below_owner(g, names, s, x)
        } else {
            s
        };
        below_pushed(g, names, s, owner, pushed, k - 1)
    }
}

/// The ids below the first `k` roots, the last one first.
pub open spec fn below_roots(
    g: BV,
    names: Seq<Option<Seq<char>>>,
    s: IdsV,
    roots: Seq<usize>,
    k: int,
) -> IdsV
    decreases k,
{
    if k <= 0 {
        s
    } else {
        below_roots(g, names, below_owner(g, names, s, roots[k - 1]), roots, k - 1)
    }
}

/// The ids of the user's elements: each below its owner.
#[verifier::opaque]
pub open spec fn user_ids(g: BV, s: IdsV, boundary: int, roots: Seq<usize>) -> IdsV {
    if boundary >= g.n() || roots.len() == 0 {
        s
    } else {
        below_roots(g, element_names(g, s, boundary), s, roots, roots.len() as int)
    }
}

// ---- applying ----

pub open spec fn patched_link(l: LinkV, remap: Map<u128, u128>) -> LinkV {
    match l {
        LinkV::Id(id) => if remap.contains_key(id) {
            LinkV::Id(remap[id])
        } else {
            l
        },
        LinkV::Name(_) => l,
    }
}

/// A value with its links re-pointed.
pub open spec fn patched(v: ValueV, remap: Map<u128, u128>) -> ValueV {
    match v {
        ValueV::Ref(l) => ValueV::Ref(patched_link(l, remap)),
        ValueV::List(ls) => ValueV::List(ls.map_values(|l: LinkV| patched_link(l, remap))),
        _ => v,
    }
}

pub open spec fn patched_props(
    m: Map<Seq<char>, ValueV>,
    remap: Map<u128, u128>,
) -> Map<Seq<char>, ValueV> {
    m.map_values(|v: ValueV| patched(v, remap))
}

/// An element under its id, its links re-pointed from element `from` on.
pub open spec fn with_id(g: BV, s: IdsV, from: int, i: int) -> ElemV {
    ElemV {
        id: s.ids[i],
        props: if i >= from {
            patched_props(g.elements[i].props, s.remap)
        } else {
            g.elements[i].props
        },
        ..g.elements[i]
    }
}

/// The graph under its ids.
pub open spec fn with_ids(g: BV, s: IdsV, from: int) -> BV {
    BV { elements: Seq::new(g.n(), |i: int| with_id(g, s, from, i)), ..g }
}

/// The ids before anything is assigned.
pub open spec fn own_ids(g: BV) -> Seq<u128> {
    Seq::new(g.n(), |i: int| g.elements[i].id)
}

proof fn lemma_member_ids_len(
    g: BV,
    s: IdsV,
    rel: usize,
    kid: usize,
    name: Seq<char>,
    q: Seq<char>,
    segs: Seq<Seq<char>>,
    top: u128,
)
    ensures
        member_ids(g, s, rel, kid, name, q, segs, top).ids.len() == s.ids.len(),
{
    reveal(member_ids);
    reveal(IdsV::reassign);
    reveal(IdsV::name);
    reveal(IdsV::name_membership);
}

proof fn lemma_alias_id_len(
    g: BV,
    s: IdsV,
    rel: usize,
    q: Seq<char>,
    segs: Seq<Seq<char>>,
    top: u128,
)
    ensures
        alias_id(g, s, rel, q, segs, top).ids.len() == s.ids.len(),
{
    reveal(alias_id);
    reveal(IdsV::reassign);
    reveal(IdsV::name_membership);
}

proof fn lemma_descend_len(
    g: BV,
    s: IdsV,
    e: usize,
    q: Seq<char>,
    segs: Seq<Seq<char>>,
    top: u128,
    i: int,
)
    requires
        0 <= i,
    ensures
        descend(g, s, e, q, segs, top, i).ids.len() == s.ids.len(),
    decreases g.n() - e, g.elements[e as int].owned.len() - i, 1int, 0int,
{
    if i < g.elements[e as int].owned.len() {
        let rel = g.elements[e as int].owned[i];
        lemma_alias_id_len(g, s, rel, q, segs, top);
        let t = if g.elements[rel as int].children.len() == 0 {
            alias_id(g, s, rel, q, segs, top)
        } else if is_membership(g.elements[rel as int].ty) {
            descend_kids(g, s, e, rel, q, segs, top, i, 0)
        } else {
            s
        };
        lemma_descend_kids_len(g, s, e, rel, q, segs, top, i, 0);
        lemma_descend_len(g, t, e, q, segs, top, i + 1);
    }
}

proof fn lemma_descend_kids_len(
    g: BV,
    s: IdsV,
    e: usize,
    rel: usize,
    q: Seq<char>,
    segs: Seq<Seq<char>>,
    top: u128,
    i: int,
    j: int,
)
    requires
        0 <= i,
        0 <= j,
    ensures
        descend_kids(g, s, e, rel, q, segs, top, i, j).ids.len() == s.ids.len(),
    decreases
            g.n() - e,
            g.elements[e as int].owned.len() - i,
            0int,
            g.elements[rel as int].children.len() - j,
{
    if j < g.elements[rel as int].children.len() {
        let kid = g.elements[rel as int].children[j];
        let t = match id_name(g.elements[kid as int]) {
            Some(name) => {
                lemma_member_ids_len(g, s, rel, kid, name, q, segs, top);
                let m = member_ids(g, s, rel, kid, name, q, segs, top);
                if e < kid < g.n() {
                    lemma_descend_len(g, m, kid, member_path(q, name), segs.push(name), top, 0);
                    descend(g, m, kid, member_path(q, name), segs.push(name), top, 0)
                } else {
                    m
                }
            },
            None => s,
        };
        lemma_descend_kids_len(g, t, e, rel, q, segs, top, i, j + 1);
    }
}

proof fn lemma_root_packages_len(
    g: BV,
    s: IdsV,
    tops: Seq<TopV>,
    d: Dialect,
    root: usize,
    i: int,
)
    requires
        0 <= i,
    ensures
        root_packages(g, s, tops, d, root, i).0.ids.len() == s.ids.len(),
    decreases g.elements[root as int].owned.len() - i,
{
    if i < g.elements[root as int].owned.len() {
        let rel = g.elements[root as int].owned[i];
        lemma_top_packages_len(g, s, tops, d, rel, 0);
        let (t, found) = top_packages(g, s, tops, d, rel, 0);
        lemma_root_packages_len(g, t, found, d, root, i + 1);
    }
}

proof fn lemma_top_packages_len(
    g: BV,
    s: IdsV,
    tops: Seq<TopV>,
    d: Dialect,
    rel: usize,
    j: int,
)
    requires
        0 <= j,
    ensures
        top_packages(g, s, tops, d, rel, j).0.ids.len() == s.ids.len(),
    decreases g.elements[rel as int].children.len() - j,
{
    if j < g.elements[rel as int].children.len() {
        reveal(one_package);
        reveal(IdsV::reassign);
        reveal(IdsV::name);
        let pkg = g.elements[rel as int].children[j];
        if let Some(name) = declared_name(g.elements[pkg as int]) {
            let id = top_id(d, name);
            let t = s.reassign(pkg, id).name(id, seq![name]);
            lemma_descend_len(g, t, pkg, escaped(name), seq![name], id, 0);
        }
        let (t, found) = one_package(g, s, tops, d, rel, pkg);
        lemma_top_packages_len(g, t, found, d, rel, j + 1);
    }
}

/// Assigning library ids gives every element an id, and no other.
pub proof fn law_every_library_element_has_an_id(
    g: BV,
    s: IdsV,
    roots: Seq<(usize, Dialect)>,
    k: int,
)
    requires
        0 <= k,
    ensures
        library_ids(g, s, roots, k).ids.len() == s.ids.len(),
    decreases roots.len() - k,
{
    if k < roots.len() {
        reveal(root_ids);
        reveal(IdsV::reassign);
        reveal(IdsV::name_membership);
        lemma_root_packages_len(g, s, Seq::empty(), roots[k].1, roots[k].0, 0);
        let (t, tops) = root_packages(g, s, Seq::empty(), roots[k].1, roots[k].0, 0);
        law_every_library_element_has_an_id(
            g,
            root_ids(g, t, tops, roots[k].0),
            roots,
            k + 1,
        );
    }
}

} // verus!
