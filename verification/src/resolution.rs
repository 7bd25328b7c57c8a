//! What name resolution finds: each operation as a function from a graph
//! and a resolution state to the next state and its answer.
//!
//! The budget `m` bounds how many scopes still have their imports or bases
//! to compute and how many filters are idle: it goes down whenever one of
//! them is started, so that every chase through imports, bases and filters
//! comes to an end.

use crate::ast::{QnV, Expr};
use crate::names::LookupAccess;
use crate::rpure::{
    room, answer_spec, no_hits_spec, no_scopes_spec, no_elems_spec, no_imports_spec, with_hit_spec,
    or_self_spec, with_other_spec, with_new_spec, Outcome, no_outcomes_spec, set_outcome_spec,
    same_outcomes_spec, outcome_elems_spec, open_imports_spec, other_imports_spec, no_names_spec,
    chain_rest_spec, seg_count_spec, seg_name_spec, semantic_qn_spec, expr_size, not_verdict_spec,
    decides_spec, combine_spec, filter_form_spec, if_true_spec, semantic_base_ref_spec, FilterFormV,
};
use crate::rstate::{LookupResult, OpenImport, RV, Tri, Visit};
use crate::shadow::drop_redefined;
use crate::state::BV;
use vstd::prelude::*;

verus! {

/// The explicit specializations of `e` from the `i`-th record on: the
/// recorded outcome of each, or else what its name resolves to now.
pub open spec fn supers_from(
    g: BV,
    b: RV,
    m: nat,
    e: usize,
    i: int,
    acc: Seq<usize>,
) -> (RV, Seq<usize>)
    decreases m, 100nat, 44int, g.spec_targets.len() - i, 0int,
{
    if 0 <= i < g.spec_targets.len() {
        if g.spec_elem(i) != e || !g.spec_is_upward(i) {
            supers_from(g, b, m, e, i + 1, acc)
        } else {
            match b.resolved[i] {
                Some(t) => supers_from(g, b, m, e, i + 1, with_new_spec(acc, Some(t), e)),
                None => {
                    let (b, t) = resolve(g, b, m, g.spec_scope(i), g.spec_qn(i), 0);
                    supers_from(g, b, m, e, i + 1, with_new_spec(acc, t, e))
                },
            }
        }
    } else {
        (b, acc)
    }
}

/// The elements an element explicitly specializes, each once.
pub open spec fn supers(g: BV, b: RV, m: nat, e: usize) -> (RV, Seq<usize>)
    decreases m, 100nat, 45int, 0int, 0int,
{
    supers_from(g, b, m, e, 0, Seq::empty())
}

/// The walk up from the elements on the stack.
pub open spec fn conforms_from(
    g: BV,
    b: RV,
    m: nat,
    stack: Seq<usize>,
    seen: Seq<bool>,
    target: usize,
    fuel: nat,
) -> (RV, bool)
    decreases m, 100nat, 46int, fuel, stack.len(),
{
    if stack.len() == 0 {
        (b, false)
    } else {
        let x = stack.last();
        let rest = stack.drop_last();
        if x >= seen.len() || seen[x as int] {
            conforms_from(g, b, m, rest, seen, target, fuel)
        } else if fuel == 0 {
            (b, false)
        } else {
            let (b, list) = supers(g, b, m, x);
            if list.contains(target) {
                (b, true)
            } else {
                conforms_from(g, b, m, rest + list, seen.update(x as int, true), target, (fuel - 1) as nat)
            }
        }
    }
}

/// Whether `target` follows from `e` over explicit specializations.
pub open spec fn conforms_upward(g: BV, b: RV, m: nat, e: usize, target: usize) -> (RV, bool)
    decreases m, 100nat, 47int, 0int, 0int,
{
    if e == target {
        (b, true)
    } else {
        conforms_from(g, b, m, seq![e], Seq::new(g.n(), |i: int| false), target, g.n())
    }
}

pub open spec fn with_distinct(acc: Seq<usize>, t: Option<usize>) -> Seq<usize> {
    match t {
        Some(x) => if acc.contains(x) {
            acc
        } else {
            acc.push(x)
        },
        None => acc,
    }
}

/// The written typings of `e` from the `i`-th record on.
pub open spec fn typings_from(
    g: BV,
    b: RV,
    m: nat,
    e: usize,
    i: int,
    acc: Seq<usize>,
) -> (RV, Seq<usize>)
    decreases m, 100nat, 44int, g.spec_targets.len() - i, 0int,
{
    if 0 <= i < g.spec_targets.len() {
        if g.spec_elem(i) != e || !g.spec_is(i, "FeatureTyping"@) {
            typings_from(g, b, m, e, i + 1, acc)
        } else {
            let (b, t) = resolve(g, b, m, g.spec_scope(i), g.spec_qn(i), 0);
            typings_from(g, b, m, e, i + 1, with_distinct(acc, t))
        }
    } else {
        (b, acc)
    }
}

/// The declared types of an element, each once, in declaration order.
pub open spec fn direct_typings(g: BV, b: RV, m: nat, e: usize) -> (RV, Seq<usize>)
    decreases m, 100nat, 48int, 0int, 0int,
{
    let (b, _) = supers(g, b, m, e);
    typings_from(g, b, m, e, 0, Seq::empty())
}

/// Whether `target` is reached from `scope` over inherited scopes that are
/// not seen yet.
pub open spec fn reaches(
    g: BV,
    b: RV,
    m: nat,
    scope: usize,
    target: usize,
    seen: Seq<bool>,
    fuel: nat,
) -> (RV, bool, Seq<bool>)
    decreases m, 0nat, 33int, fuel, 0int,
{
    if scope >= seen.len() || seen[scope as int] || fuel == 0 {
        (b, false, seen)
    } else {
        let (b, list) = base_scopes(g, b, m, scope);
        reaches_any(g, b, m, list, 0, target, seen.update(scope as int, true), (fuel - 1) as nat)
    }
}

/// The same from the `k`-th of several scopes on.
pub open spec fn reaches_any(
    g: BV,
    b: RV,
    m: nat,
    list: Seq<usize>,
    k: int,
    target: usize,
    seen: Seq<bool>,
    fuel: nat,
) -> (RV, bool, Seq<bool>)
    decreases m, 0nat, 33int, fuel, list.len() - k + 1,
{
    if 0 <= k < list.len() {
        if list[k] == target {
            (b, true, seen)
        } else {
            let (b, hit, seen) = reaches(g, b, m, list[k], target, seen, fuel);
            if hit {
                (b, true, seen)
            } else {
                reaches_any(g, b, m, list, k + 1, target, seen, fuel)
            }
        }
    } else {
        (b, false, seen)
    }
}

/// Whether a scope inherits, over any number of steps, from another.
pub open spec fn reaches_base(g: BV, b: RV, m: nat, scope: usize, target: usize) -> (RV, bool)
    decreases m, 0nat, 34int, 0int, 0int,
{
    let (b, hit, _) = reaches(g, b, m, scope, target, Seq::new(g.ns(), |i: int| false), g.ns());
    (b, hit)
}

/// Look a name up in one scope, within a query: a scope the query has
/// answered answers again, one it is still working on has nothing.
pub open spec fn lookup_at(
    g: BV,
    b: RV,
    m: nat,
    s: usize,
    name: Seq<char>,
    depth: usize,
    stamp: u64,
    access: LookupAccess,
) -> (RV, LookupResult)
    decreases m, room(depth), 40int, 0int, 1int,
{
    lookup_at_step(g, b, m, s, name, depth, stamp, access)
}

/// [`lookup_at`], spelled out.
#[verifier::opaque]
pub open spec fn lookup_at_step(
    g: BV,
    b: RV,
    m: nat,
    s: usize,
    name: Seq<char>,
    depth: usize,
    stamp: u64,
    access: LookupAccess,
) -> (RV, LookupResult)
    decreases m, room(depth), 40int, 0int, 0int,
{
    if depth > 24 {
        (b, LookupResult::Missing)
    } else {
        let v = b.visits[s as int].at(access);
        if v.stamp == stamp {
            (b, answer_spec(v))
        } else {
            let b = b.set_visit(s, access, Visit { stamp: stamp, result: None });
            let (b, hit) = lookup_body(g, b, m, s, name, depth, stamp, access);
            let w = b.visits[s as int].at(access);
            let b = b.set_visit(s, access, Visit { stamp: w.stamp, result: Some(hit) });
            (b, hit)
        }
    }
}

/// The contributions of a scope under a name, in order of precedence: owned
/// members, effective names, aliases, implied ends, member imports,
/// inherited members, namespace imports.
pub open spec fn lookup_body(
    g: BV,
    b: RV,
    m: nat,
    s: usize,
    name: Seq<char>,
    depth: usize,
    stamp: u64,
    access: LookupAccess,
) -> (RV, LookupResult)
    decreases m, room(depth), 39int, 0int, 1int
    when depth <= 24
{
    lookup_body_step(g, b, m, s, name, depth, stamp, access)
}

/// [`lookup_body`], spelled out.
#[verifier::opaque]
pub open spec fn lookup_body_step(
    g: BV,
    b: RV,
    m: nat,
    s: usize,
    name: Seq<char>,
    depth: usize,
    stamp: u64,
    access: LookupAccess,
) -> (RV, LookupResult)
    decreases m, room(depth), 39int, 0int, 0int
    when depth <= 24
{
    let ex = b.exclude;
    let direct = g.direct_hit(ex, s, name, access);
    let declared = b.declared_only;
    let effective = if declared { LookupResult::Missing } else { g.effective_hit(ex, s, name, access) };
    if direct != LookupResult::Missing {
        (b, direct)
    } else if effective != LookupResult::Missing {
        (b.note_missed(s, name), effective)
    } else {
        let b = b.note_missed(s, name);
        let (b, aliases) = lookup_aliases(g, b, m, s, name, depth, access, 0, LookupResult::Missing);
        if aliases != LookupResult::Missing {
            (b, aliases)
        } else {
            let ex2 = b.exclude;
            let implied = g.implied_hit(ex2, s, name);
            if implied != LookupResult::Missing {
                (b, implied)
            } else {
                lookup_imported(g, b, m, s, name, depth, stamp, access)
            }
        }
    }
}

/// The alias members from the `i`-th on that answer to the name.
pub open spec fn lookup_aliases(
    g: BV,
    b: RV,
    m: nat,
    s: usize,
    name: Seq<char>,
    depth: usize,
    access: LookupAccess,
    i: int,
    acc: LookupResult,
) -> (RV, LookupResult)
    decreases m, room(depth), 38int, g.scopes[s as int].aliases.len() - i, 1int
    when depth <= 24
{
    lookup_aliases_step(g, b, m, s, name, depth, access, i, acc)
}

/// [`lookup_aliases`], spelled out.
#[verifier::opaque]
pub open spec fn lookup_aliases_step(
    g: BV,
    b: RV,
    m: nat,
    s: usize,
    name: Seq<char>,
    depth: usize,
    access: LookupAccess,
    i: int,
    acc: LookupResult,
) -> (RV, LookupResult)
    decreases m, room(depth), 38int, g.scopes[s as int].aliases.len() - i, 0int
    when depth <= 24
{
    if i >= g.alias_count(s) {
        (b, acc)
    } else if !g.alias_matches(s, i, name, access) {
        lookup_aliases(g, b, m, s, name, depth, access, i + 1, acc)
    } else {
        let target = g.alias_target(s, i);
        let (b, hit) = resolve_result(g, b, m, s, target, (depth + 1) as usize, false);
        let next = g.merge_elem(acc, hit);
        lookup_aliases(g, b, m, s, name, depth, access, i + 1, next)
    }
}

/// Member imports, then inherited members, then namespace imports.
pub open spec fn lookup_imported(
    g: BV,
    b: RV,
    m: nat,
    s: usize,
    name: Seq<char>,
    depth: usize,
    stamp: u64,
    access: LookupAccess,
) -> (RV, LookupResult)
    decreases m, room(depth), 37int, 0int, 1int
    when depth <= 24
{
    lookup_imported_step(g, b, m, s, name, depth, stamp, access)
}

/// [`lookup_imported`], spelled out.
#[verifier::opaque]
pub open spec fn lookup_imported_step(
    g: BV,
    b: RV,
    m: nat,
    s: usize,
    name: Seq<char>,
    depth: usize,
    stamp: u64,
    access: LookupAccess,
) -> (RV, LookupResult)
    decreases m, room(depth), 37int, 0int, 0int
    when depth <= 24
{
    let (b, members) = lookup_members(g, b, m, s, name, depth, access, 0, LookupResult::Missing);
    if members != LookupResult::Missing {
        (b, members)
    } else {
        let (b, bases) = base_scopes(g, b, m, s);
        let (b, hits) = lookup_bases(g, b, m, bases, name, depth, stamp, access, 0, no_hits_spec());
        let standing = drop_redefined(g, b.resolved, hits);
        let inherited = g.merge_all(standing, 0, LookupResult::Missing);
        if inherited != LookupResult::Missing {
            (b, inherited)
        } else {
            let (b, list) = import_scopes(g, b, m, s);
            lookup_imports(g, b, m, s, list, name, depth, stamp, access, 0, LookupResult::Missing)
        }
    }
}

/// The member imports from the `i`-th on that answer to the name: one that
/// is being resolved does not resolve through itself.
pub open spec fn lookup_members(
    g: BV,
    b: RV,
    m: nat,
    s: usize,
    name: Seq<char>,
    depth: usize,
    access: LookupAccess,
    i: int,
    acc: LookupResult,
) -> (RV, LookupResult)
    decreases m, room(depth), 36int, g.scopes[s as int].member_imports.len() - i, 1int
    when depth <= 24
{
    lookup_members_step(g, b, m, s, name, depth, access, i, acc)
}

/// [`lookup_members`], spelled out.
#[verifier::opaque]
pub open spec fn lookup_members_step(
    g: BV,
    b: RV,
    m: nat,
    s: usize,
    name: Seq<char>,
    depth: usize,
    access: LookupAccess,
    i: int,
    acc: LookupResult,
) -> (RV, LookupResult)
    decreases m, room(depth), 36int, g.scopes[s as int].member_imports.len() - i, 0int
    when depth <= 24
{
    if i >= g.member_count(s) {
        (b, acc)
    } else if !g.member_matches(s, i, name, access) || b.member_active(s, i as usize) {
        lookup_members(g, b, m, s, name, depth, access, i + 1, acc)
    } else {
        let b = b.enter_member(s, i as usize);
        let target = g.member_target(s, i);
        let (b, hit) = resolve_result(g, b, m, s, target, (depth + 1) as usize, g.member_all(s, i));
        let b = b.leave_member();
        let (b, next) = admit_member(g, b, m, s, i, depth, acc, hit);
        lookup_members(g, b, m, s, name, depth, access, i + 1, next)
    }
}

/// What a member import contributes: its element, unless a filter hides it.
pub open spec fn admit_member(
    g: BV,
    b: RV,
    m: nat,
    s: usize,
    i: int,
    depth: usize,
    acc: LookupResult,
    hit: LookupResult,
) -> (RV, LookupResult)
    decreases m, room(depth), 35int, 0int, 1int,
{
    admit_member_step(g, b, m, s, i, depth, acc, hit)
}

/// [`admit_member`], spelled out.
#[verifier::opaque]
pub open spec fn admit_member_step(
    g: BV,
    b: RV,
    m: nat,
    s: usize,
    i: int,
    depth: usize,
    acc: LookupResult,
    hit: LookupResult,
) -> (RV, LookupResult)
    decreases m, room(depth), 35int, 0int, 0int,
{
    match hit {
        LookupResult::Found(e, sub) => {
            let (b, ok) = admits_by_member(g, b, m, s, i, e, depth, 0);
            if ok {
                let b = b.mark_used(g.member_rel(s, i));
                (b, g.merge_elem(acc, hit))
            } else {
                (b, acc)
            }
        },
        LookupResult::Ambiguous => {
            (b, LookupResult::Ambiguous)
        },
        LookupResult::Missing => {
            (b, acc)
        },
    }
}

/// The hits of the inherited scopes from the `k`-th on.
pub open spec fn lookup_bases(
    g: BV,
    b: RV,
    m: nat,
    bases: Seq<usize>,
    name: Seq<char>,
    depth: usize,
    stamp: u64,
    access: LookupAccess,
    k: int,
    hits: Seq<LookupResult>,
) -> (RV, Seq<LookupResult>)
    decreases m, room(depth), 36int, bases.len() - k, 1int
    when depth <= 24
{
    lookup_bases_step(g, b, m, bases, name, depth, stamp, access, k, hits)
}

/// [`lookup_bases`], spelled out.
#[verifier::opaque]
pub open spec fn lookup_bases_step(
    g: BV,
    b: RV,
    m: nat,
    bases: Seq<usize>,
    name: Seq<char>,
    depth: usize,
    stamp: u64,
    access: LookupAccess,
    k: int,
    hits: Seq<LookupResult>,
) -> (RV, Seq<LookupResult>)
    decreases m, room(depth), 36int, bases.len() - k, 0int
    when depth <= 24
{
    if k >= bases.len() {
        (b, hits)
    } else {
        let (b, hit) = lookup_at(
            g,
            b,
            m,
            bases[k as int],
            name,
            (depth + 1) as usize,
            stamp,
            access.inherited(),
        );
        let more = with_hit_spec(hits, hit);
        lookup_bases(g, b, m, bases, name, depth, stamp, access, k + 1, more)
    }
}

/// The namespace imports in force from the `k`-th on.
pub open spec fn lookup_imports(
    g: BV,
    b: RV,
    m: nat,
    s: usize,
    list: Seq<OpenImport>,
    name: Seq<char>,
    depth: usize,
    stamp: u64,
    access: LookupAccess,
    k: int,
    acc: LookupResult,
) -> (RV, LookupResult)
    decreases m, room(depth), 36int, list.len() - k, 1int
    when depth <= 24
{
    lookup_imports_step(g, b, m, s, list, name, depth, stamp, access, k, acc)
}

/// [`lookup_imports`], spelled out.
#[verifier::opaque]
pub open spec fn lookup_imports_step(
    g: BV,
    b: RV,
    m: nat,
    s: usize,
    list: Seq<OpenImport>,
    name: Seq<char>,
    depth: usize,
    stamp: u64,
    access: LookupAccess,
    k: int,
    acc: LookupResult,
) -> (RV, LookupResult)
    decreases m, room(depth), 36int, list.len() - k, 0int
    when depth <= 24
{
    if k >= list.len() {
        (b, acc)
    } else {
        let entry = list[k as int].entry as int;
        let target = list[k as int].scope;
        if access == LookupAccess::Public && !g.import_public(s, entry) {
            lookup_imports(g, b, m, s, list, name, depth, stamp, access, k + 1, acc)
        } else {
            let inner = if g.import_all(s, entry) { LookupAccess::All } else { LookupAccess::Public };
            let (b, hit) = lookup_through(
                g,
                b,
                m,
                g.import_recursive(s, entry),
                target,
                name,
                (depth + 1) as usize,
                stamp,
                inner,
            );
            let (b, next) = admit_import(g, b, m, s, entry, depth, acc, hit);
            lookup_imports(g, b, m, s, list, name, depth, stamp, access, k + 1, next)
        }
    }
}

/// Look up in an imported namespace, or in everything nested in it.
pub open spec fn lookup_through(
    g: BV,
    b: RV,
    m: nat,
    recursive: bool,
    s: usize,
    name: Seq<char>,
    depth: usize,
    stamp: u64,
    access: LookupAccess,
) -> (RV, LookupResult)
    decreases m, room(depth), 43int, 0int, 1int,
{
    lookup_through_step(g, b, m, recursive, s, name, depth, stamp, access)
}

/// [`lookup_through`], spelled out.
#[verifier::opaque]
pub open spec fn lookup_through_step(
    g: BV,
    b: RV,
    m: nat,
    recursive: bool,
    s: usize,
    name: Seq<char>,
    depth: usize,
    stamp: u64,
    access: LookupAccess,
) -> (RV, LookupResult)
    decreases m, room(depth), 43int, 0int, 0int,
{
    if recursive {
        lookup_recursive(g, b, m, s, name, depth, stamp, access)
    } else {
        lookup_at(g, b, m, s, name, depth, stamp, access)
    }
}

/// What a namespace import contributes: the hit, unless a filter hides it.
pub open spec fn admit_import(
    g: BV,
    b: RV,
    m: nat,
    s: usize,
    i: int,
    depth: usize,
    acc: LookupResult,
    hit: LookupResult,
) -> (RV, LookupResult)
    decreases m, room(depth), 35int, 0int, 1int,
{
    admit_import_step(g, b, m, s, i, depth, acc, hit)
}

/// [`admit_import`], spelled out.
#[verifier::opaque]
pub open spec fn admit_import_step(
    g: BV,
    b: RV,
    m: nat,
    s: usize,
    i: int,
    depth: usize,
    acc: LookupResult,
    hit: LookupResult,
) -> (RV, LookupResult)
    decreases m, room(depth), 35int, 0int, 0int,
{
    match hit {
        LookupResult::Found(e, sub) => {
            let (b, ok) = admits_by_import(g, b, m, s, i, e, depth, 0);
            if ok {
                let b = b.mark_used(g.import_rel(s, i));
                (b, g.merge(acc, hit))
            } else {
                (b, acc)
            }
        },
        LookupResult::Ambiguous => {
            (b, LookupResult::Ambiguous)
        },
        LookupResult::Missing => {
            (b, acc)
        },
    }
}

/// A name in a scope or any namespace nested in it.
pub open spec fn lookup_recursive(
    g: BV,
    b: RV,
    m: nat,
    s: usize,
    name: Seq<char>,
    depth: usize,
    stamp: u64,
    access: LookupAccess,
) -> (RV, LookupResult)
    decreases m, room(depth), 42int, 0int, 1int,
{
    lookup_recursive_step(g, b, m, s, name, depth, stamp, access)
}

/// [`lookup_recursive`], spelled out.
#[verifier::opaque]
pub open spec fn lookup_recursive_step(
    g: BV,
    b: RV,
    m: nat,
    s: usize,
    name: Seq<char>,
    depth: usize,
    stamp: u64,
    access: LookupAccess,
) -> (RV, LookupResult)
    decreases m, room(depth), 42int, 0int, 0int,
{
    if depth > 24 {
        (b, LookupResult::Missing)
    } else {
        let (b, first) = lookup_at(g, b, m, s, name, depth, stamp, access);
        let subs = g.sub_scopes(s, access);
        lookup_subs(g, b, m, subs, name, depth, stamp, access, 0, first)
    }
}

/// The nested namespaces from the `k`-th on.
pub open spec fn lookup_subs(
    g: BV,
    b: RV,
    m: nat,
    subs: Seq<usize>,
    name: Seq<char>,
    depth: usize,
    stamp: u64,
    access: LookupAccess,
    k: int,
    acc: LookupResult,
) -> (RV, LookupResult)
    decreases m, room(depth), 41int, subs.len() - k, 1int
    when depth <= 24
{
    lookup_subs_step(g, b, m, subs, name, depth, stamp, access, k, acc)
}

/// [`lookup_subs`], spelled out.
#[verifier::opaque]
pub open spec fn lookup_subs_step(
    g: BV,
    b: RV,
    m: nat,
    subs: Seq<usize>,
    name: Seq<char>,
    depth: usize,
    stamp: u64,
    access: LookupAccess,
    k: int,
    acc: LookupResult,
) -> (RV, LookupResult)
    decreases m, room(depth), 41int, subs.len() - k, 0int
    when depth <= 24
{
    if k >= subs.len() {
        (b, acc)
    } else {
        let (b, hit) = lookup_recursive(g, b, m, subs[k as int], name, (depth + 1) as usize, stamp, access);
        let next = g.merge(acc, hit);
        lookup_subs(g, b, m, subs, name, depth, stamp, access, k + 1, next)
    }
}

/// The conditions of a member import and of its scope, from the `k`-th on:
/// an element is hidden only by a condition that is false of it.
pub open spec fn admits_by_member(
    g: BV,
    b: RV,
    m: nat,
    s: usize,
    i: int,
    elem: usize,
    depth: usize,
    k: int,
) -> (RV, bool)
    decreases m, room(depth), 34int, g.scopes[s as int].member_imports[i as int].filters.len() - k, 1int,
{
    admits_by_member_step(g, b, m, s, i, elem, depth, k)
}

/// [`admits_by_member`], spelled out.
#[verifier::opaque]
pub open spec fn admits_by_member_step(
    g: BV,
    b: RV,
    m: nat,
    s: usize,
    i: int,
    elem: usize,
    depth: usize,
    k: int,
) -> (RV, bool)
    decreases m, room(depth), 34int, g.scopes[s as int].member_imports[i as int].filters.len() - k, 0int,
{
    if k >= g.member_filter_count(s, i) {
        admits_by_scope(g, b, m, s, elem, depth, 0)
    } else {
        let (b, v) = filter_verdict(g, b, m, g.member_filter(s, i, k), elem, depth);
        if v == Tri::False {
            (b, false)
        } else {
            admits_by_member(g, b, m, s, i, elem, depth, k + 1)
        }
    }
}

/// The conditions of a namespace import and of its scope, from the `k`-th
/// on.
pub open spec fn admits_by_import(
    g: BV,
    b: RV,
    m: nat,
    s: usize,
    i: int,
    elem: usize,
    depth: usize,
    k: int,
) -> (RV, bool)
    decreases m, room(depth), 34int, g.scopes[s as int].imports[i as int].filters.len() - k, 1int,
{
    admits_by_import_step(g, b, m, s, i, elem, depth, k)
}

/// [`admits_by_import`], spelled out.
#[verifier::opaque]
pub open spec fn admits_by_import_step(
    g: BV,
    b: RV,
    m: nat,
    s: usize,
    i: int,
    elem: usize,
    depth: usize,
    k: int,
) -> (RV, bool)
    decreases m, room(depth), 34int, g.scopes[s as int].imports[i as int].filters.len() - k, 0int,
{
    if k >= g.import_filter_count(s, i) {
        admits_by_scope(g, b, m, s, elem, depth, 0)
    } else {
        let (b, v) = filter_verdict(g, b, m, g.import_filter(s, i, k), elem, depth);
        if v == Tri::False {
            (b, false)
        } else {
            admits_by_import(g, b, m, s, i, elem, depth, k + 1)
        }
    }
}

/// The filter members of a scope, from the `k`-th on.
pub open spec fn admits_by_scope(
    g: BV,
    b: RV,
    m: nat,
    s: usize,
    elem: usize,
    depth: usize,
    k: int,
) -> (RV, bool)
    decreases m, room(depth), 33int, g.scopes[s as int].filters.len() - k, 1int,
{
    admits_by_scope_step(g, b, m, s, elem, depth, k)
}

/// [`admits_by_scope`], spelled out.
#[verifier::opaque]
pub open spec fn admits_by_scope_step(
    g: BV,
    b: RV,
    m: nat,
    s: usize,
    elem: usize,
    depth: usize,
    k: int,
) -> (RV, bool)
    decreases m, room(depth), 33int, g.scopes[s as int].filters.len() - k, 0int,
{
    if k >= g.scope_filter_count(s) {
        (b, true)
    } else {
        let (b, v) = filter_verdict(g, b, m, g.scope_filter(s, k), elem, depth);
        if v == Tri::False {
            (b, false)
        } else {
            admits_by_scope(g, b, m, s, elem, depth, k + 1)
        }
    }
}

/// The verdict of a filter on an element; a filter being evaluated is
/// undecided.
pub open spec fn filter_verdict(
    g: BV,
    b: RV,
    m: nat,
    f: usize,
    elem: usize,
    depth: usize,
) -> (RV, Tri)
    decreases m, room(depth), 32int, 0int, 1int,
{
    filter_verdict_step(g, b, m, f, elem, depth)
}

/// [`filter_verdict`], spelled out.
#[verifier::opaque]
pub open spec fn filter_verdict_step(
    g: BV,
    b: RV,
    m: nat,
    f: usize,
    elem: usize,
    depth: usize,
) -> (RV, Tri)
    decreases m, room(depth), 32int, 0int, 0int,
{
    if depth > 24 || b.filters_active[f as int] {
        (b, Tri::Unknown)
    } else {
        if m == 0 {
            (b, Tri::Unknown)
        } else {
            let b = b.set_filter_active(f, true);
            let expr = g.filter_expr(f);
            let (b, out) = expr_verdict(g, b, (m - 1) as nat, *expr, g.filter_scope(f), elem, depth);
            let b = b.set_filter_active(f, false);
            (b, out)
        }
    }
}

/// The verdict of a filter expression: literals, `not`, `and`, `or`, `@M`
/// and `(as M).attr` are decided, everything else is not.
pub open spec fn expr_verdict(
    g: BV,
    b: RV,
    m: nat,
    expr: Expr,
    scope: usize,
    elem: usize,
    depth: usize,
) -> (RV, Tri)
    decreases m, 100nat, 60int, 2 * expr_size(expr), 1int,
{
    expr_verdict_step(g, b, m, expr, scope, elem, depth)
}

/// [`expr_verdict`], spelled out.
#[verifier::opaque]
pub open spec fn expr_verdict_step(
    g: BV,
    b: RV,
    m: nat,
    expr: Expr,
    scope: usize,
    elem: usize,
    depth: usize,
) -> (RV, Tri)
    decreases m, 100nat, 60int, 2 * expr_size(expr), 0int,
{
    match filter_form_spec(expr) {
        FilterFormV::Decided(v) => {
            (b, v)
        },
        FilterFormV::Not(x) => {
            let (b, v) = expr_verdict(g, b, m, x, scope, elem, depth);
            (b, not_verdict_spec(v))
        },
        FilterFormV::Connect(conj, x, y) => {
            connect_verdict(g, b, m, conj, x, y, scope, elem, depth)
        },
        FilterFormV::Annotation(qn) => {
            metadata_test(g, b, m, scope, qn, elem, depth)
        },
        FilterFormV::Attribute(t) => {
            attr_verdict(g, b, m, scope, t.meta, t.attr, elem, depth)
        },
    }
}

/// The verdict of a connective: the second operand is asked only where the
/// first does not decide.
pub open spec fn connect_verdict(
    g: BV,
    b: RV,
    m: nat,
    conj: bool,
    x: Expr,
    y: Expr,
    scope: usize,
    elem: usize,
    depth: usize,
) -> (RV, Tri)
    decreases m, 100nat, 60int, 2 * (expr_size(x) + expr_size(y)) + 1, 1int,
{
    connect_verdict_step(g, b, m, conj, x, y, scope, elem, depth)
}

/// [`connect_verdict`], spelled out.
#[verifier::opaque]
pub open spec fn connect_verdict_step(
    g: BV,
    b: RV,
    m: nat,
    conj: bool,
    x: Expr,
    y: Expr,
    scope: usize,
    elem: usize,
    depth: usize,
) -> (RV, Tri)
    decreases m, 100nat, 60int, 2 * (expr_size(x) + expr_size(y)) + 1, 0int,
{
    let (b, l) = expr_verdict(g, b, m, x, scope, elem, depth);
    if decides_spec(conj, l) {
        (b, l)
    } else {
        let (b, r2) = expr_verdict(g, b, m, y, scope, elem, depth);
        (b, combine_spec(conj, l, r2))
    }
}

/// `@M`: whether the element carries an annotation of `M`, or is an
/// instance of the reflected metaclass `M`.
pub open spec fn metadata_test(
    g: BV,
    b: RV,
    m: nat,
    scope: usize,
    qn: QnV,
    elem: usize,
    depth: usize,
) -> (RV, Tri)
    decreases m, 100nat, 58int, 0int, 1int,
{
    metadata_test_step(g, b, m, scope, qn, elem, depth)
}

/// [`metadata_test`], spelled out.
#[verifier::opaque]
pub open spec fn metadata_test_step(
    g: BV,
    b: RV,
    m: nat,
    scope: usize,
    qn: QnV,
    elem: usize,
    depth: usize,
) -> (RV, Tri)
    decreases m, 100nat, 58int, 0int, 0int,
{
    let (b, target) = resolve(g, b, m, scope, qn, (depth + 1) as usize);
    match target {
        Some(t) => {
            metadata_conforms(g, b, m, t, elem, 0)
        },
        None => {
            (b, Tri::Unknown)
        },
    }
}

/// The annotations of an element from the `k`-th on against a metadata
/// definition, then its own metaclass where the definition reflects one.
pub open spec fn metadata_conforms(
    g: BV,
    b: RV,
    m: nat,
    target: usize,
    elem: usize,
    k: int,
) -> (RV, Tri)
    decreases m, 100nat, 56int, g.elements[elem as int].notes.metadata.len() - k, 1int,
{
    metadata_conforms_step(g, b, m, target, elem, k)
}

/// [`metadata_conforms`], spelled out.
#[verifier::opaque]
pub open spec fn metadata_conforms_step(
    g: BV,
    b: RV,
    m: nat,
    target: usize,
    elem: usize,
    k: int,
) -> (RV, Tri)
    decreases m, 100nat, 56int, g.elements[elem as int].notes.metadata.len() - k, 0int,
{
    if k >= g.metadata_count(elem) {
        let bound = b.lib_boundary;
        if g.is_reflection(bound, target) {
            metaclass_test(g, b, m, target, elem)
        } else {
            (b, Tri::False)
        }
    } else {
        let (b, hit) = conforms_upward(g, b, m, g.metadata_at(elem, k), target);
        if hit {
            (b, Tri::True)
        } else {
            metadata_conforms(g, b, m, target, elem, k + 1)
        }
    }
}

/// Whether the metaclass of an element is, or specializes, a reflected one.
pub open spec fn metaclass_test(g: BV, b: RV, m: nat, target: usize, elem: usize) -> (RV, Tri)
    decreases m, 100nat, 55int, 0int, 1int,
{
    metaclass_test_step(g, b, m, target, elem)
}

/// [`metaclass_test`], spelled out.
#[verifier::opaque]
pub open spec fn metaclass_test_step(g: BV, b: RV, m: nat, target: usize, elem: usize) -> (RV, Tri)
    decreases m, 100nat, 55int, 0int, 0int,
{
    let sibling = g.sibling_metaclass(target, elem);
    match sibling {
        Some(me) => {
            let (b, hit) = conforms_upward(g, b, m, me, target);
            (b, if_true_spec(hit))
        },
        None => {
            let (b, found) = reflection_metaclass(g, b, m, elem);
            match found {
                Some(me) => {
                    let (b, hit) = conforms_upward(g, b, m, me, target);
                    (b, if_true_spec(hit))
                },
                None => {
                    (b, Tri::Unknown)
                },
            }
        },
    }
}

/// The reflection library's element for the metaclass of an element: of
/// SysML, else of KerML.
pub open spec fn reflection_metaclass(g: BV, b: RV, m: nat, elem: usize) -> (RV, Option<usize>)
    decreases m, 100nat, 54int, 0int, 1int,
{
    reflection_metaclass_step(g, b, m, elem)
}

/// [`reflection_metaclass`], spelled out.
#[verifier::opaque]
pub open spec fn reflection_metaclass_step(g: BV, b: RV, m: nat, elem: usize) -> (RV, Option<usize>)
    decreases m, 100nat, 54int, 0int, 0int,
{
    let first = g.reflection_name(true, elem);
    let (b, hit) = resolve(g, b, m, g.root(), first, 0);
    match hit {
        Some(t) => {
            (b, Some(t))
        },
        None => {
            let second = g.reflection_name(false, elem);
            resolve(g, b, m, g.root(), second, 0)
        },
    }
}

/// `(as M).attr`: the truth value an element's `M` annotation binds.
pub open spec fn attr_verdict(
    g: BV,
    b: RV,
    m: nat,
    scope: usize,
    meta: QnV,
    attr: Seq<char>,
    elem: usize,
    depth: usize,
) -> (RV, Tri)
    decreases m, 100nat, 58int, 0int, 1int,
{
    attr_verdict_step(g, b, m, scope, meta, attr, elem, depth)
}

/// [`attr_verdict`], spelled out.
#[verifier::opaque]
pub open spec fn attr_verdict_step(
    g: BV,
    b: RV,
    m: nat,
    scope: usize,
    meta: QnV,
    attr: Seq<char>,
    elem: usize,
    depth: usize,
) -> (RV, Tri)
    decreases m, 100nat, 58int, 0int, 0int,
{
    let (b, target) = resolve(g, b, m, scope, meta, (depth + 1) as usize);
    match target {
        Some(t) => {
            attr_from(g, b, m, t, attr, elem, 0)
        },
        None => {
            (b, Tri::Unknown)
        },
    }
}

/// The annotations of an element from the `k`-th on that are of the
/// definition.
pub open spec fn attr_from(
    g: BV,
    b: RV,
    m: nat,
    target: usize,
    attr: Seq<char>,
    elem: usize,
    k: int,
) -> (RV, Tri)
    decreases m, 100nat, 56int, g.elements[elem as int].notes.metadata.len() - k, 1int,
{
    attr_from_step(g, b, m, target, attr, elem, k)
}

/// [`attr_from`], spelled out.
#[verifier::opaque]
pub open spec fn attr_from_step(
    g: BV,
    b: RV,
    m: nat,
    target: usize,
    attr: Seq<char>,
    elem: usize,
    k: int,
) -> (RV, Tri)
    decreases m, 100nat, 56int, g.elements[elem as int].notes.metadata.len() - k, 0int,
{
    if k >= g.metadata_count(elem) {
        (b, Tri::False)
    } else {
        let ann = g.metadata_at(elem, k);
        let (b, hit) = conforms_upward(g, b, m, ann, target);
        if hit {
            (b, g.attr_member(ann, attr))
        } else {
            attr_from(g, b, m, target, attr, elem, k + 1)
        }
    }
}

/// The inherited scopes of a scope: the bodies of the elements its owner
/// specializes. Computed once; while it is computed there are none.
pub open spec fn base_scopes(g: BV, b: RV, m: nat, s: usize) -> (RV, Seq<usize>)
    decreases m, 0nat, 30int, 0int, 1int,
{
    base_scopes_step(g, b, m, s)
}

/// [`base_scopes`], spelled out.
#[verifier::opaque]
pub open spec fn base_scopes_step(g: BV, b: RV, m: nat, s: usize) -> (RV, Seq<usize>)
    decreases m, 0nat, 30int, 0int, 0int,
{
    match b.bases[s as int] {
        Some(v) => {
            let b = b.recall_bases(s);
            (b, v)
        },
        None => {
            if m == 0 {
                (b, Seq::empty())
            } else {
                let outer = b.misses.now;
                let b = b.clear_missed();
                let b = b.set_base_cache(s, no_scopes_spec());
                let from = or_self_spec(g.scope_parent(s), s);
                let saved = b.exclude;
                let b = b.set_exclude(g.scope_owner(s));
                let (b, named) = bases_from(g, b, (m - 1) as nat, s, from, 0, no_scopes_spec());
                let (b, chained) = chain_bases_from(g, b, (m - 1) as nat, s, from, 0, named);
                let b = b.set_exclude(saved);
                let (b, all) = with_semantic(g, b, (m - 1) as nat, s, g.scope_owner(s), chained);
                let b = b.set_base_cache(s, all);
                let b = b.keep_base_misses(s, outer);
                (b, all)
            }
        },
    }
}

/// The plain-name bases from the `i`-th on.
pub open spec fn bases_from(
    g: BV,
    b: RV,
    m: nat,
    s: usize,
    from: usize,
    i: int,
    acc: Seq<usize>,
) -> (RV, Seq<usize>)
    decreases m, 100nat, 50int, g.scopes[s as int].bases.len() - i, 1int,
{
    bases_from_step(g, b, m, s, from, i, acc)
}

/// [`bases_from`], spelled out.
#[verifier::opaque]
pub open spec fn bases_from_step(
    g: BV,
    b: RV,
    m: nat,
    s: usize,
    from: usize,
    i: int,
    acc: Seq<usize>,
) -> (RV, Seq<usize>)
    decreases m, 100nat, 50int, g.scopes[s as int].bases.len() - i, 0int,
{
    if i >= g.base_count(s) {
        (b, acc)
    } else {
        let qn = g.base_at(s, i);
        let (b, hit) = resolve(g, b, m, from, qn, 0);
        let sc = g.scope_of(hit);
        let next = with_other_spec(acc, sc, s);
        bases_from(g, b, m, s, from, i + 1, next)
    }
}

/// The chain bases from the `i`-th on: each contributes its last link.
pub open spec fn chain_bases_from(
    g: BV,
    b: RV,
    m: nat,
    s: usize,
    from: usize,
    i: int,
    acc: Seq<usize>,
) -> (RV, Seq<usize>)
    decreases m, 100nat, 50int, g.scopes[s as int].chain_bases.len() - i, 1int,
{
    chain_bases_from_step(g, b, m, s, from, i, acc)
}

/// [`chain_bases_from`], spelled out.
#[verifier::opaque]
pub open spec fn chain_bases_from_step(
    g: BV,
    b: RV,
    m: nat,
    s: usize,
    from: usize,
    i: int,
    acc: Seq<usize>,
) -> (RV, Seq<usize>)
    decreases m, 100nat, 50int, g.scopes[s as int].chain_bases.len() - i, 0int,
{
    if i >= g.chain_base_count(s) {
        (b, acc)
    } else {
        let links = g.chain_base(s, i);
        let (b, hit) = resolve_chain(g, b, m, from, links, no_names_spec());
        let sc = g.scope_of(hit);
        let next = with_new_spec(acc, sc, s);
        chain_bases_from(g, b, m, s, from, i + 1, next)
    }
}

/// The bases semantic metadata implies, after the written ones.
pub open spec fn with_semantic(
    g: BV,
    b: RV,
    m: nat,
    s: usize,
    owner: Option<usize>,
    acc: Seq<usize>,
) -> (RV, Seq<usize>)
    decreases m, 100nat, 57int, 0int, 1int,
{
    with_semantic_step(g, b, m, s, owner, acc)
}

/// [`with_semantic`], spelled out.
#[verifier::opaque]
pub open spec fn with_semantic_step(
    g: BV,
    b: RV,
    m: nat,
    s: usize,
    owner: Option<usize>,
    acc: Seq<usize>,
) -> (RV, Seq<usize>)
    decreases m, 100nat, 57int, 0int, 0int,
{
    match owner {
        Some(o) => {
            let (b, targets) = semantic_targets(g, b, m, o);
            (b, g.with_bodies(targets, s, 0, acc))
        },
        None => {
            (b, acc)
        },
    }
}

/// The base types the semantic metadata of an element names.
pub open spec fn semantic_targets(g: BV, b: RV, m: nat, elem: usize) -> (RV, Seq<usize>)
    decreases m, 100nat, 56int, 0int, 1int,
{
    semantic_targets_step(g, b, m, elem)
}

/// [`semantic_targets`], spelled out.
#[verifier::opaque]
pub open spec fn semantic_targets_step(g: BV, b: RV, m: nat, elem: usize) -> (RV, Seq<usize>)
    decreases m, 100nat, 56int, 0int, 0int,
{
    if g.metadata_count(elem) == 0 {
        (b, no_elems_spec())
    } else {
        let saved_ex = b.exclude;
        let saved_mode = b.declared_only;
        let b = b.set_exclude(None);
        let b = b.set_declared_only(false);
        let (b, sem) = semantic_definition(g, b, m);
        let (b, out) = semantic_metas(g, b, m, elem, sem, 0, no_elems_spec());
        let b = b.set_exclude(saved_ex);
        let b = b.set_declared_only(saved_mode);
        (b, out)
    }
}

/// The library's semantic metadata definition, looked up once.
pub open spec fn semantic_definition(g: BV, b: RV, m: nat) -> (RV, Option<usize>)
    decreases m, 100nat, 53int, 0int, 1int,
{
    semantic_definition_step(g, b, m)
}

/// [`semantic_definition`], spelled out.
#[verifier::opaque]
pub open spec fn semantic_definition_step(g: BV, b: RV, m: nat) -> (RV, Option<usize>)
    decreases m, 100nat, 53int, 0int, 0int,
{
    match b.semantic {
        Some(memo) => {
            let b = b.recall_semantic();
            (b, memo)
        },
        None => {
            let outer = b.misses.now;
            let b = b.clear_missed();
            let (b, hit) = resolve(g, b, m, g.root(), semantic_qn_spec(), 0);
            let b = b.set_semantic(hit);
            let b = b.keep_semantic_misses(outer);
            (b, hit)
        },
    }
}

/// The annotations of an element from the `k`-th on.
pub open spec fn semantic_metas(
    g: BV,
    b: RV,
    m: nat,
    elem: usize,
    sem: Option<usize>,
    k: int,
    acc: Seq<usize>,
) -> (RV, Seq<usize>)
    decreases m, 100nat, 55int, g.elements[elem as int].notes.metadata.len() - k, 1int,
{
    semantic_metas_step(g, b, m, elem, sem, k, acc)
}

/// [`semantic_metas`], spelled out.
#[verifier::opaque]
pub open spec fn semantic_metas_step(
    g: BV,
    b: RV,
    m: nat,
    elem: usize,
    sem: Option<usize>,
    k: int,
    acc: Seq<usize>,
) -> (RV, Seq<usize>)
    decreases m, 100nat, 55int, g.elements[elem as int].notes.metadata.len() - k, 0int,
{
    match sem {
        Some(d) => {
            if k >= g.metadata_count(elem) {
                (b, acc)
            } else {
                let (b, defs) = direct_typings(g, b, m, g.metadata_at(elem, k));
                let (b, next) = semantic_defs(g, b, m, defs, 0, elem, d, acc);
                semantic_metas(g, b, m, elem, sem, k + 1, next)
            }
        },
        None => {
            (b, acc)
        },
    }
}

/// The metadata definitions from the `k`-th on.
pub open spec fn semantic_defs(
    g: BV,
    b: RV,
    m: nat,
    defs: Seq<usize>,
    k: int,
    elem: usize,
    sem: usize,
    acc: Seq<usize>,
) -> (RV, Seq<usize>)
    decreases m, 100nat, 54int, defs.len() - k, 1int,
{
    semantic_defs_step(g, b, m, defs, k, elem, sem, acc)
}

/// [`semantic_defs`], spelled out.
#[verifier::opaque]
pub open spec fn semantic_defs_step(
    g: BV,
    b: RV,
    m: nat,
    defs: Seq<usize>,
    k: int,
    elem: usize,
    sem: usize,
    acc: Seq<usize>,
) -> (RV, Seq<usize>)
    decreases m, 100nat, 54int, defs.len() - k, 0int,
{
    if k >= defs.len() {
        (b, acc)
    } else {
        let (b, target) = semantic_target(g, b, m, defs[k as int], sem);
        let next = with_new_spec(acc, target, elem);
        semantic_defs(g, b, m, defs, k + 1, elem, sem, next)
    }
}

/// What the `baseType` of a semantic metadata definition refers to.
pub open spec fn semantic_target(
    g: BV,
    b: RV,
    m: nat,
    def: usize,
    sem: usize,
) -> (RV, Option<usize>)
    decreases m, 100nat, 53int, 0int, 1int,
{
    semantic_target_step(g, b, m, def, sem)
}

/// [`semantic_target`], spelled out.
#[verifier::opaque]
pub open spec fn semantic_target_step(
    g: BV,
    b: RV,
    m: nat,
    def: usize,
    sem: usize,
) -> (RV, Option<usize>)
    decreases m, 100nat, 53int, 0int, 0int,
{
    let (b, conforms) = conforms_upward(g, b, m, def, sem);
    if !conforms {
        (b, None)
    } else {
        match g.body_scope(def) {
            Some(sc) => {
                let (b, stamp) = b.next_stamp();
                let (b, hit) = lookup_at(g, b, m, sc, "baseType"@, 1, stamp, LookupAccess::All);
                match hit {
                    LookupResult::Found(bt, sub) => {
                        base_type_target(g, b, m, bt)
                    },
                    _ => {
                        (b, None)
                    },
                }
            },
            None => {
                (b, None)
            },
        }
    }
}

/// What the value of a `baseType` feature refers to.
pub open spec fn base_type_target(g: BV, b: RV, m: nat, bt: usize) -> (RV, Option<usize>)
    decreases m, 100nat, 52int, 0int, 1int,
{
    base_type_target_step(g, b, m, bt)
}

/// [`base_type_target`], spelled out.
#[verifier::opaque]
pub open spec fn base_type_target_step(g: BV, b: RV, m: nat, bt: usize) -> (RV, Option<usize>)
    decreases m, 100nat, 52int, 0int, 0int,
{
    match g.value_expr(bt) {
        Some(expr) => {
            match semantic_base_ref_spec(*expr) {
                Some(qn) => {
                    let vs = or_self_spec(g.value_scope(bt), g.root());
                    resolve(g, b, m, vs, qn, 1)
                },
                None => {
                    (b, None)
                },
            }
        },
        None => {
            (b, None)
        },
    }
}

/// The imports in force in a scope. Computed once; an import resolves with
/// the outcomes of the other ones in force, never through itself, until
/// nothing changes.
pub open spec fn import_scopes(g: BV, b: RV, m: nat, s: usize) -> (RV, Seq<OpenImport>)
    decreases m, 0nat, 30int, 0int, 1int,
{
    import_scopes_step(g, b, m, s)
}

/// [`import_scopes`], spelled out.
#[verifier::opaque]
pub open spec fn import_scopes_step(g: BV, b: RV, m: nat, s: usize) -> (RV, Seq<OpenImport>)
    decreases m, 0nat, 30int, 0int, 0int,
{
    match b.imports[s as int] {
        Some(v) => {
            let b = b.recall_imports(s);
            (b, v)
        },
        None => {
            if m == 0 {
                (b, Seq::empty())
            } else {
                let outer = b.misses.now;
                let b = b.clear_missed();
                let b = b.set_import_cache(s, no_imports_spec());
                let start = no_outcomes_spec(g.import_count(s));
                let (b, done) = import_rounds(g, b, (m - 1) as nat, s, 0, start);
                let b = b.set_import_elems(s, outcome_elems_spec(done));
                let list = open_imports_spec(done);
                let b = b.set_import_cache(s, list);
                let b = b.keep_import_misses(s, outer);
                (b, list)
            }
        },
    }
}

/// Passes over the imports from the `round`-th on: at most one more than
/// there are imports.
pub open spec fn import_rounds(
    g: BV,
    b: RV,
    m: nat,
    s: usize,
    round: int,
    outcomes: Seq<Option<Outcome>>,
) -> (RV, Seq<Option<Outcome>>)
    decreases m, 100nat, 51int, g.scopes[s as int].imports.len() - round, 1int,
{
    import_rounds_step(g, b, m, s, round, outcomes)
}

/// [`import_rounds`], spelled out.
#[verifier::opaque]
pub open spec fn import_rounds_step(
    g: BV,
    b: RV,
    m: nat,
    s: usize,
    round: int,
    outcomes: Seq<Option<Outcome>>,
) -> (RV, Seq<Option<Outcome>>)
    decreases m, 100nat, 51int, g.scopes[s as int].imports.len() - round, 0int,
{
    let (b, next) = import_pass(g, b, m, s, 0, outcomes);
    if same_outcomes_spec(next, outcomes) || round >= g.import_count(s) {
        (b, next)
    } else {
        import_rounds(g, b, m, s, round + 1, next)
    }
}

/// One pass over the imports from the `i`-th on.
pub open spec fn import_pass(
    g: BV,
    b: RV,
    m: nat,
    s: usize,
    i: int,
    outcomes: Seq<Option<Outcome>>,
) -> (RV, Seq<Option<Outcome>>)
    decreases m, 100nat, 50int, g.scopes[s as int].imports.len() - i, 1int,
{
    import_pass_step(g, b, m, s, i, outcomes)
}

/// [`import_pass`], spelled out.
#[verifier::opaque]
pub open spec fn import_pass_step(
    g: BV,
    b: RV,
    m: nat,
    s: usize,
    i: int,
    outcomes: Seq<Option<Outcome>>,
) -> (RV, Seq<Option<Outcome>>)
    decreases m, 100nat, 50int, g.scopes[s as int].imports.len() - i, 0int,
{
    if i >= g.import_count(s) {
        (b, outcomes)
    } else {
        let b = b.set_import_cache(s, other_imports_spec(outcomes, i));
        let target = g.import_target(s, i);
        let (b, hit) = resolve(g, b, m, s, target, 0);
        let o = g.outcome(hit);
        import_pass(g, b, m, s, i + 1, set_outcome_spec(outcomes, i, o))
    }
}

/// Resolve a qualified name from a scope outwards, ambiguity retained.
pub open spec fn resolve_result(
    g: BV,
    b: RV,
    m: nat,
    scope: usize,
    qn: QnV,
    depth: usize,
    allow_last: bool,
) -> (RV, LookupResult)
    decreases m, room(depth), 46int, 0int, 1int,
{
    resolve_result_step(g, b, m, scope, qn, depth, allow_last)
}

/// [`resolve_result`], spelled out.
#[verifier::opaque]
pub open spec fn resolve_result_step(
    g: BV,
    b: RV,
    m: nat,
    scope: usize,
    qn: QnV,
    depth: usize,
    allow_last: bool,
) -> (RV, LookupResult)
    decreases m, room(depth), 46int, 0int, 0int,
{
    if depth > 24 || seg_count_spec(qn) == 0 {
        (b, LookupResult::Missing)
    } else {
        let from = g.root_or(scope, qn.is_global);
        let (b, stamp) = b.next_stamp();
        resolve_up(g, b, m, scope, from, qn, depth, stamp, allow_last)
    }
}

/// The first name of a qualified name in a scope or those around it, then
/// the rest as members.
pub open spec fn resolve_up(
    g: BV,
    b: RV,
    m: nat,
    origin: usize,
    s: usize,
    qn: QnV,
    depth: usize,
    stamp: u64,
    allow_last: bool,
) -> (RV, LookupResult)
    decreases m, room(depth), 45int, s as int, 1int
    when depth <= 24 && qn.segments.len() > 0
{
    resolve_up_step(g, b, m, origin, s, qn, depth, stamp, allow_last)
}

/// [`resolve_up`], spelled out.
#[verifier::opaque]
pub open spec fn resolve_up_step(
    g: BV,
    b: RV,
    m: nat,
    origin: usize,
    s: usize,
    qn: QnV,
    depth: usize,
    stamp: u64,
    allow_last: bool,
) -> (RV, LookupResult)
    decreases m, room(depth), 45int, s as int, 0int
    when depth <= 24 && qn.segments.len() > 0
{
    let (b, hit) = lookup_at(g, b, m, s, seg_name_spec(qn, 0), depth, stamp, LookupAccess::All);
    match hit {
        LookupResult::Found(e, sub) => {
            resolve_rest(g, b, m, origin, e, sub, qn, 1, depth, allow_last)
        },
        LookupResult::Ambiguous => {
            (b, LookupResult::Ambiguous)
        },
        LookupResult::Missing => {
            match g.scope_parent(s) {
                Some(p) => {
                    if p < s {
                        resolve_up(g, b, m, origin, p, qn, depth, stamp, allow_last)
                    } else {
                        (b, LookupResult::Missing)
                    }
                },
                None => {
                    (b, LookupResult::Missing)
                },
            }
        },
    }
}

/// The names of a qualified name from the `k`-th on, each a member of the
/// element before it that the origin may access.
pub open spec fn resolve_rest(
    g: BV,
    b: RV,
    m: nat,
    origin: usize,
    elem: usize,
    scope: Option<usize>,
    qn: QnV,
    k: int,
    depth: usize,
    allow_last: bool,
) -> (RV, LookupResult)
    decreases m, room(depth), 44int, qn.segments.len() - k, 1int
    when depth <= 24
{
    resolve_rest_step(g, b, m, origin, elem, scope, qn, k, depth, allow_last)
}

/// [`resolve_rest`], spelled out.
#[verifier::opaque]
pub open spec fn resolve_rest_step(
    g: BV,
    b: RV,
    m: nat,
    origin: usize,
    elem: usize,
    scope: Option<usize>,
    qn: QnV,
    k: int,
    depth: usize,
    allow_last: bool,
) -> (RV, LookupResult)
    decreases m, room(depth), 44int, qn.segments.len() - k, 0int
    when depth <= 24
{
    if k >= seg_count_spec(qn) {
        (b, LookupResult::Found(elem, scope))
    } else {
        match scope {
            Some(sc) => {
                let (b, access) = rest_access(g, b, m, origin, sc, allow_last && k + 1 == seg_count_spec(qn));
                let (b, stamp) = b.next_stamp();
                let (b, hit) = lookup_at(
                    g,
                    b,
                    m,
                    sc,
                    seg_name_spec(qn, k),
                    (depth + 1) as usize,
                    stamp,
                    access,
                );
                match hit {
                    LookupResult::Found(e, sub) => {
                        if depth < 24 {
                            resolve_rest(g, b, m, origin, e, sub, qn, k + 1, (depth + 1) as usize, allow_last)
                        } else {
                            (b, LookupResult::Missing)
                        }
                    },
                    LookupResult::Ambiguous => {
                        (b, LookupResult::Ambiguous)
                    },
                    LookupResult::Missing => {
                        (b, LookupResult::Missing)
                    },
                }
            },
            None => {
                (b, LookupResult::Missing)
            },
        }
    }
}

/// What an origin may access in a scope: everything from inside it or for
/// the last name of an `import all`, protected members where it inherits
/// from the scope, public ones otherwise.
pub open spec fn rest_access(
    g: BV,
    b: RV,
    m: nat,
    origin: usize,
    target: usize,
    last_open: bool,
) -> (RV, LookupAccess)
    decreases m, 0nat, 37int, 0int, 1int,
{
    rest_access_step(g, b, m, origin, target, last_open)
}

/// [`rest_access`], spelled out.
#[verifier::opaque]
pub open spec fn rest_access_step(
    g: BV,
    b: RV,
    m: nat,
    origin: usize,
    target: usize,
    last_open: bool,
) -> (RV, LookupAccess)
    decreases m, 0nat, 37int, 0int, 0int,
{
    if g.scope_within(origin, target) || last_open {
        (b, LookupAccess::All)
    } else {
        let (b, p) = access_protected(g, b, m, origin, target);
        if p {
            (b, LookupAccess::Protected)
        } else {
            (b, LookupAccess::Public)
        }
    }
}

/// Whether a scope, or one around it, inherits from another.
pub open spec fn access_protected(g: BV, b: RV, m: nat, origin: usize, target: usize) -> (RV, bool)
    decreases m, 0nat, 36int, origin as int, 1int,
{
    access_protected_step(g, b, m, origin, target)
}

/// [`access_protected`], spelled out.
#[verifier::opaque]
pub open spec fn access_protected_step(
    g: BV,
    b: RV,
    m: nat,
    origin: usize,
    target: usize,
) -> (RV, bool)
    decreases m, 0nat, 36int, origin as int, 0int,
{
    let (b, hit) = reaches_base(g, b, m, origin, target);
    if hit {
        (b, true)
    } else {
        match g.scope_parent(origin) {
            Some(p) => {
                if p < origin {
                    access_protected(g, b, m, p, target)
                } else {
                    (b, false)
                }
            },
            None => {
                (b, false)
            },
        }
    }
}

/// Resolve a qualified name to an element.
pub open spec fn resolve(
    g: BV,
    b: RV,
    m: nat,
    scope: usize,
    qn: QnV,
    depth: usize,
) -> (RV, Option<usize>)
    decreases m, room(depth), 47int, 0int, 1int,
{
    resolve_step(g, b, m, scope, qn, depth)
}

/// [`resolve`], spelled out.
#[verifier::opaque]
pub open spec fn resolve_step(
    g: BV,
    b: RV,
    m: nat,
    scope: usize,
    qn: QnV,
    depth: usize,
) -> (RV, Option<usize>)
    decreases m, room(depth), 47int, 0int, 0int,
{
    let (b, hit) = resolve_result(g, b, m, scope, qn, depth, false);
    (b, hit.elem())
}

/// Resolve a member through the links of a feature chain: the first link
/// from the scope outwards, the others as members of the link before.
pub open spec fn resolve_chain(
    g: BV,
    b: RV,
    m: nat,
    scope: usize,
    links: Seq<QnV>,
    member: QnV,
) -> (RV, Option<usize>)
    decreases m, 100nat, 49int, 0int, 1int,
{
    resolve_chain_step(g, b, m, scope, links, member)
}

/// [`resolve_chain`], spelled out.
#[verifier::opaque]
pub open spec fn resolve_chain_step(
    g: BV,
    b: RV,
    m: nat,
    scope: usize,
    links: Seq<QnV>,
    member: QnV,
) -> (RV, Option<usize>)
    decreases m, 100nat, 49int, 0int, 0int,
{
    if links.len() == 0 {
        (b, None)
    } else {
        let (b, head) = resolve(g, b, m, scope, links[0 as int], 0);
        match head {
            Some(e) => {
                let rest = chain_rest_spec(links, member);
                let saved = b.exclude;
                let b = b.set_exclude(None);
                let (b, hit) = resolve_rest(g, b, m, scope, e, g.body_scope(e), rest, 0, 0, false);
                let b = b.set_exclude(saved);
                (b, hit.elem())
            },
            None => {
                (b, None)
            },
        }
    }
}

} // verus!
