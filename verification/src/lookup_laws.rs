//! What a name means in a scope, told from the scope's own records: which
//! member, alias or import answers to it, who may see it, and where a search
//! goes on.
use crate::ast::{BinaryOp, Expr, ExprKind, Literal, QnV, UnaryOp};
use crate::names::{Binding, LookupAccess};
use crate::resolution::{
    access_protected, access_protected_step, admit_import, admit_import_step, admit_member,
    admit_member_step, admits_by_import, admits_by_import_step, admits_by_member,
    admits_by_member_step, admits_by_scope, admits_by_scope_step, base_scopes, base_scopes_step,
    bases_from, bases_from_step, chain_bases_from, chain_bases_from_step, connect_verdict,
    connect_verdict_step, expr_verdict, expr_verdict_step, filter_verdict, import_pass,
    import_pass_step, import_rounds, import_rounds_step, import_scopes, import_scopes_step,
    lookup_aliases, lookup_aliases_step, lookup_at, lookup_at_step, lookup_bases,
    lookup_bases_step, lookup_body, lookup_body_step, lookup_imported, lookup_imported_step,
    lookup_imports, lookup_imports_step, lookup_members, lookup_members_step, lookup_recursive,
    lookup_recursive_step, lookup_subs, lookup_subs_step, lookup_through, lookup_through_step,
    reaches_base, resolve, resolve_rest_step, resolve_result, resolve_result_step, resolve_step,
    resolve_up_step, rest_access, rest_access_step, semantic_targets, semantic_targets_step,
    with_semantic, with_semantic_step,
};
use crate::rpure::{
    combine_spec, connective_spec, decides_spec, filter_form_spec, imports_from, literal_verdict_spec, no_hits_spec, no_outcomes_spec, open_imports_spec,
    other_imports_spec, set_outcome_spec, with_other_spec, FilterFormV, Outcome,
};
use crate::rstate::{LookupResult, OpenImport, Tri, Visit, RV};
use crate::shadow::{drop_redefined, several};
use crate::state::{ImportV, BV};
use crate::tables::law_overlap_is_symmetric;
use std::rc::Rc;
use vstd::prelude::*;

verus! {

/// Whether a member of a visibility is seen: everything from inside, all but
/// private members by heirs, public members by everyone. A private member's
/// visibility is that of those who see everything.
pub open spec fn seen_by(visibility: LookupAccess, access: LookupAccess) -> bool {
    match access {
        LookupAccess::All => true,
        LookupAccess::Protected => visibility != LookupAccess::All,
        LookupAccess::Public => visibility == LookupAccess::Public,
    }
}

/// Whether a binding answers: it is seen, and it is not the element that the
/// search leaves out.
pub open spec fn answers(x: Binding, exclude: Option<usize>, access: LookupAccess) -> bool {
    seen_by(x.visibility, access) && exclude != Some(x.elem)
}

/// Whether no binding of a table answers to a name.
pub open spec fn silent(
    table: Map<Seq<char>, Seq<Binding>>,
    name: Seq<char>,
    exclude: Option<usize>,
    access: LookupAccess,
) -> bool {
    table.contains_key(name) ==> forall|k: int|
        0 <= k < table[name].len() ==> !answers(#[trigger] table[name][k], exclude, access)
}

/// Whether the binding at `k` is the only one of a table that answers to a
/// name.
pub open spec fn sole_answer(
    table: Map<Seq<char>, Seq<Binding>>,
    name: Seq<char>,
    exclude: Option<usize>,
    access: LookupAccess,
    k: int,
) -> bool {
    &&& table.contains_key(name)
    &&& 0 <= k < table[name].len()
    &&& answers(table[name][k], exclude, access)
    &&& forall|j: int|
        0 <= j < table[name].len() && j != k ==> !answers(#[trigger] table[name][j], exclude, access)
}

/// Whether the alias at `i` of a scope stands for a name.
pub open spec fn alias_stands(g: BV, s: usize, name: Seq<char>, access: LookupAccess, i: int) -> bool {
    let a = g.scopes[s as int].aliases[i];
    a.name == name && (access == LookupAccess::Public ==> a.is_public)
}

/// Whether a member import brings in something under a name: its last name is
/// the one.
pub open spec fn brings(x: ImportV, name: Seq<char>, access: LookupAccess) -> bool {
    &&& x.target.segments.len() > 0
    &&& x.target.segments.last().value == name
    &&& access == LookupAccess::Public ==> x.is_public
}

/// Whether nothing that a scope declares itself answers to a name: no owned
/// member, none under its effective name, no alias, no implied end.
pub open spec fn undeclared(g: BV, b: RV, s: usize, name: Seq<char>, access: LookupAccess) -> bool {
    let sc = g.scopes[s as int];
    &&& silent(sc.names, name, b.exclude, access)
    &&& b.declared_only || silent(sc.effective_names, name, b.exclude, access)
    &&& forall|i: int| 0 <= i < sc.aliases.len() ==> !#[trigger] alias_stands(g, s, name, access, i)
    &&& forall|k: int|
        0 <= k < sc.implied_ends.len() ==> (#[trigger] sc.implied_ends[k]).name != name || b.exclude
            == Some(sc.implied_ends[k].elem)
}

/// Whether no member import of a scope brings in anything under a name.
pub open spec fn unbrought(g: BV, s: usize, name: Seq<char>, access: LookupAccess) -> bool {
    let sc = g.scopes[s as int];
    forall|i: int|
        0 <= i < sc.member_imports.len() ==> !brings(#[trigger] sc.member_imports[i], name, access)
}

proof fn lemma_silent(
    g: BV,
    bs: Seq<Binding>,
    access: LookupAccess,
    exclude: Option<usize>,
    k: int,
    acc: LookupResult,
)
    requires
        0 <= k <= bs.len(),
        forall|j: int| k <= j < bs.len() ==> !answers(#[trigger] bs[j], exclude, access),
    ensures
        g.binding_result(bs, access, exclude, k, acc) == acc,
    decreases bs.len() - k,
{
    if k < bs.len() {
        assert(!answers(bs[k], exclude, access));
        lemma_silent(g, bs, access, exclude, k + 1, acc);
    }
}

proof fn lemma_sole(
    g: BV,
    bs: Seq<Binding>,
    access: LookupAccess,
    exclude: Option<usize>,
    k: int,
    at: int,
)
    requires
        0 <= k <= at < bs.len(),
        answers(bs[at], exclude, access),
        forall|j: int| k <= j < bs.len() && j != at ==> !answers(#[trigger] bs[j], exclude, access),
    ensures
        g.binding_result(bs, access, exclude, k, LookupResult::Missing) == LookupResult::Found(
            bs[at].elem,
            bs[at].sub_scope,
        ),
    decreases bs.len() - k,
{
    if k < at {
        assert(!answers(bs[k], exclude, access));
        lemma_sole(g, bs, access, exclude, k + 1, at);
    } else {
        lemma_silent(
            g,
            bs,
            access,
            exclude,
            k + 1,
            LookupResult::Found(bs[at].elem, bs[at].sub_scope),
        );
    }
}

proof fn lemma_two(
    g: BV,
    bs: Seq<Binding>,
    access: LookupAccess,
    exclude: Option<usize>,
    k: int,
    acc: LookupResult,
)
    requires
        0 <= k <= bs.len(),
        acc is Ambiguous,
    ensures
        g.binding_result(bs, access, exclude, k, acc) is Ambiguous,
    decreases bs.len() - k,
{
    if k < bs.len() {
        lemma_two(g, bs, access, exclude, k + 1, acc);
    }
}

/// A scope's own member is found under its name, wherever no other member of
/// the scope has it: whatever is imported, inherited or aliased.
pub proof fn law_own_members_are_found(
    g: BV,
    b: RV,
    m: nat,
    s: usize,
    name: Seq<char>,
    depth: usize,
    stamp: u64,
    access: LookupAccess,
    k: int,
)
    requires
        depth <= 24,
        sole_answer(g.scopes[s as int].names, name, b.exclude, access, k),
    ensures
        ({
            let x = g.scopes[s as int].names[name][k];
            lookup_body(g, b, m, s, name, depth, stamp, access) == (
                b,
                LookupResult::Found(x.elem, x.sub_scope),
            )
        }),
{
    reveal(lookup_body_step);
    lemma_sole(g, g.scopes[s as int].names[name], access, b.exclude, 0, k);
}

/// Two members of one metaclass under one name are ambiguous: neither is
/// found.
pub proof fn law_namesakes_are_ambiguous(
    g: BV,
    b: RV,
    m: nat,
    s: usize,
    name: Seq<char>,
    depth: usize,
    stamp: u64,
    access: LookupAccess,
)
    requires
        depth <= 24,
        g.scopes[s as int].names.contains_key(name),
        g.scopes[s as int].names[name].len() == 2,
        ({
            let x = g.scopes[s as int].names[name][0];
            let y = g.scopes[s as int].names[name][1];
            &&& answers(x, b.exclude, access)
            &&& answers(y, b.exclude, access)
            &&& x.elem != y.elem
            &&& g.elements[x.elem as int].ty == g.elements[y.elem as int].ty
        }),
    ensures
        lookup_body(g, b, m, s, name, depth, stamp, access).1 == LookupResult::Ambiguous,
{
    reveal(lookup_body_step);
    let bs = g.scopes[s as int].names[name];
    law_overlap_is_symmetric(g.elements[bs[0].elem as int].ty, g.elements[bs[1].elem as int].ty);
    let one = LookupResult::Found(bs[0].elem, bs[0].sub_scope);
    assert(g.binding_result(bs, access, b.exclude, 0, LookupResult::Missing) == g.binding_result(
        bs,
        access,
        b.exclude,
        1,
        one,
    ));
    lemma_two(g, bs, access, b.exclude, 2, LookupResult::Ambiguous);
}

/// An unnamed member is found under its effective name where the scope owns
/// no member of that name, and searches for declared names alone pass it by.
pub proof fn law_unnamed_members_are_found(
    g: BV,
    b: RV,
    m: nat,
    s: usize,
    name: Seq<char>,
    depth: usize,
    stamp: u64,
    access: LookupAccess,
    k: int,
)
    requires
        depth <= 24,
        !b.declared_only,
        silent(g.scopes[s as int].names, name, b.exclude, access),
        sole_answer(g.scopes[s as int].effective_names, name, b.exclude, access, k),
    ensures
        ({
            let x = g.scopes[s as int].effective_names[name][k];
            lookup_body(g, b, m, s, name, depth, stamp, access).1 == LookupResult::Found(
                x.elem,
                x.sub_scope,
            )
        }),
{
    reveal(lookup_body_step);
    let sc = g.scopes[s as int];
    if sc.names.contains_key(name) {
        lemma_silent(g, sc.names[name], access, b.exclude, 0, LookupResult::Missing);
    }
    lemma_sole(g, sc.effective_names[name], access, b.exclude, 0, k);
}

proof fn lemma_no_alias(
    g: BV,
    b: RV,
    m: nat,
    s: usize,
    name: Seq<char>,
    depth: usize,
    access: LookupAccess,
    i: int,
    acc: LookupResult,
)
    requires
        depth <= 24,
        0 <= i <= g.scopes[s as int].aliases.len(),
        forall|j: int|
            i <= j < g.scopes[s as int].aliases.len() ==> !#[trigger] alias_stands(g, s, name, access, j),
    ensures
        lookup_aliases(g, b, m, s, name, depth, access, i, acc) == (b, acc),
    decreases g.scopes[s as int].aliases.len() - i,
{
    reveal(lookup_aliases_step);
    if i < g.scopes[s as int].aliases.len() {
        assert(!alias_stands(g, s, name, access, i));
        lemma_no_alias(g, b, m, s, name, depth, access, i + 1, acc);
    }
}

proof fn lemma_one_alias(
    g: BV,
    b: RV,
    m: nat,
    s: usize,
    name: Seq<char>,
    depth: usize,
    access: LookupAccess,
    i: int,
    at: int,
    e: usize,
)
    requires
        depth <= 24,
        0 <= i <= at < g.scopes[s as int].aliases.len(),
        alias_stands(g, s, name, access, at),
        forall|j: int|
            i <= j < g.scopes[s as int].aliases.len() && j != at ==> !#[trigger] alias_stands(
                g,
                s,
                name,
                access,
                j,
            ),
        resolve_result(
            g,
            b,
            m,
            s,
            g.scopes[s as int].aliases[at].target,
            (depth + 1) as usize,
            false,
        ).1 matches LookupResult::Found(x, _) && x == e,
    ensures
        lookup_aliases(g, b, m, s, name, depth, access, i, LookupResult::Missing).1
            == LookupResult::Found(e, g.elements[e as int].notes.scope),
    decreases at - i,
{
    reveal(lookup_aliases_step);
    if i < at {
        assert(!alias_stands(g, s, name, access, i));
        lemma_one_alias(g, b, m, s, name, depth, access, i + 1, at, e);
    } else {
        let target = g.scopes[s as int].aliases[at].target;
        let (c, hit) = resolve_result(g, b, m, s, target, (depth + 1) as usize, false);
        lemma_no_alias(
            g,
            c,
            m,
            s,
            name,
            depth,
            access,
            i + 1,
            LookupResult::Found(e, g.elements[e as int].notes.scope),
        );
    }
}

/// Where a scope owns no member of a name, its one alias of that name stands
/// for what the alias names.
pub proof fn law_aliases_stand_for_their_targets(
    g: BV,
    b: RV,
    m: nat,
    s: usize,
    name: Seq<char>,
    depth: usize,
    stamp: u64,
    access: LookupAccess,
    i: int,
    e: usize,
)
    requires
        depth <= 24,
        silent(g.scopes[s as int].names, name, b.exclude, access),
        b.declared_only || silent(g.scopes[s as int].effective_names, name, b.exclude, access),
        0 <= i < g.scopes[s as int].aliases.len(),
        alias_stands(g, s, name, access, i),
        forall|j: int|
            0 <= j < g.scopes[s as int].aliases.len() && j != i ==> !#[trigger] alias_stands(
                g,
                s,
                name,
                access,
                j,
            ),
        resolve_result(
            g,
            b.note_missed(s, name),
            m,
            s,
            g.scopes[s as int].aliases[i].target,
            (depth + 1) as usize,
            false,
        ).1 matches LookupResult::Found(x, _) && x == e,
    ensures
        lookup_body(g, b, m, s, name, depth, stamp, access).1 == LookupResult::Found(
            e,
            g.elements[e as int].notes.scope,
        ),
{
    reveal(lookup_body_step);
    let sc = g.scopes[s as int];
    if sc.names.contains_key(name) {
        lemma_silent(g, sc.names[name], access, b.exclude, 0, LookupResult::Missing);
    }
    if sc.effective_names.contains_key(name) && !b.declared_only {
        lemma_silent(g, sc.effective_names[name], access, b.exclude, 0, LookupResult::Missing);
    }
    lemma_one_alias(g, b.note_missed(s, name), m, s, name, depth, access, 0, i, e);
}

proof fn lemma_no_end(g: BV, exclude: Option<usize>, s: usize, name: Seq<char>, k: int, acc: LookupResult)
    requires
        0 <= k <= g.scopes[s as int].implied_ends.len(),
        forall|j: int|
            k <= j < g.scopes[s as int].implied_ends.len() ==> (
            #[trigger] g.scopes[s as int].implied_ends[j]).name != name || exclude == Some(
                g.scopes[s as int].implied_ends[j].elem,
            ),
    ensures
        g.implied_from(exclude, s, name, k, acc) == acc,
    decreases g.scopes[s as int].implied_ends.len() - k,
{
    if k < g.scopes[s as int].implied_ends.len() {
        assert(g.scopes[s as int].implied_ends[k].name != name || exclude == Some(
            g.scopes[s as int].implied_ends[k].elem,
        ));
        lemma_no_end(g, exclude, s, name, k + 1, acc);
    }
}

/// Where nothing declared answers, the search goes on with what the scope
/// imports and inherits.
proof fn lemma_undeclared(
    g: BV,
    b: RV,
    m: nat,
    s: usize,
    name: Seq<char>,
    depth: usize,
    stamp: u64,
    access: LookupAccess,
)
    requires
        depth <= 24,
        undeclared(g, b, s, name, access),
    ensures
        lookup_body(g, b, m, s, name, depth, stamp, access) == lookup_imported(
            g,
            b.note_missed(s, name),
            m,
            s,
            name,
            depth,
            stamp,
            access,
        ),
{
    reveal(lookup_body_step);
    reveal(RV::note_missed);
    let sc = g.scopes[s as int];
    if sc.names.contains_key(name) {
        lemma_silent(g, sc.names[name], access, b.exclude, 0, LookupResult::Missing);
    }
    if sc.effective_names.contains_key(name) && !b.declared_only {
        lemma_silent(g, sc.effective_names[name], access, b.exclude, 0, LookupResult::Missing);
    }
    lemma_no_alias(g, b.note_missed(s, name), m, s, name, depth, access, 0, LookupResult::Missing);
    lemma_no_end(g, b.exclude, s, name, 0, LookupResult::Missing);
}

proof fn lemma_unbrought(
    g: BV,
    b: RV,
    m: nat,
    s: usize,
    name: Seq<char>,
    depth: usize,
    access: LookupAccess,
    i: int,
    acc: LookupResult,
)
    requires
        depth <= 24,
        0 <= i <= g.scopes[s as int].member_imports.len(),
        forall|j: int|
            i <= j < g.scopes[s as int].member_imports.len() ==> !brings(
                #[trigger] g.scopes[s as int].member_imports[j],
                name,
                access,
            ),
    ensures
        lookup_members(g, b, m, s, name, depth, access, i, acc) == (b, acc),
    decreases g.scopes[s as int].member_imports.len() - i,
{
    reveal(lookup_members_step);
    if i < g.scopes[s as int].member_imports.len() {
        assert(!brings(g.scopes[s as int].member_imports[i], name, access));
        lemma_unbrought(g, b, m, s, name, depth, access, i + 1, acc);
    }
}

proof fn lemma_brought(
    g: BV,
    b: RV,
    m: nat,
    s: usize,
    name: Seq<char>,
    depth: usize,
    access: LookupAccess,
    i: int,
    at: int,
    e: usize,
)
    requires
        depth <= 24,
        0 <= i <= at < g.scopes[s as int].member_imports.len(),
        brings(g.scopes[s as int].member_imports[at], name, access),
        forall|j: int|
            i <= j < g.scopes[s as int].member_imports.len() && j != at ==> !brings(
                #[trigger] g.scopes[s as int].member_imports[j],
                name,
                access,
            ),
        !b.member_active(s, at as usize),
        ({
            let x = g.scopes[s as int].member_imports[at];
            let (c, hit) = resolve_result(
                g,
                b.enter_member(s, at as usize),
                m,
                s,
                x.target,
                (depth + 1) as usize,
                x.is_import_all,
            );
            &&& hit matches LookupResult::Found(f, _) && f == e
            &&& admits_by_member(g, c.leave_member(), m, s, at, e, depth, 0).1
        }),
    ensures
        lookup_members(g, b, m, s, name, depth, access, i, LookupResult::Missing).1
            == LookupResult::Found(e, g.elements[e as int].notes.scope),
    decreases at - i,
{
    reveal(lookup_members_step);
    if i < at {
        assert(!brings(g.scopes[s as int].member_imports[i], name, access));
        lemma_brought(g, b, m, s, name, depth, access, i + 1, at, e);
    } else {
        reveal(admit_member_step);
        let x = g.scopes[s as int].member_imports[at];
        let (c, hit) = resolve_result(
            g,
            b.enter_member(s, at as usize),
            m,
            s,
            x.target,
            (depth + 1) as usize,
            x.is_import_all,
        );
        let (d, _) = admits_by_member(g, c.leave_member(), m, s, at, e, depth, 0);
        let found = LookupResult::Found(e, g.elements[e as int].notes.scope);
        assert(admit_member(g, c.leave_member(), m, s, at, depth, LookupResult::Missing, hit) == (
            d.mark_used(x.relationship),
            found,
        ));
        lemma_unbrought(
            g,
            d.mark_used(x.relationship),
            m,
            s,
            name,
            depth,
            access,
            i + 1,
            LookupResult::Found(e, g.elements[e as int].notes.scope),
        );
    }
}

/// An import of a member brings that member into its scope: where nothing the
/// scope declares answers to a name, and one member import ends in that name,
/// the element that the import's target resolves to is found, unless a filter
/// hides it or the import is itself being resolved.
pub proof fn law_member_imports_bring_their_element(
    g: BV,
    b: RV,
    m: nat,
    s: usize,
    name: Seq<char>,
    depth: usize,
    stamp: u64,
    access: LookupAccess,
    i: int,
    e: usize,
)
    requires
        depth <= 24,
        undeclared(g, b, s, name, access),
        0 <= i < g.scopes[s as int].member_imports.len(),
        brings(g.scopes[s as int].member_imports[i], name, access),
        forall|j: int|
            0 <= j < g.scopes[s as int].member_imports.len() && j != i ==> !brings(
                #[trigger] g.scopes[s as int].member_imports[j],
                name,
                access,
            ),
        !b.note_missed(s, name).member_active(s, i as usize),
        ({
            let x = g.scopes[s as int].member_imports[i];
            let (c, hit) = resolve_result(
                g,
                b.note_missed(s, name).enter_member(s, i as usize),
                m,
                s,
                x.target,
                (depth + 1) as usize,
                x.is_import_all,
            );
            &&& hit matches LookupResult::Found(f, _) && f == e
            &&& x.filters.len() == 0 && g.scopes[s as int].filters.len() == 0 || admits_by_member(
                g,
                c.leave_member(),
                m,
                s,
                i,
                e,
                depth,
                0,
            ).1
        }),
    ensures
        lookup_body(g, b, m, s, name, depth, stamp, access).1 == LookupResult::Found(
            e,
            g.elements[e as int].notes.scope,
        ),
{
    reveal(lookup_imported_step);
    reveal(admits_by_member_step);
    reveal(admits_by_scope_step);
    lemma_undeclared(g, b, m, s, name, depth, stamp, access);
    let x = g.scopes[s as int].member_imports[i];
    let d = resolve_result(
        g,
        b.note_missed(s, name).enter_member(s, i as usize),
        m,
        s,
        x.target,
        (depth + 1) as usize,
        x.is_import_all,
    ).0.leave_member();
    if x.filters.len() == 0 && g.scopes[s as int].filters.len() == 0 {
        assert(admits_by_scope(g, d, m, s, e, depth, 0) == (d, true));
        assert(admits_by_member(g, d, m, s, i, e, depth, 0) == (d, true));
    }
    lemma_brought(g, b.note_missed(s, name), m, s, name, depth, access, 0, i, e);
}

/// What one base of a scope has under a name, its heir has too, where neither
/// the heir's own members nor its member imports answer: private members are
/// not inherited.
pub proof fn law_members_are_inherited(
    g: BV,
    b: RV,
    m: nat,
    s: usize,
    name: Seq<char>,
    depth: usize,
    stamp: u64,
    access: LookupAccess,
    base: usize,
    e: usize,
    sub: Option<usize>,
)
    requires
        depth <= 24,
        undeclared(g, b, s, name, access),
        unbrought(g, s, name, access),
        ({
            let (c, bases) = base_scopes(g, b.note_missed(s, name), m, s);
            let seen = if access == LookupAccess::Public {
                LookupAccess::Public
            } else {
                LookupAccess::Protected
            };
            &&& bases == seq![base]
            &&& lookup_at(g, c, m, base, name, (depth + 1) as usize, stamp, seen).1
                == LookupResult::Found(e, sub)
        }),
    ensures
        lookup_body(g, b, m, s, name, depth, stamp, access).1 == LookupResult::Found(e, sub),
{
    reveal(lookup_imported_step);
    reveal(lookup_bases_step);
    let d = b.note_missed(s, name);
    lemma_undeclared(g, b, m, s, name, depth, stamp, access);
    lemma_unbrought(g, d, m, s, name, depth, access, 0, LookupResult::Missing);
    let (c, bases) = base_scopes(g, d, m, s);
    let (c2, hit) = lookup_at(g, c, m, base, name, (depth + 1) as usize, stamp, access.inherited());
    let hits = seq![hit];
    assert(no_hits_spec().push(hit) =~= hits);
    assert(lookup_bases(g, c2, m, bases, name, depth, stamp, access, 1, hits) == (c2, hits));
    assert(lookup_bases(g, c, m, bases, name, depth, stamp, access, 0, no_hits_spec()) == (c2, hits));
    reveal(drop_redefined);
    assert(!several(hits));
    assert(g.merge_all(hits, 1, hit) == hit);
    assert(g.merge_all(hits, 0, LookupResult::Missing) == g.merge_all(
        hits,
        1,
        g.merge(LookupResult::Missing, hit),
    ));
}

proof fn lemma_no_bases(
    g: BV,
    b: RV,
    m: nat,
    s: usize,
    name: Seq<char>,
    depth: usize,
    stamp: u64,
    access: LookupAccess,
)
    requires
        depth <= 24,
        undeclared(g, b, s, name, access),
        unbrought(g, s, name, access),
        base_scopes(g, b.note_missed(s, name), m, s).1.len() == 0,
    ensures
        ({
            let (c, _) = base_scopes(g, b.note_missed(s, name), m, s);
            let (d, list) = import_scopes(g, c, m, s);
            lookup_body(g, b, m, s, name, depth, stamp, access) == lookup_imports(
                g,
                d,
                m,
                s,
                list,
                name,
                depth,
                stamp,
                access,
                0,
                LookupResult::Missing,
            )
        }),
{
    reveal(lookup_imported_step);
    reveal(lookup_bases_step);
    let d = b.note_missed(s, name);
    lemma_undeclared(g, b, m, s, name, depth, stamp, access);
    lemma_unbrought(g, d, m, s, name, depth, access, 0, LookupResult::Missing);
    let (c, bases) = base_scopes(g, d, m, s);
    assert(lookup_bases(g, c, m, bases, name, depth, stamp, access, 0, no_hits_spec()) == (
        c,
        no_hits_spec(),
    ));
    reveal(drop_redefined);
    assert(!several(no_hits_spec()));
}

/// An import of a namespace brings in what the namespace shows under a name:
/// its public members, or all of them for an `import all`; where nothing
/// declared, brought in by name or inherited answers. From outside, only what
/// a public import brings in is seen.
pub proof fn law_namespace_imports_bring_members(
    g: BV,
    b: RV,
    m: nat,
    s: usize,
    name: Seq<char>,
    depth: usize,
    stamp: u64,
    access: LookupAccess,
    i: usize,
    target: usize,
    e: usize,
    sub: Option<usize>,
)
    requires
        depth <= 24,
        undeclared(g, b, s, name, access),
        unbrought(g, s, name, access),
        i < g.scopes[s as int].imports.len(),
        access == LookupAccess::Public ==> g.scopes[s as int].imports[i as int].is_public,
        ({
            let x = g.scopes[s as int].imports[i as int];
            let (c, bases) = base_scopes(g, b.note_missed(s, name), m, s);
            let (d, list) = import_scopes(g, c, m, s);
            let shown = if x.is_import_all {
                LookupAccess::All
            } else {
                LookupAccess::Public
            };
            let (f, hit) = if x.recursive {
                lookup_recursive(g, d, m, target, name, (depth + 1) as usize, stamp, shown)
            } else {
                lookup_at(g, d, m, target, name, (depth + 1) as usize, stamp, shown)
            };
            &&& bases.len() == 0
            &&& list == seq![OpenImport { entry: i, scope: target }]
            &&& hit == LookupResult::Found(e, sub)
            &&& x.filters.len() == 0 && g.scopes[s as int].filters.len() == 0 || admits_by_import(
                g,
                f,
                m,
                s,
                i as int,
                e,
                depth,
                0,
            ).1
        }),
    ensures
        lookup_body(g, b, m, s, name, depth, stamp, access).1 == LookupResult::Found(e, sub),
{
    reveal(lookup_imports_step);
    reveal(lookup_through_step);
    reveal(admit_import_step);
    reveal(admits_by_import_step);
    reveal(admits_by_scope_step);
    lemma_no_bases(g, b, m, s, name, depth, stamp, access);
    let x = g.scopes[s as int].imports[i as int];
    let (c, bases) = base_scopes(g, b.note_missed(s, name), m, s);
    let (d, list) = import_scopes(g, c, m, s);
    let shown = if x.is_import_all {
        LookupAccess::All
    } else {
        LookupAccess::Public
    };
    let (f, hit) = lookup_through(
        g,
        d,
        m,
        x.recursive,
        target,
        name,
        (depth + 1) as usize,
        stamp,
        shown,
    );
    if x.filters.len() == 0 && g.scopes[s as int].filters.len() == 0 {
        assert(admits_by_scope(g, f, m, s, e, depth, 0) == (f, true));
        assert(admits_by_import(g, f, m, s, i as int, e, depth, 0) == (f, true));
    }
    let (h, next) = admit_import(g, f, m, s, i as int, depth, LookupResult::Missing, hit);
    assert(lookup_imports(g, h, m, s, list, name, depth, stamp, access, 1, next) == (h, next));
}

/// What a private import of a namespace brings in is not seen from outside.
pub proof fn law_private_imports_are_hidden(
    g: BV,
    b: RV,
    m: nat,
    s: usize,
    name: Seq<char>,
    depth: usize,
    stamp: u64,
    i: usize,
    target: usize,
)
    requires
        depth <= 24,
        undeclared(g, b, s, name, LookupAccess::Public),
        unbrought(g, s, name, LookupAccess::Public),
        !g.scopes[s as int].imports[i as int].is_public,
        ({
            let (c, bases) = base_scopes(g, b.note_missed(s, name), m, s);
            let (d, list) = import_scopes(g, c, m, s);
            &&& bases.len() == 0
            &&& list == seq![OpenImport { entry: i, scope: target }]
        }),
    ensures
        lookup_body(g, b, m, s, name, depth, stamp, LookupAccess::Public).1
            == LookupResult::Missing,
{
    reveal(lookup_imports_step);
    lemma_no_bases(g, b, m, s, name, depth, stamp, LookupAccess::Public);
    let (c, bases) = base_scopes(g, b.note_missed(s, name), m, s);
    let (d, list) = import_scopes(g, c, m, s);
    assert(lookup_imports(
        g,
        d,
        m,
        s,
        list,
        name,
        depth,
        stamp,
        LookupAccess::Public,
        1,
        LookupResult::Missing,
    ) == (d, LookupResult::Missing));
}

/// A name that nothing declares, imports or passes down is not found.
pub proof fn law_unknown_names_are_missing(
    g: BV,
    b: RV,
    m: nat,
    s: usize,
    name: Seq<char>,
    depth: usize,
    stamp: u64,
    access: LookupAccess,
)
    requires
        depth <= 24,
        undeclared(g, b, s, name, access),
        unbrought(g, s, name, access),
        ({
            let (c, bases) = base_scopes(g, b.note_missed(s, name), m, s);
            bases.len() == 0 && import_scopes(g, c, m, s).1.len() == 0
        }),
    ensures
        lookup_body(g, b, m, s, name, depth, stamp, access).1 == LookupResult::Missing,
{
    reveal(lookup_imports_step);
    lemma_no_bases(g, b, m, s, name, depth, stamp, access);
}

/// A recursive import finds a name in the namespace itself, where nothing
/// nested in it is open to the search, or else in the one namespace nested in
/// it.
pub proof fn law_recursive_imports_go_inside(
    g: BV,
    b: RV,
    m: nat,
    s: usize,
    name: Seq<char>,
    depth: usize,
    stamp: u64,
    access: LookupAccess,
    e: usize,
    sub: Option<usize>,
)
    requires
        depth < 24,
        ({
            let (c, here) = lookup_at(g, b, m, s, name, depth, stamp, access);
            let subs = g.sub_scopes(s, access);
            ||| here == LookupResult::Found(e, sub) && subs.len() == 0
            ||| here == LookupResult::Missing && subs.len() == 1 && lookup_recursive(
                g,
                c,
                m,
                subs[0],
                name,
                (depth + 1) as usize,
                stamp,
                access,
            ).1 == LookupResult::Found(e, sub)
        }),
    ensures
        lookup_recursive(g, b, m, s, name, depth, stamp, access).1 == LookupResult::Found(e, sub),
{
    reveal(lookup_recursive_step);
    reveal(lookup_subs_step);
    let (c, here) = lookup_at(g, b, m, s, name, depth, stamp, access);
    let subs = g.sub_scopes(s, access);
    if subs.len() == 1 {
        let (d, hit) = lookup_recursive(
            g,
            c,
            m,
            subs[0],
            name,
            (depth + 1) as usize,
            stamp,
            access,
        );
        assert(lookup_subs(g, d, m, subs, name, depth, stamp, access, 1, hit) == (d, hit));
    }
}

/// A scope that a search has not come to yet answers by its contents, and
/// remembers the answer for the rest of the search.
pub proof fn law_a_search_asks_a_scope_once(
    g: BV,
    b: RV,
    m: nat,
    s: usize,
    name: Seq<char>,
    depth: usize,
    stamp: u64,
    access: LookupAccess,
)
    requires
        depth <= 24,
        b.visits[s as int].at(access).stamp != stamp,
    ensures
        lookup_at(g, b, m, s, name, depth, stamp, access).1 == lookup_body(
            g,
            b.set_visit(s, access, Visit { stamp, result: None }),
            m,
            s,
            name,
            depth,
            stamp,
            access,
        ).1,
{
    reveal(lookup_at_step);
}

/// A plain name is looked up in its scope, then in the scopes around it from
/// the inside out; a global one at the root.
pub proof fn law_names_are_looked_up_outwards(
    g: BV,
    b: RV,
    m: nat,
    scope: usize,
    qn: QnV,
    depth: usize,
    allow_last: bool,
)
    requires
        depth <= 24,
        qn.segments.len() == 1,
        scope < g.scopes.len(),
    ensures
        ({
            let name = qn.segments[0].value;
            let start = if qn.is_global {
                0
            } else {
                scope
            };
            let (c, stamp) = b.next_stamp();
            let (d, here) = lookup_at(g, c, m, start, name, depth, stamp, LookupAccess::All);
            let found = resolve_result(g, b, m, scope, qn, depth, allow_last).1;
            &&& here is Found || here is Ambiguous ==> found == here
            &&& here is Missing && g.scopes[start as int].parent is None ==> found
                == LookupResult::Missing
            &&& here is Missing ==> match g.scopes[start as int].parent {
                Some(p) => {
                    let (_, around) = lookup_at(g, d, m, p, name, depth, stamp, LookupAccess::All);
                    p < start && (around is Found || around is Ambiguous) ==> found == around
                },
                None => true,
            }
        }),
{
    reveal(resolve_result_step);
    reveal(resolve_up_step);
    reveal(resolve_rest_step);
}

/// In a qualified name each further name is a member of what the one before it
/// stands for, as far as the place of the reference may see it.
pub proof fn law_qualified_names_go_through_members(
    g: BV,
    b: RV,
    m: nat,
    scope: usize,
    qn: QnV,
    depth: usize,
)
    requires
        depth < 24,
        qn.segments.len() == 2,
    ensures
        ({
            let start = if qn.is_global {
                0
            } else {
                scope
            };
            let (c, stamp) = b.next_stamp();
            let (d, first) = lookup_at(
                g,
                c,
                m,
                start,
                qn.segments[0].value,
                depth,
                stamp,
                LookupAccess::All,
            );
            match first {
                LookupResult::Found(q, Some(body)) => {
                    let (f, access) = rest_access(g, d, m, scope, body, false);
                    let (h, next) = f.next_stamp();
                    let (_, member) = lookup_at(
                        g,
                        h,
                        m,
                        body,
                        qn.segments[1].value,
                        (depth + 1) as usize,
                        next,
                        access,
                    );
                    resolve(g, b, m, scope, qn, depth).1 == (match member {
                        LookupResult::Found(e, _) => Some(e),
                        _ => None,
                    })
                },
                LookupResult::Found(_, None) => resolve(g, b, m, scope, qn, depth).1 is None,
                LookupResult::Ambiguous => resolve(g, b, m, scope, qn, depth).1 is None,
                LookupResult::Missing => true,
            }
        }),
{
    reveal(resolve_step);
    reveal(resolve_result_step);
    reveal(resolve_up_step);
    reveal(resolve_rest_step);
}

/// An element is hidden only by a condition that is false of it: without
/// conditions everything is admitted, and with one what it does not deny.
pub proof fn law_filters_hide_what_they_deny(
    g: BV,
    b: RV,
    m: nat,
    s: usize,
    i: int,
    e: usize,
    depth: usize,
)
    ensures
        ({
            let own = g.scopes[s as int].imports[i].filters;
            let shared = g.scopes[s as int].filters;
            let verdict = |f: usize| filter_verdict(g, b, m, f, e, depth).1;
            let admitted = admits_by_import(g, b, m, s, i, e, depth, 0).1;
            &&& own.len() == 0 && shared.len() == 0 ==> admitted
            &&& own.len() == 1 && shared.len() == 0 ==> admitted == (verdict(own[0]) != Tri::False)
            &&& own.len() == 0 && shared.len() == 1 ==> admitted == (verdict(shared[0]) != Tri::False)
        }),
        ({
            let own = g.scopes[s as int].member_imports[i].filters;
            let shared = g.scopes[s as int].filters;
            let verdict = |f: usize| filter_verdict(g, b, m, f, e, depth).1;
            let admitted = admits_by_member(g, b, m, s, i, e, depth, 0).1;
            &&& own.len() == 0 && shared.len() == 0 ==> admitted
            &&& own.len() == 1 && shared.len() == 0 ==> admitted == (verdict(own[0]) != Tri::False)
            &&& own.len() == 0 && shared.len() == 1 ==> admitted == (verdict(shared[0]) != Tri::False)
        }),
{
    reveal(admits_by_import_step);
    reveal(admits_by_member_step);
    reveal(admits_by_scope_step);
    let x = g.scopes[s as int].imports[i].filters;
    let y = g.scopes[s as int].member_imports[i].filters;
    let z = g.scopes[s as int].filters;
    assert(z.len() == 0 ==> admits_by_scope(g, b, m, s, e, depth, 0) == (b, true));
    if x.len() == 1 {
        let c = filter_verdict(g, b, m, x[0], e, depth).0;
        assert(z.len() == 0 ==> admits_by_scope(g, c, m, s, e, depth, 0) == (c, true));
        assert(admits_by_import(g, c, m, s, i, e, depth, 1) == admits_by_scope(
            g,
            c,
            m,
            s,
            e,
            depth,
            0,
        ));
    }
    if y.len() == 1 {
        let c = filter_verdict(g, b, m, y[0], e, depth).0;
        assert(z.len() == 0 ==> admits_by_scope(g, c, m, s, e, depth, 0) == (c, true));
        assert(admits_by_member(g, c, m, s, i, e, depth, 1) == admits_by_scope(
            g,
            c,
            m,
            s,
            e,
            depth,
            0,
        ));
    }
    if z.len() == 1 {
        let c = filter_verdict(g, b, m, z[0], e, depth).0;
        assert(admits_by_scope(g, c, m, s, e, depth, 1) == (c, true));
        assert(admits_by_scope(g, b, m, s, e, depth, 0).1 == (filter_verdict(
            g,
            b,
            m,
            z[0],
            e,
            depth,
        ).1 != Tri::False));
    }
}

/// The scopes that a scope inherits from: while nothing is known of them, the
/// body of what its owner's one specialization names, looked up from around
/// the scope; once known, what is known.
pub proof fn law_bases_are_the_bodies_of_what_is_specialized(g: BV, b: RV, m: nat, s: usize)
    requires
        m > 0,
        b.bases[s as int] is None,
        g.scopes[s as int].bases.len() == 1,
        g.scopes[s as int].chain_bases.len() == 0,
        g.scopes[s as int].owner matches Some(o) ==> g.elements[o as int].notes.metadata.len() == 0,
    ensures
        ({
            let sc = g.scopes[s as int];
            let from = match sc.parent {
                Some(p) => p,
                None => s,
            };
            let start = b.clear_missed().set_base_cache(s, Seq::empty()).set_exclude(sc.owner);
            let hit = resolve(g, start, (m - 1) as nat, from, sc.bases[0], 0).1;
            base_scopes(g, b, m, s).1 == (match hit {
                Some(t) => match g.elements[t as int].notes.scope {
                    Some(x) => if x != s {
                        seq![x]
                    } else {
                        Seq::empty()
                    },
                    None => Seq::empty(),
                },
                None => Seq::empty(),
            })
        }),
{
    reveal(base_scopes_step);
    reveal(bases_from_step);
    reveal(chain_bases_from_step);
    reveal(with_semantic_step);
    reveal(semantic_targets_step);
    let sc = g.scopes[s as int];
    let n = (m - 1) as nat;
    let from = match sc.parent {
        Some(p) => p,
        None => s,
    };
    let start = b.clear_missed().set_base_cache(s, Seq::empty()).set_exclude(sc.owner);
    let (c, hit) = resolve(g, start, n, from, sc.bases[0], 0);
    let none = Seq::<usize>::empty();
    let found = match hit {
        Some(t) => match g.elements[t as int].notes.scope {
            Some(x) => if x != s {
                seq![x]
            } else {
                none
            },
            None => none,
        },
        None => none,
    };
    assert(with_other_spec(none, g.scope_of(hit), s) =~= found);
    assert(bases_from(g, c, n, s, from, 1, found) == (c, found));
    assert(bases_from(g, start, n, s, from, 0, none) == (c, found));
    assert(chain_bases_from(g, c, n, s, from, 0, found) == (c, found));
    let d = c.set_exclude(b.clear_missed().set_base_cache(s, none).exclude);
    match sc.owner {
        Some(o) => {
            assert(semantic_targets(g, d, n, o) == (d, none));
            assert(g.with_bodies(none, s, 0, found) == found);
            assert(with_semantic(g, d, n, s, sc.owner, found) == (d, found));
        },
        None => {
            assert(with_semantic(g, d, n, s, sc.owner, found) == (d, found));
        },
    }
}

/// What was found of the bases and imports of a scope is not looked for again.
pub proof fn law_what_is_found_is_remembered(g: BV, b: RV, m: nat, s: usize)
    ensures
        b.bases[s as int] matches Some(v) ==> base_scopes(g, b, m, s).1 == v,
        b.imports[s as int] matches Some(v) ==> import_scopes(g, b, m, s).1 == v,
{
    reveal(base_scopes_step);
    reveal(import_scopes_step);
}

/// The one namespace import of a scope is in force where its target has a body:
/// it is resolved once more with what the first time told.
pub proof fn law_imports_open_the_bodies_of_their_targets(g: BV, b: RV, m: nat, s: usize)
    requires
        m > 0,
        b.imports[s as int] is None,
        g.scopes[s as int].imports.len() == 1,
    ensures
        ({
            let target = g.scopes[s as int].imports[0].target;
            let none = Seq::<OpenImport>::empty();
            let n = (m - 1) as nat;
            let start = b.clear_missed().set_import_cache(s, none).set_import_cache(s, none);
            let (c, first) = resolve(g, start, n, s, target, 0);
            let (d, second) = resolve(g, c.set_import_cache(s, none), n, s, target, 0);
            let body = |hit: Option<usize>|
                match hit {
                    Some(t) => g.elements[t as int].notes.scope,
                    None => None,
                };
            import_scopes(g, b, m, s).1 == (if body(first) is None {
                none
            } else {
                match body(second) {
                    Some(x) => seq![OpenImport { entry: 0, scope: x }],
                    None => none,
                }
            })
        }),
{
    reveal(import_scopes_step);
    reveal(import_rounds_step);
    reveal(import_pass_step);
    let target = g.scopes[s as int].imports[0].target;
    let none = Seq::<OpenImport>::empty();
    let n = (m - 1) as nat;
    let b0 = b.clear_missed().set_import_cache(s, none);
    let start = b0.set_import_cache(s, none);
    let (c, first) = resolve(g, start, n, s, target, 0);
    let (d, second) = resolve(g, c.set_import_cache(s, none), n, s, target, 0);
    let o0 = no_outcomes_spec(1);
    let o1 = set_outcome_spec(o0, 0, g.outcome(first));
    let o2 = set_outcome_spec(o1, 0, g.outcome(second));
    lemma_skipped(o0);
    lemma_skipped(o1);
    lemma_opened(o1);
    lemma_opened(o2);
    assert(import_pass(g, c, n, s, 1, o1) == (c, o1));
    assert(import_pass(g, b0, n, s, 0, o0) == (c, o1));
    assert(import_pass(g, d, n, s, 1, o2) == (d, o2));
    assert(import_pass(g, c, n, s, 0, o1) == (d, o2));
    assert(import_rounds(g, c, n, s, 1, o1) == (d, o2));
    if g.outcome(first) is None {
        assert(o1 =~= o0);
        assert(import_rounds(g, b0, n, s, 0, o0) == (c, o1));
    } else {
        assert(o1[0] != o0[0]);
        assert(import_rounds(g, b0, n, s, 0, o0) == (d, o2));
    }
}

proof fn lemma_skipped(o: Seq<Option<Outcome>>)
    requires
        o.len() == 1,
    ensures
        other_imports_spec(o, 0) == Seq::<OpenImport>::empty(),
{
    assert(imports_from(o, 0, 1) == Seq::<OpenImport>::empty());
}

proof fn lemma_opened(o: Seq<Option<Outcome>>)
    requires
        o.len() == 1,
    ensures
        open_imports_spec(o) == (match o[0] {
            Some(x) => seq![OpenImport { entry: 0, scope: x.scope }],
            None => Seq::empty(),
        }),
{
    let none = Seq::<OpenImport>::empty();
    assert(imports_from(o, -1, 1) == none);
    if let Some(x) = o[0] {
        let one = seq![OpenImport { entry: 0, scope: x.scope }];
        assert(one + none =~= one);
    }
}

/// A literal filter is decided by its value, and `not` turns a verdict round.
pub proof fn law_filters_follow_their_literals(
    g: BV,
    b: RV,
    m: nat,
    expr: Expr,
    operand: Rc<Expr>,
    scope: usize,
    elem: usize,
    depth: usize,
)
    ensures
        expr.kind == ExprKind::Literal(Literal::Bool(true)) ==> expr_verdict(
            g,
            b,
            m,
            expr,
            scope,
            elem,
            depth,
        ).1 == Tri::True,
        expr.kind == ExprKind::Literal(Literal::Bool(false)) ==> expr_verdict(
            g,
            b,
            m,
            expr,
            scope,
            elem,
            depth,
        ).1 == Tri::False,
        expr.kind == (ExprKind::Unary { op: UnaryOp::Not, operand }) ==> ({
            let inner = expr_verdict(g, b, m, *operand, scope, elem, depth).1;
            let verdict = expr_verdict(g, b, m, expr, scope, elem, depth).1;
            (inner == Tri::True <==> verdict == Tri::False) && (inner == Tri::False <==> verdict
                == Tri::True)
        }),
{
    reveal(expr_verdict_step);
    reveal(literal_verdict_spec);
}

/// `and` holds where both sides do and fails where one fails, `or` fails where
/// both sides do and holds where one holds; what neither side decides is
/// undecided.
pub proof fn law_filters_follow_their_connectives(
    g: BV,
    b: RV,
    m: nat,
    expr: Expr,
    op: BinaryOp,
    lhs: Rc<Expr>,
    rhs: Rc<Expr>,
    scope: usize,
    elem: usize,
    depth: usize,
)
    requires
        expr.kind == (ExprKind::Binary { op, lhs, rhs }),
    ensures
        ({
            let verdict = expr_verdict(g, b, m, expr, scope, elem, depth).1;
            let (c, l) = expr_verdict(g, b, m, unshared(lhs), scope, elem, depth);
            let r = expr_verdict(g, c, m, unshared(rhs), scope, elem, depth).1;
            if op == BinaryOp::CondAnd || op == BinaryOp::AndAmp {
                (verdict == Tri::True <==> l == Tri::True && r == Tri::True) && (verdict
                    == Tri::False <==> l == Tri::False || r == Tri::False)
            } else if op == BinaryOp::CondOr || op == BinaryOp::OrBar {
                (verdict == Tri::True <==> l == Tri::True || r == Tri::True) && (verdict
                    == Tri::False <==> l == Tri::False && r == Tri::False)
            } else {
                verdict == Tri::Unknown
            }
        }),
{
    reveal(expr_verdict_step);
    reveal(connect_verdict_step);
    let (x, y) = (unshared(lhs), unshared(rhs));
    let (c, l) = expr_verdict(g, b, m, x, scope, elem, depth);
    let r = expr_verdict(g, c, m, y, scope, elem, depth).1;
    if connective_spec(op) is Some {
        let conj = connective_spec(op)->0;
        let v = connect_verdict(g, b, m, conj, x, y, scope, elem, depth);
        assert(filter_form_spec(expr) == FilterFormV::Connect(conj, x, y));
        assert(expr_verdict(g, b, m, expr, scope, elem, depth) == v);
        assert(v == connect_verdict_step(g, b, m, conj, x, y, scope, elem, depth));
        assert(v.1 == (if decides_spec(conj, l) {
            l
        } else {
            combine_spec(conj, l, r)
        }));
    } else {
        assert(filter_form_spec(expr) == FilterFormV::Decided(Tri::Unknown));
    }
}

/// The expression that a shared one is.
pub open spec fn unshared(x: Rc<Expr>) -> Expr {
    *x
}

/// From inside a scope, and for the last name of an `import all`, everything in
/// it is seen; from outside, protected members by those who inherit from it, and
/// public ones by all others.
pub proof fn law_access_goes_by_place(
    g: BV,
    b: RV,
    m: nat,
    origin: usize,
    target: usize,
    last_open: bool,
)
    ensures
        ({
            let access = rest_access(g, b, m, origin, target, last_open).1;
            &&& origin == target ==> access == LookupAccess::All
            &&& last_open ==> access == LookupAccess::All
            &&& g.scopes[origin as int].parent == Some(target) && target < origin ==> access
                == LookupAccess::All
            &&& !last_open && origin != target && g.scopes[origin as int].parent is None ==> access
                == (if reaches_base(g, b, m, origin, target).1 {
                LookupAccess::Protected
            } else {
                LookupAccess::Public
            })
        }),
{
    reveal(rest_access_step);
    reveal(access_protected_step);
    assert(g.scope_within(target, target));
    if g.scopes[origin as int].parent == Some(target) && target < origin {
        assert(g.scope_within(origin, target));
    }
    if g.scopes[origin as int].parent is None {
        assert(g.scope_within(origin, target) == (origin == target));
        assert(access_protected(g, b, m, origin, target).1 == reaches_base(
            g,
            b,
            m,
            origin,
            target,
        ).1);
    }
}

} // verus!
