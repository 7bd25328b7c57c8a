//! Whether the user's top-level names collide with those of the library.
use crate::ast::{Identification, Member, MemberKind, ModelUnit, Name, UsageDetail};
use crate::libcache::texts;
use crate::text::str_eq;
use vstd::prelude::*;

verus! {

/// The identification that a top-level member declares a name with.
pub open spec fn declares(m: Member) -> Option<Identification> {
    match m.kind {
        MemberKind::Package(p) => Some(p.id),
        MemberKind::Definition(d) => Some(d.id),
        MemberKind::Usage(u) => Some(u.declaration.id),
        MemberKind::Alias(a) => Some(a.id),
        _ => None,
    }
}

pub open spec fn has_name(id: Identification, name: Seq<char>) -> bool {
    ||| (id.name is Some && id.name->0.value@ == name)
    ||| (id.short_name is Some && id.short_name->0.value@ == name)
}

pub open spec fn member_declares(m: Member, name: Seq<char>) -> bool {
    declares(m) is Some && has_name(declares(m)->0, name)
}

/// Whether a library unit, or a user unit, declares a top-level name.
pub open spec fn top_declares(units: Seq<ModelUnit>, lib: bool, name: Seq<char>) -> bool {
    exists|i: int, k: int|
        0 <= i < units.len() && 0 <= k < (#[trigger] units[i]).unit.members@.len() && units[i].is_library == lib
            && member_declares(#[trigger] units[i].unit.members@[k], name)
}

/// Whether some top-level name is declared both by the library and by the
/// user.
pub open spec fn shadows(units: Seq<ModelUnit>) -> bool {
    exists|name: Seq<char>|
        #[trigger] top_declares(units, true, name) && top_declares(units, false, name)
}

fn identification(m: &Member) -> (r: Option<&Identification>)
    ensures
        match r {
            Some(id) => declares(*m) == Some(*id),
            None => declares(*m) is None,
        },
{
    match &m.kind {
        MemberKind::Package(p) => Some(&p.id),
        MemberKind::Definition(d) => Some(&d.id),
        MemberKind::Usage(u) => Some(&u.declaration.id),
        MemberKind::Alias(a) => Some(&a.id),
        _ => None,
    }
}

fn is_named(n: &Option<Name>, name: &str) -> (r: bool)
    ensures
        r == (n is Some && n->0.value@ == name@),
{
    match n {
        Some(x) => str_eq(x.value.as_str(), name),
        None => false,
    }
}

fn names_member(m: &Member, name: &str) -> (r: bool)
    ensures
        r == member_declares(*m, name@),
{
    match identification(m) {
        Some(id) => is_named(&id.name, name) || is_named(&id.short_name, name),
        None => false,
    }
}

fn declared_at_top(units: &Vec<ModelUnit>, lib: bool, name: &str) -> (r: bool)
    ensures
        r == top_declares(units@, lib, name@),
{
    let n: usize = units.len();
    let mut i: usize = 0;
    while i < n
        invariant
            n == units@.len(),
            i <= n,
            forall|a: int, b: int|
                0 <= a < i && 0 <= b < (#[trigger] units@[a]).unit.members@.len()
                    && units@[a].is_library == lib ==> !member_declares(
                    #[trigger] units@[a].unit.members@[b],
                    name@,
                ),
        decreases n - i,
    {
        if units[i].is_library == lib {
            let members: &Vec<Member> = &units[i].unit.members;
            let m: usize = members.len();
            let mut k: usize = 0;
            while k < m
                invariant
                    n == units@.len(),
                    i < n,
                    units@[i as int].is_library == lib,
                    *members == units@[i as int].unit.members,
                    m == members@.len(),
                    k <= m,
                    forall|b: int|
                        0 <= b < k ==> !member_declares(
                            #[trigger] units@[i as int].unit.members@[b],
                            name@,
                        ),
                decreases m - k,
            {
                if names_member(&members[k], name) {
                    assert(member_declares(units@[i as int].unit.members@[k as int], name@));
                    return true;
                }
                k += 1;
            }
        }
        i += 1;
    }
    false
}

/// Whether a name of a library member is also declared by the user.
fn name_clashes(units: &Vec<ModelUnit>, n: &Option<Name>) -> (r: bool)
    ensures
        r == (n is Some && top_declares(units@, false, n->0.value@)),
{
    match n {
        Some(x) => declared_at_top(units, false, x.value.as_str()),
        None => false,
    }
}

/// Whether a library member declares a name that the user declares too.
pub open spec fn member_clashes(units: Seq<ModelUnit>, m: Member) -> bool {
    exists|name: Seq<char>| #[trigger] member_declares(m, name) && top_declares(units, false, name)
}

fn clashes(units: &Vec<ModelUnit>, m: &Member) -> (r: bool)
    ensures
        r == member_clashes(units@, *m),
{
    match identification(m) {
        Some(id) => {
            let a: bool = name_clashes(units, &id.name);
            let b: bool = name_clashes(units, &id.short_name);
            proof {
                if a {
                    assert(member_declares(*m, id.name->0.value@));
                }
                if b {
                    assert(member_declares(*m, id.short_name->0.value@));
                }
            }
            a || b
        },
        None => false,
    }
}

/// Whether some user unit declares a top-level name of a library unit: the
/// one situation in which recorded library outcomes may not hold.
pub fn top_level_shadowing(units: &Vec<ModelUnit>) -> (r: bool)
    ensures
        r == shadows(units@),
{
    let n: usize = units.len();
    let mut i: usize = 0;
    while i < n
        invariant
            n == units@.len(),
            i <= n,
            forall|a: int, b: int|
                0 <= a < i && 0 <= b < (#[trigger] units@[a]).unit.members@.len()
                    && units@[a].is_library ==> !member_clashes(
                    units@,
                    #[trigger] units@[a].unit.members@[b],
                ),
        decreases n - i,
    {
        if units[i].is_library {
            let members: &Vec<Member> = &units[i].unit.members;
            let m: usize = members.len();
            let mut k: usize = 0;
            while k < m
                invariant
                    n == units@.len(),
                    i < n,
                    units@[i as int].is_library,
                    *members == units@[i as int].unit.members,
                    m == members@.len(),
                    k <= m,
                    forall|b: int|
                        0 <= b < k ==> !member_clashes(
                            units@,
                            #[trigger] units@[i as int].unit.members@[b],
                        ),
                decreases m - k,
            {
                if clashes(units, &members[k]) {
                    proof {
                        let m = units@[i as int].unit.members@[k as int];
                        let name = choose|name: Seq<char>| #[trigger]
                            member_declares(m, name) && top_declares(units@, false, name);
                        assert(top_declares(units@, true, name));
                    }
                    return true;
                }
                k += 1;
            }
        }
        i += 1;
    }
    proof {
        if shadows(units@) {
            let name = choose|name: Seq<char>| #[trigger]
                top_declares(units@, true, name) && top_declares(units@, false, name);
            let (a, b) = choose|a: int, b: int|
                0 <= a < units@.len() && 0 <= b < (#[trigger] units@[a]).unit.members@.len()
                    && units@[a].is_library == true && member_declares(
                    #[trigger] units@[a].unit.members@[b],
                    name,
                );
            assert(member_clashes(units@, units@[a].unit.members@[b]));
        }
    }
    false
}

/// Whether a top-level member can bring a name into the root namespace. One
/// that declares a name brings that name; an import, an unnamed member and
/// every other kind may bring any.
pub open spec fn member_introduces(m: Member, name: Seq<char>) -> bool {
    match declares(m) {
        Some(id) => id.name is None || has_name(id, name),
        None => true,
    }
}

/// Whether the user's units can bring a name into the root namespace.
pub open spec fn top_introduces(units: Seq<ModelUnit>, name: Seq<char>) -> bool {
    exists|i: int, k: int|
        0 <= i < units.len() && 0 <= k < (#[trigger] units[i]).unit.members@.len()
            && !units[i].is_library && member_introduces(#[trigger] units[i].unit.members@[k], name)
}

/// Whether the user's units can bring one of some names into the root
/// namespace.
pub open spec fn introduces(units: Seq<ModelUnit>, names: Seq<Seq<char>>) -> bool {
    exists|j: int| 0 <= j < names.len() && top_introduces(units, #[trigger] names[j])
}

fn brings_name(m: &Member, name: &str) -> (r: bool)
    ensures
        r == member_introduces(*m, name@),
{
    match identification(m) {
        Some(id) => id.name.is_none() || is_named(&id.name, name) || is_named(&id.short_name, name),
        None => true,
    }
}

fn introduced_at_top(units: &Vec<ModelUnit>, name: &str) -> (r: bool)
    ensures
        r == top_introduces(units@, name@),
{
    let n: usize = units.len();
    let mut i: usize = 0;
    while i < n
        invariant
            n == units@.len(),
            i <= n,
            forall|a: int, b: int|
                0 <= a < i && 0 <= b < (#[trigger] units@[a]).unit.members@.len()
                    && !units@[a].is_library ==> !member_introduces(
                    #[trigger] units@[a].unit.members@[b],
                    name@,
                ),
        decreases n - i,
    {
        if !units[i].is_library {
            let members: &Vec<Member> = &units[i].unit.members;
            let m: usize = members.len();
            let mut k: usize = 0;
            while k < m
                invariant
                    n == units@.len(),
                    i < n,
                    !units@[i as int].is_library,
                    *members == units@[i as int].unit.members,
                    m == members@.len(),
                    k <= m,
                    forall|b: int|
                        0 <= b < k ==> !member_introduces(
                            #[trigger] units@[i as int].unit.members@[b],
                            name@,
                        ),
                decreases m - k,
            {
                if brings_name(&members[k], name) {
                    assert(member_introduces(units@[i as int].unit.members@[k as int], name@));
                    return true;
                }
                k += 1;
            }
        }
        i += 1;
    }
    false
}

/// Whether the user's units can bring one of some names into the root
/// namespace.
pub fn introduces_any(units: &Vec<ModelUnit>, names: &Vec<String>) -> (r: bool)
    ensures
        r == introduces(units@, texts(names@)),
{
    let n: usize = names.len();
    let mut j: usize = 0;
    while j < n
        invariant
            n == names@.len(),
            j <= n,
            forall|i: int| 0 <= i < j ==> !top_introduces(units@, #[trigger] texts(names@)[i]),
        decreases n - j,
    {
        assert(texts(names@)[j as int] == names@[j as int]@);
        if introduced_at_top(units, names[j].as_str()) {
            return true;
        }
        j += 1;
    }
    assert(texts(names@).len() == n);
    false
}

/// Whether a top-level member can declare a name in the root namespace that
/// its own identification does not tell: the payload of an action, or a member
/// of a kind that declares names in other places.
pub open spec fn declares_more(m: Member) -> bool {
    match m.kind {
        MemberKind::Package(_) => false,
        MemberKind::Import(_) => false,
        MemberKind::Alias(_) => false,
        MemberKind::Comment(_) => false,
        MemberKind::Doc(_) => false,
        MemberKind::TextualRep(_) => false,
        MemberKind::Filter(_) => false,
        MemberKind::Definition(_) => false,
        MemberKind::Dependency(_) => false,
        MemberKind::Relationship(_) => false,
        MemberKind::Usage(u) => !(u.detail is Plain),
        _ => true,
    }
}

/// Whether some top-level member of the user's units declares more than its
/// identification tells.
pub open spec fn unsettled(units: Seq<ModelUnit>) -> bool {
    exists|i: int, k: int|
        0 <= i < units.len() && 0 <= k < (#[trigger] units[i]).unit.members@.len()
            && !units[i].is_library && declares_more(#[trigger] units[i].unit.members@[k])
}

/// Whether the outcomes of a library's references hold in a model: its top
/// level neither declares a name of the library's nor can hide one.
pub open spec fn replayable(units: Seq<ModelUnit>) -> bool {
    !shadows(units) && !unsettled(units)
}

fn tells_less(m: &Member) -> (r: bool)
    ensures
        r == declares_more(*m),
{
    match &m.kind {
        MemberKind::Package(_) => false,
        MemberKind::Import(_) => false,
        MemberKind::Alias(_) => false,
        MemberKind::Comment(_) => false,
        MemberKind::Doc(_) => false,
        MemberKind::TextualRep(_) => false,
        MemberKind::Filter(_) => false,
        MemberKind::Definition(_) => false,
        MemberKind::Dependency(_) => false,
        MemberKind::Relationship(_) => false,
        MemberKind::Usage(u) => match &u.detail {
            UsageDetail::Plain => false,
            _ => true,
        },
        _ => true,
    }
}

fn is_unsettled(units: &Vec<ModelUnit>) -> (r: bool)
    ensures
        r == unsettled(units@),
{
    let n: usize = units.len();
    let mut i: usize = 0;
    while i < n
        invariant
            n == units@.len(),
            i <= n,
            forall|a: int, b: int|
                0 <= a < i && 0 <= b < (#[trigger] units@[a]).unit.members@.len()
                    && !units@[a].is_library ==> !declares_more(
                    #[trigger] units@[a].unit.members@[b],
                ),
        decreases n - i,
    {
        if !units[i].is_library {
            let members: &Vec<Member> = &units[i].unit.members;
            let m: usize = members.len();
            let mut k: usize = 0;
            while k < m
                invariant
                    n == units@.len(),
                    i < n,
                    !units@[i as int].is_library,
                    *members == units@[i as int].unit.members,
                    m == members@.len(),
                    k <= m,
                    forall|b: int|
                        0 <= b < k ==> !declares_more(#[trigger] units@[i as int].unit.members@[b]),
                decreases m - k,
            {
                if tells_less(&members[k]) {
                    assert(declares_more(units@[i as int].unit.members@[k as int]));
                    return true;
                }
                k += 1;
            }
        }
        i += 1;
    }
    false
}

/// Whether the outcomes of a library's references hold in a model.
pub fn is_replayable(units: &Vec<ModelUnit>) -> (r: bool)
    ensures
        r == replayable(units@),
{
    !top_level_shadowing(units) && !is_unsettled(units)
}

} // verus!
