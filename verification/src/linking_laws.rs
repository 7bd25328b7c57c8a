//! What a reference denotes, and what is written for it.
use crate::linking::{agreed, contextual, denoted, lexical, serialized};
use crate::resolution::{resolve_chain, resolve_result};
use crate::rstate::{LookupResult, RV};
use crate::state::{PendingV, BV};
use vstd::prelude::*;

verus! {

/// A plain reference denotes what its name resolves to from the scope in which
/// it is written, the element that it is part of left out where it says so; an
/// ambiguous name denotes nothing, and is reported to be ambiguous.
pub proof fn law_references_are_resolved_where_they_are_written(b: RV, p: PendingV)
    requires
        p.chain is None,
        p.key != "importedNamespace"@,
    ensures
        ({
            let c = b.set_exclude(p.exclude).set_declared_only(false).set_declared_only(
                p.declared_only,
            );
            let hit = resolve_result(c.g, c, c.open_count(), p.scope, p.qn, 0, false).1;
            &&& denoted(b, p).1 == (match hit {
                LookupResult::Found(e, _) => Some(e),
                _ => None,
            })
            &&& denoted(b, p).2 == (hit == LookupResult::Ambiguous)
        }),
{
    reveal(denoted);
    reveal(contextual);
    reveal(lexical);
    reveal(agreed);
}

/// A step of a feature chain denotes the member of the link before it, where
/// there is one.
pub proof fn law_chain_steps_are_members_of_the_link_before(b: RV, p: PendingV)
    requires
        p.chain is Some,
        p.key != "importedNamespace"@,
    ensures
        ({
            let c = b.set_exclude(p.exclude).set_declared_only(false);
            let step = resolve_chain(c.g, c, c.open_count(), p.scope, p.chain->0, p.qn).1;
            step is Some ==> denoted(b, p).1 == step && !denoted(b, p).2
        }),
{
    reveal(denoted);
    reveal(contextual);
}

/// What is written for a reference is what it denotes, except that an import of
/// a member names the membership that owns the member, and a conjugated port
/// typing the conjugated definition.
pub proof fn law_references_are_written_as_denoted(g: BV, p: PendingV, t: usize)
    requires
        g.elements[p.elem as int].ty != "ConjugatedPortTyping"@,
    ensures
        p.key != "importedMembership"@ ==> serialized(g, p, Some(t)) == Some(t),
        p.key == "importedMembership"@ ==> serialized(g, p, Some(t)) == (match g.elements[t as int].owning {
            Some(r) => Some(r),
            None => Some(t),
        }),
        serialized(g, p, None) is None,
{
    reveal(serialized);
}

/// A conjugated port typing is written with the conjugated definition of the
/// port definition that it denotes.
pub proof fn law_conjugated_typings_name_the_conjugate(g: BV, p: PendingV, t: usize, c: usize)
    requires
        g.elements[p.elem as int].ty == "ConjugatedPortTyping"@,
        p.key == "type"@,
        g.elements[t as int].notes.conjugated == Some(c),
    ensures
        serialized(g, p, Some(t)) == Some(c),
{
    reveal(serialized);
    reveal_strlit("type");
    reveal_strlit("importedMembership");
    assert("type"@.len() != "importedMembership"@.len());
}

} // verus!
