//! The name table of one scope: each name with every membership that
//! contributes it.

use crate::assoc::{
    absent_from, assoc, lemma_assoc_found, lemma_assoc_missing, lemma_assoc_push,
    lemma_assoc_update,
};
use vstd::prelude::*;

verus! {

/// Visibility admitted by a lookup, and the visibility of a membership:
/// public only, public or protected, all memberships.
#[derive(Clone, Copy, Debug, PartialEq, Eq, Structural)]
pub enum LookupAccess {
    Public,
    Protected,
    All,
}

impl LookupAccess {
    /// The position in the order public < protected < all.
    pub open spec fn rank(self) -> int {
        match self {
            LookupAccess::Public => 0,
            LookupAccess::Protected => 1,
            LookupAccess::All => 2,
        }
    }

    pub fn index(self) -> (r: usize)
        ensures
            r == self.rank(),
            r < 3,
    {
        match self {
            LookupAccess::Public => 0,
            LookupAccess::Protected => 1,
            LookupAccess::All => 2,
        }
    }

    /// Whether a lookup with this access sees a membership of the given
    /// visibility.
    pub open spec fn spec_admits(self, visibility: LookupAccess) -> bool {
        self.rank() >= visibility.rank()
    }

    #[verifier::when_used_as_spec(spec_admits)]
    pub fn admits(self, visibility: LookupAccess) -> (r: bool)
        ensures
            r == self.spec_admits(visibility),
    {
        self.index() >= visibility.index()
    }

    pub open spec fn spec_inherited(self) -> LookupAccess {
        match self {
            LookupAccess::All => LookupAccess::Protected,
            other => other,
        }
    }

    /// The access with which inherited memberships are searched: private
    /// ones are not inherited.
    #[verifier::when_used_as_spec(spec_inherited)]
    pub fn inherited(self) -> (r: LookupAccess)
        ensures
            r == self.spec_inherited(),
    {
        match self {
            LookupAccess::All => LookupAccess::Protected,
            other => other,
        }
    }
}

/// A lookup with a wider access sees everything a narrower one sees, and an
/// inherited lookup never sees more than the lookup it continues.
pub proof fn law_access_is_monotone(a: LookupAccess, b: LookupAccess, v: LookupAccess)
    requires
        a.spec_admits(b),
        b.spec_admits(v),
    ensures
        a.spec_admits(v),
        b.spec_inherited().spec_admits(v) ==> b.spec_admits(v),
        !b.spec_inherited().spec_admits(LookupAccess::All),
{
}

/// One membership contributing a name: the member element, its body scope,
/// and the membership's visibility.
#[derive(Clone, Copy, Debug, PartialEq, Eq, Structural)]
pub struct Binding {
    pub elem: usize,
    pub sub_scope: Option<usize>,
    pub visibility: LookupAccess,
}

/// A name with its bindings, in registration order.
pub struct NameEntry {
    pub name: String,
    pub bindings: Vec<Binding>,
}

pub open spec fn entries_view(s: Seq<NameEntry>) -> Seq<(Seq<char>, Seq<Binding>)> {
    s.map_values(|e: NameEntry| (e.name@, e.bindings@))
}

/// A scope's names, editable.
pub struct Names {
    pub entries: Vec<NameEntry>,
}

/// No name stands in two entries.
pub open spec fn distinct_names(s: Seq<(Seq<char>, Seq<Binding>)>) -> bool {
    forall|i: int, j: int| 0 <= i < j < s.len() ==> (#[trigger] s[i]).0 != (#[trigger] s[j]).0
}

impl Names {
    /// No name stands in two entries.
    pub open spec fn wf(&self) -> bool {
        distinct_names(entries_view(self.entries@))
    }

    pub open spec fn view(&self) -> Map<Seq<char>, Seq<Binding>> {
        assoc(entries_view(self.entries@))
    }

    /// An empty table.
    pub fn new() -> (r: Names)
        ensures
            r@ == Map::<Seq<char>, Seq<Binding>>::empty(),
            r.wf(),
    {
        Names { entries: Vec::new() }
    }

    fn position(&self, name: &str) -> (r: Option<usize>)
        ensures
            match r {
                Some(i) => i < self.entries@.len() && self.entries@[i as int].name@ == name@
                    && absent_from(entries_view(self.entries@), name@, i + 1),
                None => absent_from(entries_view(self.entries@), name@, 0),
            },
    {
        let mut i: usize = self.entries.len();
        while i > 0
            invariant
                i <= self.entries@.len(),
                absent_from(entries_view(self.entries@), name@, i as int),
            decreases i,
        {
            i -= 1;
            if crate::text::str_eq(self.entries[i].name.as_str(), name) {
                return Some(i);
            }
            assert(entries_view(self.entries@)[i as int].0 != name@);
        }
        None
    }

    /// Every binding of `name`, in registration order.
    pub fn get(&self, name: &str) -> (r: Option<&Vec<Binding>>)
        ensures
            match r {
                Some(b) => self@.contains_key(name@) && self@[name@] == b@,
                None => !self@.contains_key(name@),
            },
    {
        match self.position(name) {
            Some(i) => {
                proof {
                    lemma_assoc_found(entries_view(self.entries@), name@, i as int);
                }
                Some(&self.entries[i].bindings)
            },
            None => {
                proof {
                    lemma_assoc_missing(entries_view(self.entries@), name@);
                }
                None
            },
        }
    }

    /// Add a binding for `name`, after those it already has.
    pub fn push(&mut self, name: &str, binding: Binding)
        ensures
            final(self)@ == bind(old(self)@, name@, binding),
            old(self).wf() ==> final(self).wf(),
    {
        let ghost before = entries_view(self.entries@);
        match self.position(name) {
            Some(i) => {
                proof {
                    lemma_assoc_found(before, name@, i as int);
                    lemma_assoc_update(
                        before,
                        name@,
                        i as int,
                        self.entries@[i as int].bindings@.push(binding),
                    );
                }
                self.entries[i].bindings.push(binding);
                assert(entries_view(self.entries@) =~= before.update(
                    i as int,
                    (name@, before[i as int].1.push(binding)),
                ));
            },
            None => {
                let mut bindings: Vec<Binding> = Vec::new();
                bindings.push(binding);
                proof {
                    lemma_assoc_missing(before, name@);
                    lemma_assoc_push(before, name@, seq![binding]);
                    assert(bindings@ =~= seq![binding]);
                }
                self.entries.push(NameEntry { name: name.to_owned(), bindings });
                assert(entries_view(self.entries@) =~= before.push((name@, seq![binding])));
            },
        }
    }
}

/// The table with one more binding for `name`.
pub open spec fn bind(
    m: Map<Seq<char>, Seq<Binding>>,
    name: Seq<char>,
    binding: Binding,
) -> Map<Seq<char>, Seq<Binding>> {
    if m.contains_key(name) {
        m.insert(name, m[name].push(binding))
    } else {
        m.insert(name, seq![binding])
    }
}

} // verus!
