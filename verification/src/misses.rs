//! Which names of the root namespace a search looked up and missed.
use crate::libcache::{text_lists, texts};
use crate::rstate::{Resolver, RV};
use crate::text::str_eq;
use vstd::prelude::*;

verus! {

/// The missed names: those of the search at hand, and those that the memoized
/// imports, bases and the semantic metadata definition were found with.
pub struct Misses {
    pub now: Vec<String>,
    pub imports: Vec<Vec<String>>,
    pub bases: Vec<Vec<String>>,
    pub semantic: Vec<String>,
}

#[verifier::ext_equal]
pub struct MissesV {
    pub now: Seq<Seq<char>>,
    pub imports: Seq<Seq<Seq<char>>>,
    pub bases: Seq<Seq<Seq<char>>>,
    pub semantic: Seq<Seq<char>>,
}

impl Misses {
    pub open spec fn view(&self) -> MissesV {
        MissesV {
            now: texts(self.now@),
            imports: text_lists(self.imports@),
            bases: text_lists(self.bases@),
            semantic: texts(self.semantic@),
        }
    }
}

/// No misses, for `ns` scopes.
pub open spec fn no_misses(ns: nat) -> MissesV {
    MissesV {
        now: Seq::empty(),
        imports: Seq::new(ns, |i: int| Seq::empty()),
        bases: Seq::new(ns, |i: int| Seq::empty()),
        semantic: Seq::empty(),
    }
}

/// The names with one more, unless it is among them.
pub open spec fn with_name(names: Seq<Seq<char>>, name: Seq<char>) -> Seq<Seq<char>> {
    if names.contains(name) {
        names
    } else {
        names.push(name)
    }
}

/// The names with those of `more` from `k` on.
pub open spec fn with_names(names: Seq<Seq<char>>, more: Seq<Seq<char>>, k: int) -> Seq<Seq<char>>
    decreases more.len() - k,
    when 0 <= k
{
    if k >= more.len() {
        names
    } else {
        with_names(with_name(names, more[k]), more, k + 1)
    }
}

impl RV {
    /// A name that the root namespace has no member of, if the scope is the
    /// root.
    #[verifier::opaque]
    pub open spec fn note_missed(self, s: usize, name: Seq<char>) -> RV {
        if s == 0 {
            RV { misses: MissesV { now: with_name(self.misses.now, name), ..self.misses }, ..self }
        } else {
            self
        }
    }

    /// Nothing missed yet.
    #[verifier::opaque]
    pub open spec fn clear_missed(self) -> RV {
        RV { misses: MissesV { now: Seq::empty(), ..self.misses }, ..self }
    }

    /// What was missed for a scope's imports counts for the search around too.
    #[verifier::opaque]
    pub open spec fn keep_import_misses(self, s: usize, outer: Seq<Seq<char>>) -> RV {
        RV {
            misses: MissesV {
                now: with_names(outer, self.misses.now, 0),
                imports: self.misses.imports.update(s as int, self.misses.now),
                ..self.misses
            },
            ..self
        }
    }

    /// What was missed for a scope's bases counts for the search around too.
    #[verifier::opaque]
    pub open spec fn keep_base_misses(self, s: usize, outer: Seq<Seq<char>>) -> RV {
        RV {
            misses: MissesV {
                now: with_names(outer, self.misses.now, 0),
                bases: self.misses.bases.update(s as int, self.misses.now),
                ..self.misses
            },
            ..self
        }
    }

    /// What was missed for the semantic metadata definition counts for the
    /// search around too.
    #[verifier::opaque]
    pub open spec fn keep_semantic_misses(self, outer: Seq<Seq<char>>) -> RV {
        RV {
            misses: MissesV {
                now: with_names(outer, self.misses.now, 0),
                semantic: self.misses.now,
                ..self.misses
            },
            ..self
        }
    }

    /// Memoized imports count with what they were found with.
    #[verifier::opaque]
    pub open spec fn recall_imports(self, s: usize) -> RV {
        RV {
            misses: MissesV {
                now: with_names(self.misses.now, self.misses.imports[s as int], 0),
                ..self.misses
            },
            ..self
        }
    }

    /// Memoized bases count with what they were found with.
    #[verifier::opaque]
    pub open spec fn recall_bases(self, s: usize) -> RV {
        RV {
            misses: MissesV {
                now: with_names(self.misses.now, self.misses.bases[s as int], 0),
                ..self.misses
            },
            ..self
        }
    }

    /// The memoized semantic metadata definition counts with what it was found
    /// with.
    #[verifier::opaque]
    pub open spec fn recall_semantic(self) -> RV {
        RV {
            misses: MissesV {
                now: with_names(self.misses.now, self.misses.semantic, 0),
                ..self.misses
            },
            ..self
        }
    }
}

fn push_name(names: &mut Vec<String>, name: &str)
    ensures
        texts(final(names)@) == with_name(texts(old(names)@), name@),
{
    let n: usize = names.len();
    let mut k: usize = 0;
    while k < n
        invariant
            n == names@.len(),
            names@ == old(names)@,
            k <= n,
            forall|j: int| 0 <= j < k ==> #[trigger] texts(names@)[j] != name@,
        decreases n - k,
    {
        assert(texts(names@)[k as int] == names@[k as int]@);
        if str_eq(names[k].as_str(), name) {
            return;
        }
        k += 1;
    }
    let ghost before = texts(names@);
    assert(!before.contains(name@));
    names.push(name.to_owned());
    assert(texts(names@) =~= before.push(name@));
}

fn push_names(names: &mut Vec<String>, more: &Vec<String>)
    ensures
        texts(final(names)@) == with_names(texts(old(names)@), texts(more@), 0),
{
    let n: usize = more.len();
    let mut k: usize = 0;
    while k < n
        invariant
            n == more@.len(),
            k <= n,
            with_names(texts(names@), texts(more@), k as int) == with_names(
                texts(old(names)@),
                texts(more@),
                0,
            ),
        decreases n - k,
    {
        assert(texts(more@)[k as int] == more@[k as int]@);
        push_name(names, more[k].as_str());
        k += 1;
    }
}

pub fn copy_names(names: &Vec<String>) -> (r: Vec<String>)
    ensures
        texts(r@) == texts(names@),
{
    let mut out: Vec<String> = Vec::new();
    let n: usize = names.len();
    let mut k: usize = 0;
    while k < n
        invariant
            n == names@.len(),
            k <= n,
            texts(out@) == texts(names@).take(k as int),
        decreases n - k,
    {
        let ghost before = texts(out@);
        out.push(names[k].clone());
        assert(texts(out@) =~= before.push(names@[k as int]@));
        assert(texts(names@).take(k + 1) =~= before.push(names@[k as int]@));
        k += 1;
    }
    assert(texts(names@).take(n as int) =~= texts(names@));
    out
}

fn no_lists(n: usize) -> (r: Vec<Vec<String>>)
    ensures
        text_lists(r@) == Seq::new(n as nat, |i: int| Seq::<Seq<char>>::empty()),
{
    let mut r: Vec<Vec<String>> = Vec::new();
    while r.len() < n
        invariant
            r@.len() <= n,
            forall|i: int| 0 <= i < r@.len() ==> (#[trigger] r@[i])@.len() == 0,
        decreases n - r@.len(),
    {
        r.push(Vec::new());
    }
    assert forall|i: int| 0 <= i < n implies #[trigger] text_lists(r@)[i] == Seq::<Seq<char>>::empty() by {
        assert(r@[i]@.len() == 0);
        assert(texts(r@[i]@) =~= Seq::<Seq<char>>::empty());
    }
    assert(text_lists(r@) =~= Seq::new(n as nat, |i: int| Seq::<Seq<char>>::empty()));
    r
}

impl Misses {
    pub fn new(ns: usize) -> (r: Misses)
        ensures
            r@ == no_misses(ns as nat),
    {
        let r = Misses {
            now: Vec::new(),
            imports: no_lists(ns),
            bases: no_lists(ns),
            semantic: Vec::new(),
        };
        assert(r@.now =~= Seq::<Seq<char>>::empty());
        assert(r@.semantic =~= Seq::<Seq<char>>::empty());
        r
    }
}

/// Everything but the misses stays.
pub open spec fn but_misses(a: RV, b: RV) -> bool {
    &&& b == (RV { misses: b.misses, ..a })
    &&& b.misses.imports.len() == a.misses.imports.len()
    &&& b.misses.bases.len() == a.misses.bases.len()
}

proof fn lemma_but_misses(a: RV, b: RV)
    requires
        a.wf(),
        but_misses(a, b),
    ensures
        b.wf(),
        b.g == a.g,
        b.lib_boundary == a.lib_boundary,
        b.open_count() == a.open_count(),
        b.imports == a.imports,
        b.bases == a.bases,
{
    reveal(RV::wf);
    assert forall|t: int| 0 <= t < b.ns() implies b.imports_ok(t, #[trigger] b.imports[t]) by {
        assert(a.imports_ok(t, a.imports[t]));
    }
}

impl Resolver {
    /// The names missed so far.
    pub fn missed(&self) -> (r: Vec<String>)
        ensures
            texts(r@) == self@.misses.now,
    {
        proof {
            reveal(Resolver::view);
        }
        copy_names(&self.misses.now)
    }

    pub fn note_missed(&mut self, s: usize, name: &str)
        requires
            old(self)@.wf(),
        ensures
            final(self)@ == old(self)@.note_missed(s, name@),
            final(self)@.wf(),
            final(self)@.g == old(self)@.g,
            final(self)@.lib_boundary == old(self)@.lib_boundary,
            final(self)@.open_count() == old(self)@.open_count(),
            final(self)@.imports == old(self)@.imports,
            final(self)@.bases == old(self)@.bases,
    {
        proof {
            reveal(Resolver::view);
            reveal(RV::wf);
            reveal(RV::note_missed);
        }
        if s == 0 {
            push_name(&mut self.misses.now, name);
        }
        assert(self@ =~= old(self)@.note_missed(s, name@));
        proof {
            lemma_but_misses(old(self)@, self@);
        }
    }

    pub fn clear_missed(&mut self)
        requires
            old(self)@.wf(),
        ensures
            final(self)@ == old(self)@.clear_missed(),
            final(self)@.wf(),
            final(self)@.g == old(self)@.g,
            final(self)@.lib_boundary == old(self)@.lib_boundary,
            final(self)@.open_count() == old(self)@.open_count(),
            final(self)@.imports == old(self)@.imports,
            final(self)@.bases == old(self)@.bases,
    {
        proof {
            reveal(Resolver::view);
            reveal(RV::wf);
            reveal(RV::clear_missed);
        }
        self.misses.now = Vec::new();
        assert(self@.misses.now =~= Seq::<Seq<char>>::empty());
        assert(self@ =~= old(self)@.clear_missed());
        proof {
            lemma_but_misses(old(self)@, self@);
        }
    }

    pub fn keep_import_misses(&mut self, s: usize, outer: Vec<String>)
        requires
            old(self)@.wf(),
            s < old(self)@.ns(),
        ensures
            final(self)@ == old(self)@.keep_import_misses(s, texts(outer@)),
            final(self)@.wf(),
            final(self)@.g == old(self)@.g,
            final(self)@.lib_boundary == old(self)@.lib_boundary,
            final(self)@.open_count() == old(self)@.open_count(),
            final(self)@.imports == old(self)@.imports,
            final(self)@.bases == old(self)@.bases,
    {
        proof {
            reveal(Resolver::view);
            reveal(RV::wf);
            reveal(RV::keep_import_misses);
        }
        let mut all: Vec<String> = outer;
        push_names(&mut all, &self.misses.now);
        let here: Vec<String> = copy_names(&self.misses.now);
        let ghost hv = texts(here@);
        self.misses.imports.set(s, here);
        self.misses.now = all;
        assert(text_lists(self.misses.imports@) =~= text_lists(old(self).misses.imports@).update(
            s as int,
            hv,
        ));
        assert(self@ =~= old(self)@.keep_import_misses(s, texts(outer@)));
        proof {
            lemma_but_misses(old(self)@, self@);
        }
    }

    pub fn keep_base_misses(&mut self, s: usize, outer: Vec<String>)
        requires
            old(self)@.wf(),
            s < old(self)@.ns(),
        ensures
            final(self)@ == old(self)@.keep_base_misses(s, texts(outer@)),
            final(self)@.wf(),
            final(self)@.g == old(self)@.g,
            final(self)@.lib_boundary == old(self)@.lib_boundary,
            final(self)@.open_count() == old(self)@.open_count(),
            final(self)@.imports == old(self)@.imports,
            final(self)@.bases == old(self)@.bases,
    {
        proof {
            reveal(Resolver::view);
            reveal(RV::wf);
            reveal(RV::keep_base_misses);
        }
        let mut all: Vec<String> = outer;
        push_names(&mut all, &self.misses.now);
        let here: Vec<String> = copy_names(&self.misses.now);
        let ghost hv = texts(here@);
        self.misses.bases.set(s, here);
        self.misses.now = all;
        assert(text_lists(self.misses.bases@) =~= text_lists(old(self).misses.bases@).update(
            s as int,
            hv,
        ));
        assert(self@ =~= old(self)@.keep_base_misses(s, texts(outer@)));
        proof {
            lemma_but_misses(old(self)@, self@);
        }
    }

    pub fn keep_semantic_misses(&mut self, outer: Vec<String>)
        requires
            old(self)@.wf(),
        ensures
            final(self)@ == old(self)@.keep_semantic_misses(texts(outer@)),
            final(self)@.wf(),
            final(self)@.g == old(self)@.g,
            final(self)@.lib_boundary == old(self)@.lib_boundary,
            final(self)@.open_count() == old(self)@.open_count(),
            final(self)@.imports == old(self)@.imports,
            final(self)@.bases == old(self)@.bases,
    {
        proof {
            reveal(Resolver::view);
            reveal(RV::wf);
            reveal(RV::keep_semantic_misses);
        }
        let mut all: Vec<String> = outer;
        push_names(&mut all, &self.misses.now);
        self.misses.semantic = copy_names(&self.misses.now);
        self.misses.now = all;
        assert(self@ =~= old(self)@.keep_semantic_misses(texts(outer@)));
        proof {
            lemma_but_misses(old(self)@, self@);
        }
    }

    pub fn recall_imports(&mut self, s: usize)
        requires
            old(self)@.wf(),
            s < old(self)@.ns(),
        ensures
            final(self)@ == old(self)@.recall_imports(s),
            final(self)@.wf(),
            final(self)@.g == old(self)@.g,
            final(self)@.lib_boundary == old(self)@.lib_boundary,
            final(self)@.open_count() == old(self)@.open_count(),
            final(self)@.imports == old(self)@.imports,
            final(self)@.bases == old(self)@.bases,
    {
        proof {
            reveal(Resolver::view);
            reveal(RV::wf);
            reveal(RV::recall_imports);
        }
        assert(self@.misses.imports[s as int] == texts(self.misses.imports@[s as int]@));
        push_names(&mut self.misses.now, &self.misses.imports[s]);
        assert(self@ =~= old(self)@.recall_imports(s));
        proof {
            lemma_but_misses(old(self)@, self@);
        }
    }

    pub fn recall_bases(&mut self, s: usize)
        requires
            old(self)@.wf(),
            s < old(self)@.ns(),
        ensures
            final(self)@ == old(self)@.recall_bases(s),
            final(self)@.wf(),
            final(self)@.g == old(self)@.g,
            final(self)@.lib_boundary == old(self)@.lib_boundary,
            final(self)@.open_count() == old(self)@.open_count(),
            final(self)@.imports == old(self)@.imports,
            final(self)@.bases == old(self)@.bases,
    {
        proof {
            reveal(Resolver::view);
            reveal(RV::wf);
            reveal(RV::recall_bases);
        }
        assert(self@.misses.bases[s as int] == texts(self.misses.bases@[s as int]@));
        push_names(&mut self.misses.now, &self.misses.bases[s]);
        assert(self@ =~= old(self)@.recall_bases(s));
        proof {
            lemma_but_misses(old(self)@, self@);
        }
    }

    pub fn recall_semantic(&mut self)
        requires
            old(self)@.wf(),
        ensures
            final(self)@ == old(self)@.recall_semantic(),
            final(self)@.wf(),
            final(self)@.g == old(self)@.g,
            final(self)@.lib_boundary == old(self)@.lib_boundary,
            final(self)@.open_count() == old(self)@.open_count(),
            final(self)@.imports == old(self)@.imports,
            final(self)@.bases == old(self)@.bases,
    {
        proof {
            reveal(Resolver::view);
            reveal(RV::wf);
            reveal(RV::recall_semantic);
        }
        push_names(&mut self.misses.now, &self.misses.semantic);
        assert(self@ =~= old(self)@.recall_semantic());
        proof {
            lemma_but_misses(old(self)@, self@);
        }
    }
}

} // verus!
