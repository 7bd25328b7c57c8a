//! The memberships that elements inherit and import, as the walks over their
//! heritage and their imports find them.
use crate::derive_base::lists_view;
use crate::derive_lists::united;
use crate::elements::owning_from;
use crate::state::{all_below, Builder, BV};
use vstd::prelude::*;

verus! {

/// What the walks find for the elements of a graph, each at its position.
pub struct Walked {
    /// The memberships that an element inherits.
    pub inherited: Vec<Vec<usize>>,
    /// The elements that its imports bring in.
    pub members: Vec<Vec<usize>>,
    /// The alias memberships that its imports bring in.
    pub aliases: Vec<Vec<usize>>,
    /// Whether the walk over its heritage was cut short.
    pub heritage_cut: Vec<bool>,
    /// Whether the walk over its imports was cut short.
    pub imports_cut: Vec<bool>,
}

pub struct WalkedV {
    pub inherited: Seq<Seq<usize>>,
    pub members: Seq<Seq<usize>>,
    pub aliases: Seq<Seq<usize>>,
    pub heritage_cut: Seq<bool>,
    pub imports_cut: Seq<bool>,
}

impl Walked {
    pub open spec fn view(&self) -> WalkedV {
        WalkedV {
            inherited: lists_view(self.inherited@),
            members: lists_view(self.members@),
            aliases: lists_view(self.aliases@),
            heritage_cut: self.heritage_cut@,
            imports_cut: self.imports_cut@,
        }
    }
}

/// One list for each of `n` elements, of elements below `n`.
pub open spec fn lists_fit(lists: Seq<Seq<usize>>, n: nat) -> bool {
    lists.len() == n && forall|i: int| 0 <= i < n ==> all_below(#[trigger] lists[i], n)
}

impl WalkedV {
    /// There is an entry for each of `n` elements, and it is about them.
    pub open spec fn fits(self, n: nat) -> bool {
        &&& lists_fit(self.inherited, n)
        &&& lists_fit(self.members, n)
        &&& lists_fit(self.aliases, n)
        &&& self.heritage_cut.len() == n
        &&& self.imports_cut.len() == n
    }
}

/// The walks with the written heritage alone, and with the implied heritage.
pub struct Closures {
    pub written: Walked,
    pub implied: Walked,
}

/// The memberships that elements inherit and import, and for which elements
/// these are incomplete.
pub struct Walks {
    pub inherited: Vec<Vec<usize>>,
    pub imported: Vec<Vec<usize>>,
    pub cut: Vec<bool>,
}

#[verifier::ext_equal]
pub struct WalksV {
    pub inherited: Seq<Seq<usize>>,
    pub imported: Seq<Seq<usize>>,
    pub cut: Seq<bool>,
}

impl WalksV {
    pub open spec fn fits(self, n: nat) -> bool {
        &&& lists_fit(self.inherited, n)
        &&& lists_fit(self.imported, n)
        &&& self.cut.len() == n
    }
}

/// The memberships that the imports of an element bring in: those that own the
/// imported members, then the imported aliases, each once; only a namespace
/// with a body has any.
pub open spec fn imported_by(g: BV, w: WalkedV, e: usize) -> Seq<usize> {
    if g.elem_scope(e) is Some {
        united(owning_from(g, w.members[e as int], 0, Seq::empty()), w.aliases[e as int])
    } else {
        Seq::empty()
    }
}

/// Whether a walk behind the closures of an element was cut short.
pub open spec fn cut_for(g: BV, w: WalkedV, e: usize) -> bool {
    w.heritage_cut[e as int] || g.elem_scope(e) is Some && w.imports_cut[e as int]
}

/// What the walks tell of a graph's elements.
pub open spec fn walks_of(g: BV, w: WalkedV) -> WalksV {
    WalksV {
        inherited: w.inherited,
        imported: Seq::new(g.n(), |i: int| imported_by(g, w, i as usize)),
        cut: Seq::new(g.n(), |i: int| cut_for(g, w, i as usize)),
    }
}

impl WalksV {
    /// The walks with `extra` more elements, which inherit and import nothing.
    pub open spec fn padded(self, extra: nat) -> WalksV {
        let none = Seq::new(extra, |i: int| Seq::<usize>::empty());
        WalksV {
            inherited: self.inherited + none,
            imported: self.imported + none,
            cut: self.cut + Seq::new(extra, |i: int| false),
        }
    }
}

impl Walks {
    pub open spec fn view(&self) -> WalksV {
        WalksV {
            inherited: lists_view(self.inherited@),
            imported: lists_view(self.imported@),
            cut: self.cut@,
        }
    }

    /// What the walks tell of a graph's elements.
    pub fn of(g: &Builder, w: Walked) -> (r: Walks)
        requires
            g@.wf(),
            w@.fits(g@.n()),
        ensures
            r@ == walks_of(g@, w@),
            r@.fits(g@.n()),
    {
        let n: usize = g.element_count();
        let mut imported: Vec<Vec<usize>> = Vec::new();
        let mut cut: Vec<bool> = Vec::new();
        let ghost want = walks_of(g@, w@);
        assert(lists_view(imported@) =~= want.imported.take(0));
        assert(cut@ =~= want.cut.take(0));
        let mut i: usize = 0;
        while i < n
            invariant
                g@.wf(),
                w@.fits(g@.n()),
                n == g@.n(),
                want == walks_of(g@, w@),
                i <= n,
                lists_view(imported@) == want.imported.take(i as int),
                cut@ == want.cut.take(i as int),
                forall|k: int| 0 <= k < i ==> all_below(#[trigger] want.imported[k], n as nat),
            decreases n - i,
        {
            assert(w@.members[i as int] == w.members@[i as int]@);
            assert(w@.aliases[i as int] == w.aliases@[i as int]@);
            let mut y: Vec<usize> = Vec::new();
            let mut c: bool = w.heritage_cut[i];
            assert(y@ =~= Seq::<usize>::empty());
            if g.elem_scope(i).is_some() {
                y = g.brought_memberships(&w.members[i], &w.aliases[i]);
                c = c || w.imports_cut[i];
            }
            assert(y@ == want.imported[i as int]);
            assert(c == want.cut[i as int]);
            let ghost before = lists_view(imported@);
            let ghost yv = y@;
            imported.push(y);
            cut.push(c);
            assert(lists_view(imported@) =~= before.push(yv));
            assert(want.imported.take(i + 1) =~= before.push(yv));
            assert(cut@ =~= want.cut.take(i + 1));
            i += 1;
        }
        assert(want.imported.take(n as int) =~= want.imported);
        assert(want.cut.take(n as int) =~= want.cut);
        Walks { inherited: w.inherited, imported, cut }
    }

    /// Adds entries for `extra` elements that inherit and import nothing.
    pub fn pad(&mut self, extra: usize)
        ensures
            final(self)@ == old(self)@.padded(extra as nat),
            forall|n: nat| #[trigger] old(self)@.fits(n) ==> final(self)@.fits(n + extra as nat),
    {
        let mut k: usize = 0;
        assert(self@ =~= old(self)@.padded(0));
        while k < extra
            invariant
                k <= extra,
                self@ == old(self)@.padded(k as nat),
            decreases extra - k,
        {
            let ghost before = self@;
            let a: Vec<usize> = Vec::new();
            let b: Vec<usize> = Vec::new();
            assert(a@ =~= Seq::<usize>::empty());
            assert(b@ =~= Seq::<usize>::empty());
            self.inherited.push(a);
            self.imported.push(b);
            self.cut.push(false);
            assert(self@.inherited =~= before.inherited.push(Seq::empty()));
            assert(self@.imported =~= before.imported.push(Seq::empty()));
            assert(self@ =~= old(self)@.padded((k + 1) as nat));
            k += 1;
        }
        assert forall|n: nat| #[trigger] old(self)@.fits(n) implies self@.fits(n + extra as nat) by {
            assert forall|i: int| 0 <= i < n + extra implies all_below(
                #[trigger] self@.inherited[i],
                n + extra as nat,
            ) by {
                if i < n {
                    assert(all_below(old(self)@.inherited[i], n));
                }
            }
            assert forall|i: int| 0 <= i < n + extra implies all_below(
                #[trigger] self@.imported[i],
                n + extra as nat,
            ) by {
                if i < n {
                    assert(all_below(old(self)@.imported[i], n));
                }
            }
        }
    }
}

} // verus!
