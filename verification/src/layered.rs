//! Immutable library prefixes with private, copy-on-write overrides and
//! append-only model tails. Copying a prepared table shares its prefix.
//!
//! The tables are read by reference only. A pass that needs owned rows copies
//! the rows it selects, never a whole table, so the shared prefix is never
//! duplicated behind a by-value loop.
use std::collections::hash_map::Entry;
use std::collections::HashMap;
use std::hash::Hash;
use std::sync::Arc;
use vstd::prelude::*;
use vstd::std_specs::hash::{obeys_key_model, EntrySpecFns};

verus! {

/// A row list: a shared prefix, private overrides of its rows, and a tail.
pub struct LayeredVec<T> {
    base: Arc<Vec<T>>,
    changed: Vec<Option<Box<T>>>,
    tail: Vec<T>,
}

/// `Arc::ptr_eq`: whether two handles name one allocation. Two such handles
/// read the same rows; handles that differ may still hold equal rows, and
/// nothing is claimed of those.
#[verifier::external_body]
fn same_allocation<T>(a: &Arc<Vec<T>>, b: &Arc<Vec<T>>) -> (r: bool)
    ensures
        r ==> a@ == b@,
{
    Arc::ptr_eq(a, b)
}

impl<T> LayeredVec<T> {
    /// The rows of the shared prefix, before any override.
    pub closed spec fn prefix(&self) -> Seq<T> {
        self.base@
    }

    /// The row at `i`: the tail beyond the prefix, an override where there is
    /// one, the shared row otherwise.
    pub closed spec fn row(&self, i: int) -> T {
        if i >= self.base@.len() {
            self.tail@[i - self.base@.len()]
        } else if i < self.changed@.len() && self.changed@[i] is Some {
            *self.changed@[i]->0
        } else {
            self.base@[i]
        }
    }

    pub closed spec fn spec_len(&self) -> nat {
        self.base@.len() + self.tail@.len()
    }

    /// The rows in order.
    pub open spec fn view(&self) -> Seq<T> {
        Seq::new(self.spec_len(), |i: int| self.row(i))
    }

    /// Overrides are either absent or one slot per shared row, and the row
    /// count can be told.
    pub closed spec fn wf(&self) -> bool {
        &&& self.changed@.len() == 0 || self.changed@.len() == self.base@.len()
        &&& self.base@.len() + self.tail@.len() <= usize::MAX
    }

    /// Whether every row is shared: no override, no tail.
    pub closed spec fn is_frozen(&self) -> bool {
        self.tail@.len() == 0 && self.changed@.len() == 0
    }

    pub fn from_rows(tail: Vec<T>) -> (r: LayeredVec<T>)
        ensures
            r.wf(),
            r@ == tail@,
            r.prefix() == Seq::<T>::empty(),
    {
        let n: usize = tail.len();
        let r = LayeredVec { base: Arc::new(Vec::new()), changed: Vec::new(), tail };
        assert(n == tail@.len() && r.base@.len() == 0);
        assert(r@ =~= tail@);
        assert(r.prefix() =~= Seq::<T>::empty());
        r
    }

    pub fn len(&self) -> (r: usize)
        requires
            self.wf(),
        ensures
            r == self@.len(),
    {
        self.base.len() + self.tail.len()
    }

    pub fn is_empty(&self) -> (r: bool)
        requires
            self.wf(),
        ensures
            r == (self@.len() == 0),
    {
        self.len() == 0
    }

    /// The row at `i`.
    pub fn index(&self, i: usize) -> (r: &T)
        requires
            self.wf(),
            i < self@.len(),
        ensures
            *r == self@[i as int],
    {
        if i < self.base.len() {
            if i < self.changed.len() {
                if let Some(row) = &self.changed[i] {
                    return row;
                }
            }
            &self.base[i]
        } else {
            &self.tail[i - self.base.len()]
        }
    }

    pub fn get(&self, i: usize) -> (r: Option<&T>)
        requires
            self.wf(),
        ensures
            r is Some <==> i < self@.len(),
            r is Some ==> *r->0 == self@[i as int],
    {
        if i < self.len() {
            Some(self.index(i))
        } else {
            None
        }
    }

    pub fn push(&mut self, value: T)
        requires
            old(self).wf(),
            old(self)@.len() < usize::MAX,
        ensures
            final(self).wf(),
            final(self)@ == old(self)@.push(value),
            final(self).prefix() == old(self).prefix(),
    {
        self.tail.push(value);
        assert(self@ =~= old(self)@.push(value));
    }

    /// The rows by reference, in order.
    pub fn iter(&self) -> (r: Vec<&T>)
        requires
            self.wf(),
        ensures
            r@.len() == self@.len(),
            forall|i: int| 0 <= i < r@.len() ==> *#[trigger] r@[i] == self@[i],
    {
        let mut out: Vec<&T> = Vec::new();
        let mut i: usize = 0;
        let n: usize = self.len();
        while i < n
            invariant
                self.wf(),
                n == self@.len(),
                i <= n,
                out@.len() == i,
                forall|j: int| 0 <= j < i ==> *#[trigger] out@[j] == self@[j],
            decreases n - i,
        {
            out.push(self.index(i));
            i += 1;
        }
        out
    }

    /// Whether both tables share one prefix allocation. Only then are the
    /// prefixes known to agree.
    pub fn shares_prefix(&self, other: &Self) -> (r: bool)
        ensures
            r ==> self.prefix() == other.prefix(),
    {
        same_allocation(&self.base, &other.base)
    }
}

impl<T: Clone> LayeredVec<T> {
    /// Writes the row at `i`; a shared row gets a private override, the
    /// prefix stays.
    pub fn set(&mut self, i: usize, value: T)
        requires
            old(self).wf(),
            i < old(self)@.len(),
        ensures
            final(self).wf(),
            final(self)@ == old(self)@.update(i as int, value),
            final(self).prefix() == old(self).prefix(),
    {
        let n: usize = self.base.len();
        if i < n {
            if self.changed.len() == 0 {
                let mut k: usize = 0;
                while k < n
                    invariant
                        k <= n,
                        n == self.base@.len(),
                        self.changed@.len() == k,
                        self.base == old(self).base,
                        self.tail == old(self).tail,
                        forall|j: int| 0 <= j < k ==> (#[trigger] self.changed@[j]) is None,
                    decreases n - k,
                {
                    self.changed.push(None);
                    k += 1;
                }
            }
            self.changed.set(i, Some(Box::new(value)));
        } else {
            self.tail.set(i - n, value);
        }
        assert(self@ =~= old(self)@.update(i as int, value));
    }

    /// Makes the current rows the shared prefix. Rows are copied only where a
    /// prefix is already there; a first freeze moves them.
    pub fn freeze(&mut self)
        requires
            old(self).wf(),
        ensures
            final(self).wf(),
            final(self).prefix() == final(self)@,
            final(self)@.len() == old(self)@.len(),
            forall|i: int|
                0 <= i < old(self)@.len() ==> cloned(old(self)@[i], #[trigger] final(self)@[i]),
            old(self).prefix().len() == 0 ==> final(self)@ == old(self)@,
            old(self).is_frozen() ==> *final(self) == *old(self),
            final(self).is_frozen(),
    {
        if self.tail.len() == 0 && self.changed.len() == 0 {
            assert(self.prefix() =~= self@);
            return;
        }
        if self.base.len() == 0 {
            let mut rows: Vec<T> = Vec::new();
            std::mem::swap(&mut rows, &mut self.tail);
            self.base = Arc::new(rows);
            self.changed.clear();
            assert(self.prefix() =~= self@);
            assert(self@ =~= old(self)@);
        } else {
            let mut rows: Vec<T> = Vec::new();
            let n: usize = self.len();
            let mut i: usize = 0;
            while i < n
                invariant
                    self.wf(),
                    *self == *old(self),
                    n == self@.len(),
                    i <= n,
                    rows@.len() == i,
                    forall|j: int| 0 <= j < i ==> cloned(self@[j], #[trigger] rows@[j]),
                decreases n - i,
            {
                rows.push(self.index(i).clone());
                i += 1;
            }
            self.base = Arc::new(rows);
            self.tail.clear();
            self.changed.clear();
            assert(self.prefix() =~= self@);
        }
    }

    /// Appends copies of `value` up to `n` rows.
    pub fn resize(&mut self, n: usize, value: T)
        requires
            old(self).wf(),
            n >= old(self)@.len(),
        ensures
            final(self).wf(),
            final(self)@.len() == n,
            final(self).prefix() == old(self).prefix(),
            forall|i: int| 0 <= i < old(self)@.len() ==> #[trigger] final(self)@[i] == old(self)@[i],
            forall|i: int|
                old(self)@.len() <= i < n ==> cloned(value, #[trigger] final(self)@[i]),
    {
        while self.len() < n
            invariant
                self.wf(),
                old(self)@.len() <= self@.len() <= n,
                self.prefix() == old(self).prefix(),
                forall|i: int| 0 <= i < old(self)@.len() ==> #[trigger] self@[i] == old(self)@[i],
                forall|i: int|
                    old(self)@.len() <= i < self@.len() ==> cloned(value, #[trigger] self@[i]),
            decreases n - self@.len(),
        {
            self.push(value.clone());
        }
    }
}

impl<T: Clone> Clone for LayeredVec<T> {
    /// The copy shares the prefix and copies only the overrides and the tail.
    fn clone(&self) -> (r: Self)
        ensures
            r.prefix() == self.prefix(),
            self.wf() ==> r.wf(),
            r@.len() == self@.len(),
            forall|i: int| 0 <= i < self@.len() ==> cloned(self@[i], #[trigger] r@[i]),
    {
        let mut changed: Vec<Option<Box<T>>> = Vec::new();
        let n: usize = self.changed.len();
        let mut i: usize = 0;
        while i < n
            invariant
                n == self.changed@.len(),
                i <= n,
                changed@.len() == i,
                forall|j: int|
                    0 <= j < i ==> match self.changed@[j] {
                        Some(row) => #[trigger] changed@[j] is Some && cloned(*row, *changed@[j]->0),
                        None => changed@[j] is None,
                    },
            decreases n - i,
        {
            match &self.changed[i] {
                Some(row) => {
                    let copy: T = (**row).clone();
                    changed.push(Some(Box::new(copy)));
                },
                None => changed.push(None),
            }
            i += 1;
        }
        let mut tail: Vec<T> = Vec::new();
        let m: usize = self.tail.len();
        let mut k: usize = 0;
        while k < m
            invariant
                m == self.tail@.len(),
                k <= m,
                tail@.len() == k,
                forall|j: int| 0 <= j < k ==> cloned(self.tail@[j], #[trigger] tail@[j]),
            decreases m - k,
        {
            tail.push(self.tail[k].clone());
            k += 1;
        }
        let r = LayeredVec { base: Arc::clone(&self.base), changed, tail };
        assert forall|j: int| 0 <= j < self@.len() implies cloned(self@[j], #[trigger] r@[j]) by {
            if j < self.base@.len() && j < self.changed@.len() {
                assert(changed@[j] is Some || changed@[j] is None);
            }
        }
        r
    }
}

/// Lookup table with an immutable library base and a private model table.
pub struct LayeredMap<K, V> {
    base: Arc<HashMap<K, V>>,
    local: HashMap<K, V>,
}

/// `HashMap::extend`: every row of `more` is inserted, in place of a row
/// already there under its key.
#[verifier::external_body]
fn extend_map<K: Eq + Hash, V>(map: &mut HashMap<K, V>, more: HashMap<K, V>)
    requires
        obeys_key_model::<K>(),
    ensures
        final(map)@ == old(map)@.union_prefer_right(more@),
{
    map.extend(more)
}

/// Whether a row list holds a row under `k`.
pub open spec fn lists_key<K, V>(rows: Seq<(&K, &V)>, k: K) -> bool {
    exists|i: int| 0 <= i < rows.len() && *(#[trigger] rows[i]).0 == k
}

/// Whether a row list holds rows of `m` only, no key twice.
pub open spec fn rows_of<K, V>(rows: Seq<(&K, &V)>, m: Map<K, V>) -> bool {
    &&& forall|i: int|
        0 <= i < rows.len() ==> m.contains_key(*(#[trigger] rows[i]).0) && m[*rows[i].0]
            == *rows[i].1
    &&& forall|i: int, j: int|
        0 <= i < j < rows.len() ==> *(#[trigger] rows[i]).0 != *(#[trigger] rows[j]).0
}

proof fn lemma_lists_more<K, V>(rows: Seq<(&K, &V)>, row: (&K, &V))
    ensures
        forall|k: K| #[trigger] lists_key(rows, k) ==> lists_key(rows.push(row), k),
        lists_key(rows.push(row), *row.0),
{
    assert forall|k: K| #[trigger] lists_key(rows, k) implies lists_key(rows.push(row), k) by {
        let i = choose|i: int| 0 <= i < rows.len() && *(#[trigger] rows[i]).0 == k;
        assert(rows.push(row)[i] == rows[i]);
    }
    assert(rows.push(row)[rows.len() as int] == row);
}

/// One more row of a key-unique list keeps the lists in step.
proof fn lemma_step<K, V>(
    before: Seq<(&K, &V)>,
    after: Seq<(&K, &V)>,
    rows: Seq<(&K, &V)>,
    n: int,
    hidden: Map<K, V>,
)
    requires
        0 <= n < rows.len(),
        after == (if hidden.contains_key(*rows[n].0) { before } else { before.push(rows[n]) }),
        forall|j: int| 0 <= j < n && !hidden.contains_key(*(#[trigger] rows[j]).0) ==> lists_key(before, *rows[j].0),
        forall|i: int| 0 <= i < before.len() ==> lists_key(rows.take(n), *(#[trigger] before[i]).0),
    ensures
        forall|j: int| 0 <= j < n + 1 && !hidden.contains_key(*(#[trigger] rows[j]).0) ==> lists_key(after, *rows[j].0),
        forall|i: int| 0 <= i < after.len() ==> lists_key(rows.take(n + 1), *(#[trigger] after[i]).0),
{
    assert forall|j: int| 0 <= j < n + 1 && !hidden.contains_key(*(#[trigger] rows[j]).0) implies lists_key(after, *rows[j].0) by {
        if j < n {
            let i = choose|i: int| 0 <= i < before.len() && *(#[trigger] before[i]).0 == *rows[j].0;
            assert(*after[i].0 == *rows[j].0);
        } else {
            assert(*after[before.len() as int].0 == *rows[j].0);
        }
    }
    assert forall|i: int| 0 <= i < after.len() implies lists_key(rows.take(n + 1), *(#[trigger] after[i]).0) by {
        if i < before.len() {
            assert(after[i] == before[i]);
            let j = choose|j: int| 0 <= j < n && *(#[trigger] rows.take(n)[j]).0 == *before[i].0;
            assert(*rows.take(n + 1)[j].0 == *after[i].0);
        } else {
            assert(*rows.take(n + 1)[n].0 == *after[i].0);
        }
    }
}

impl<K, V> LayeredMap<K, V> {
    /// The rows of the shared base.
    pub closed spec fn shared(&self) -> Map<K, V> {
        self.base@
    }

    /// The rows of the private table.
    pub closed spec fn private(&self) -> Map<K, V> {
        self.local@
    }

    /// The table as read: a private row covers a shared one.
    pub open spec fn view(&self) -> Map<K, V> {
        self.shared().union_prefer_right(self.private())
    }
}

impl<K: Eq + Hash, V> LayeredMap<K, V> {
    pub fn new() -> (r: LayeredMap<K, V>)
        ensures
            r@ == Map::<K, V>::empty(),
            r.shared() == Map::<K, V>::empty(),
    {
        let r = LayeredMap { base: Arc::new(HashMap::new()), local: HashMap::new() };
        assert(r@ =~= Map::<K, V>::empty());
        r
    }

    pub fn get(&self, key: &K) -> (r: Option<&V>)
        requires
            obeys_key_model::<K>(),
        ensures
            r is Some <==> self@.contains_key(*key),
            r is Some ==> *r->0 == self@[*key],
    {
        broadcast use vstd::std_specs::hash::group_hash_axioms;

        match self.local.get(key) {
            Some(v) => Some(v),
            None => self.base.get(key),
        }
    }

    pub fn insert(&mut self, key: K, value: V)
        requires
            obeys_key_model::<K>(),
        ensures
            final(self)@ == old(self)@.insert(key, value),
            final(self).shared() == old(self).shared(),
    {
        broadcast use vstd::std_specs::hash::group_hash_axioms;

        self.local.insert(key, value);
        assert(self@ =~= old(self)@.insert(key, value));
    }

    pub fn contains_key(&self, k: &K) -> (r: bool)
        requires
            obeys_key_model::<K>(),
        ensures
            r == self@.contains_key(*k),
    {
        broadcast use vstd::std_specs::hash::group_hash_axioms;

        self.local.contains_key(k) || self.base.contains_key(k)
    }

    /// Every row once, by reference, in no particular order.
    pub fn iter(&self) -> (r: Vec<(&K, &V)>)
        requires
            obeys_key_model::<K>(),
        ensures
            rows_of(r@, self@),
            forall|k: K| #[trigger] self@.contains_key(k) ==> lists_key(r@, k),
    {
        broadcast use vstd::std_specs::hash::group_hash_axioms;

        let mut out: Vec<(&K, &V)> = Vec::new();
        for (k, v) in it: self.base.iter()
            invariant
                obeys_key_model::<K>(),
                it.seq().no_duplicates(),
                forall|j: int| 0 <= j < it.seq().len() ==> self.base@.contains_key(*(#[trigger] it.seq()[j]).0) && self.base@[*it.seq()[j].0] == *it.seq()[j].1,
                forall|k: K| #[trigger] self.base@.contains_key(k) ==> it.seq().contains((&k, &self.base@[k])),
                rows_of(out@, self.base@.remove_keys(self.local@.dom())),
                forall|j: int|
                    0 <= j < it.index() && !self.local@.contains_key(*(#[trigger] it.seq()[j]).0)
                        ==> lists_key(out@, *it.seq()[j].0),
                forall|i: int|
                    0 <= i < out@.len() ==> lists_key(
                        it.seq().take(it.index()),
                        *(#[trigger] out@[i]).0,
                    ),
        {
            broadcast use vstd::std_specs::hash::group_hash_axioms;

            let ghost before = out@;
            let ghost n = it.index();
            if !self.local.contains_key(k) {
                out.push((k, v));
            }
            proof {
                lemma_step(before, out@, it.seq(), n, self.local@);
            }
        }
        let ghost upper = out@;
        assert forall|k: K| #[trigger] self.base@.contains_key(k) && !self.local@.contains_key(k) implies lists_key(upper, k) by {}
        for (k, v) in it: self.local.iter()
            invariant
                obeys_key_model::<K>(),
                it.seq().no_duplicates(),
                forall|j: int| 0 <= j < it.seq().len() ==> self.local@.contains_key(*(#[trigger] it.seq()[j]).0) && self.local@[*it.seq()[j].0] == *it.seq()[j].1,
                forall|k: K| #[trigger] self.local@.contains_key(k) ==> it.seq().contains((&k, &self.local@[k])),
                rows_of(upper, self.base@.remove_keys(self.local@.dom())),
                rows_of(out@.skip(upper.len() as int), self.local@),
                out@ == upper + it.seq().take(it.index()),
                forall|j: int| 0 <= j < it.index() ==> lists_key(out@, *(#[trigger] it.seq()[j]).0),
        {
            let ghost before = out@;
            out.push((k, v));
            proof {
                lemma_lists_more(before, (k, v));
                assert(out@ =~= upper + it.seq().take(it.index() + 1));
            }
        }
        assert forall|k: K| #[trigger] self@.contains_key(k) implies lists_key(out@, k) by {
            if self.local@.contains_key(k) {
                assert(lists_key(out@, k));
            } else {
                let i = choose|i: int| 0 <= i < upper.len() && *(#[trigger] upper[i]).0 == k;
                assert(out@[i] == upper[i]);
            }
        }
        out
    }
}

impl<K: Eq + Hash, V> LayeredMap<K, V> {
    /// Every key once, by reference, in no particular order.
    pub fn keys(&self) -> (r: Vec<&K>)
        requires
            obeys_key_model::<K>(),
        ensures
            forall|i: int| 0 <= i < r@.len() ==> self@.contains_key(*#[trigger] r@[i]),
            forall|i: int, j: int| 0 <= i < j < r@.len() ==> *#[trigger] r@[i] != *#[trigger] r@[j],
            forall|k: K| #[trigger] self@.contains_key(k) ==> exists|i: int| 0 <= i < r@.len() && *#[trigger] r@[i] == k,
    {
        let rows: Vec<(&K, &V)> = self.iter();
        let mut out: Vec<&K> = Vec::new();
        let n: usize = rows.len();
        let mut i: usize = 0;
        while i < n
            invariant
                n == rows@.len(),
                i <= n,
                out@.len() == i,
                forall|j: int| 0 <= j < i ==> *#[trigger] out@[j] == *rows@[j].0,
            decreases n - i,
        {
            out.push(rows[i].0);
            i += 1;
        }
        assert forall|k: K| #[trigger] self@.contains_key(k) implies exists|i: int|
            0 <= i < out@.len() && *#[trigger] out@[i] == k by {
            assert(lists_key(rows@, k));
            let i = choose|i: int| 0 <= i < rows@.len() && *(#[trigger] rows@[i]).0 == k;
            assert(*out@[i] == k);
        }
        out
    }
}

impl<K: Eq + Hash + Clone, V: Clone> LayeredMap<K, V> {
    /// Makes the current rows the shared base. Other handles on the former
    /// base keep it as it was.
    pub fn freeze(&mut self)
        requires
            obeys_key_model::<K>(),
        ensures
            final(self)@ == old(self)@,
            final(self).shared() == old(self)@,
            final(self).private() == Map::<K, V>::empty(),
            old(self).private() == Map::<K, V>::empty() ==> *final(self) == *old(self),
    {
        broadcast use vstd::std_specs::hash::group_hash_axioms;

        if self.local.is_empty() {
            assert(self.local@ =~= Map::<K, V>::empty());
            assert(self.shared() =~= old(self)@);
            return;
        }
        let mut local: HashMap<K, V> = HashMap::new();
        std::mem::swap(&mut local, &mut self.local);
        if self.base.is_empty() {
            self.base = Arc::new(local);
        } else {
            let mut rows: HashMap<K, V> = (*self.base).clone();
            extend_map(&mut rows, local);
            self.base = Arc::new(rows);
        }
        assert(self.shared() =~= old(self)@);
        assert(self@ =~= old(self)@);
    }

    /// The private row under `k` for editing in place; a shared row is copied
    /// up first, so the shared base stays as it is.
    pub fn entry(&mut self, k: K) -> (r: Entry<'_, K, V>)
        requires
            obeys_key_model::<K>(),
        ensures
            r.spec_key() == k,
            r.value() is Some <==> old(self)@.contains_key(k),
            r.value() is Some ==> r.value()->0 == old(self)@[k] || cloned(
                old(self)@[k],
                r.value()->0,
            ),
            final(self).shared() == old(self).shared(),
            final(self)@ =~= (match r.final_value() {
                Some(v) => old(self)@.insert(k, v),
                None => if old(self).shared().contains_key(k) {
                    old(self)@.insert(k, old(self).shared()[k])
                } else {
                    old(self)@.remove(k)
                },
            }),
            !old(self)@.contains_key(k) && r.final_value() is None ==> final(self)@ == old(self)@,
    {
        broadcast use vstd::std_specs::hash::group_hash_axioms;

        match self.local.entry(k) {
            Entry::Occupied(row) => Entry::Occupied(row),
            Entry::Vacant(row) => match self.base.get(row.key()) {
                Some(value) => Entry::Occupied(row.insert_entry(value.clone())),
                None => Entry::Vacant(row),
            },
        }
    }
}

impl<K: Clone, V: Clone> Clone for LayeredMap<K, V> {
    /// The copy shares the base and copies only the private rows.
    fn clone(&self) -> (r: Self)
        ensures
            r@ == self@,
            r.shared() == self.shared(),
    {
        LayeredMap { base: Arc::clone(&self.base), local: self.local.clone() }
    }
}

} // verus!
