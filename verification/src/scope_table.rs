//! Scope lookup tables as stored: per scope two rows of names, sorted, each
//! with a range of one shared list of bindings.
use crate::assoc::{assoc, lemma_assoc_found, lemma_assoc_missing};
use crate::names::{distinct_names, entries_view, Binding, NameEntry, Names};
use crate::text::{chars_of, str_eq};
use std::sync::Arc;
use vstd::prelude::*;

verus! {

/// A name of a row, and where its bindings stand.
pub struct NameRow {
    pub text: String,
    pub start: usize,
    pub end: usize,
}

pub struct NameRowV {
    pub text: Seq<char>,
    pub start: int,
    pub end: int,
}

impl NameRow {
    pub open spec fn view(&self) -> NameRowV {
        NameRowV { text: self.text@, start: self.start as int, end: self.end as int }
    }
}

pub open spec fn row_view(s: Seq<NameRow>) -> Seq<NameRowV> {
    s.map_values(|r: NameRow| r@)
}

pub open spec fn row_views(s: Seq<Vec<NameRow>>) -> Seq<Seq<NameRowV>> {
    s.map_values(|r: Vec<NameRow>| row_view(r@))
}

/// Why stored tables are refused.
#[derive(Clone, Copy, Debug, PartialEq, Eq, Structural)]
pub enum TableError {
    /// Not two rows for every scope.
    RowCount,
    /// A row whose names are not in strictly rising order.
    Order,
    /// A range that does not follow the one before it within the bindings.
    Range,
    /// Bindings that no range covers.
    Unused,
}

/// Whether a text comes before another, character by character.
pub open spec fn text_before(a: Seq<char>, b: Seq<char>, k: int) -> bool
    decreases a.len() - k,
    when 0 <= k
{
    if k >= b.len() {
        false
    } else if k >= a.len() {
        true
    } else if a[k] != b[k] {
        a[k] < b[k]
    } else {
        text_before(a, b, k + 1)
    }
}

/// Whether the names of a row rise from `k` on.
pub open spec fn rising(row: Seq<NameRowV>, k: int) -> bool
    decreases row.len() - k,
    when 0 <= k
{
    k + 1 >= row.len() || (text_before(row[k].text, row[k + 1].text, 0) && rising(row, k + 1))
}

/// Where the ranges of a row from `k` on end, where each follows the one
/// before it and stays within `len` bindings.
pub open spec fn ranges_end(row: Seq<NameRowV>, k: int, end: int, len: int) -> Option<int>
    decreases row.len() - k,
    when 0 <= k
{
    if k >= row.len() {
        Some(end)
    } else if row[k].start != end || row[k].end < row[k].start || row[k].end > len {
        None
    } else {
        ranges_end(row, k + 1, row[k].end, len)
    }
}

/// What the rows from `r` on come to.
pub open spec fn rows_end(
    rows: Seq<Seq<NameRowV>>,
    r: int,
    end: int,
    len: int,
) -> Result<int, TableError>
    decreases rows.len() - r,
    when 0 <= r
{
    if r >= rows.len() {
        Ok(end)
    } else if !rising(rows[r], 0) {
        Err(TableError::Order)
    } else {
        match ranges_end(rows[r], 0, end, len) {
            Some(e) => rows_end(rows, r + 1, e, len),
            None => Err(TableError::Range),
        }
    }
}

/// Whether stored tables hold together for `scopes` scopes, and if not why.
pub open spec fn table_check(
    scopes: int,
    rows: Seq<Seq<NameRowV>>,
    len: int,
) -> Option<TableError> {
    if rows.len() != 2 * scopes {
        Some(TableError::RowCount)
    } else {
        match rows_end(rows, 0, 0, len) {
            Err(e) => Some(e),
            Ok(end) => if end != len {
                Some(TableError::Unused)
            } else {
                None
            },
        }
    }
}

pub fn is_before(a: &str, b: &str) -> (r: bool)
    ensures
        r == text_before(a@, b@, 0),
{
    let x: Vec<char> = chars_of(a);
    let y: Vec<char> = chars_of(b);
    let n: usize = x.len();
    let m: usize = y.len();
    let mut k: usize = 0;
    while k < n && k < m
        invariant
            n == x@.len(),
            m == y@.len(),
            x@ == a@,
            y@ == b@,
            k <= n,
            k <= m,
            text_before(a@, b@, 0) == text_before(a@, b@, k as int),
        decreases n - k,
    {
        if x[k] != y[k] {
            return x[k] < y[k];
        }
        k += 1;
    }
    k < m
}

fn is_rising(row: &Vec<NameRow>) -> (r: bool)
    ensures
        r == rising(row_view(row@), 0),
{
    let n: usize = row.len();
    let mut k: usize = 0;
    while n > 0 && k < n - 1
        invariant
            n == row@.len(),
            n > 0 ==> k <= n - 1,
            n == 0 ==> k == 0,
            rising(row_view(row@), 0) == rising(row_view(row@), k as int),
        decreases n - k,
    {
        assert(row_view(row@)[k as int] == row@[k as int]@);
        assert(row_view(row@)[k + 1] == row@[k + 1]@);
        if !is_before(row[k].text.as_str(), row[k + 1].text.as_str()) {
            return false;
        }
        k += 1;
    }
    true
}

fn end_of_ranges(row: &Vec<NameRow>, end: usize, len: usize) -> (r: Option<usize>)
    requires
        end <= len,
    ensures
        ranges_end(row_view(row@), 0, end as int, len as int) == (match r {
            Some(e) => Some(e as int),
            None => None,
        }),
        r is Some ==> r->0 <= len,
{
    let n: usize = row.len();
    let mut at: usize = end;
    let mut k: usize = 0;
    while k < n
        invariant
            n == row@.len(),
            k <= n,
            at <= len,
            ranges_end(row_view(row@), 0, end as int, len as int) == ranges_end(
                row_view(row@),
                k as int,
                at as int,
                len as int,
            ),
        decreases n - k,
    {
        let x: &NameRow = &row[k];
        assert(row_view(row@)[k as int] == x@);
        if x.start != at || x.end < x.start || x.end > len {
            return None;
        }
        at = x.end;
        k += 1;
    }
    Some(at)
}

/// A stored row of names over the shared bindings.
pub struct NameTable {
    pub rows: Vec<NameRow>,
    pub bindings: Arc<Vec<Binding>>,
}

impl NameTable {
    /// The ranges lie within the bindings, and the names rise.
    pub open spec fn wf(&self) -> bool {
        &&& rising(row_view(self.rows@), 0)
        &&& forall|i: int|
            0 <= i < self.rows@.len() ==> (#[trigger] self.rows@[i]).start <= self.rows@[i].end
                && self.rows@[i].end <= self.bindings@.len()
    }

    /// The bindings under a name: those of the first row from `k` on.
    pub open spec fn lookup(&self, name: Seq<char>, k: int) -> Option<Seq<Binding>>
        decreases self.rows@.len() - k,
        when 0 <= k
    {
        if k >= self.rows@.len() {
            None
        } else if self.rows@[k].text@ == name {
            Some(
                self.bindings@.subrange(self.rows@[k].start as int, self.rows@[k].end as int),
            )
        } else {
            self.lookup(name, k + 1)
        }
    }

    /// The bindings under a name.
    pub fn get(&self, name: &str) -> (r: Option<&[Binding]>)
        requires
            self.wf(),
        ensures
            self.lookup(name@, 0) == (match r {
                Some(s) => Some(s@),
                None => None,
            }),
    {
        let n: usize = self.rows.len();
        let mut k: usize = 0;
        while k < n
            invariant
                self.wf(),
                n == self.rows@.len(),
                k <= n,
                self.lookup(name@, 0) == self.lookup(name@, k as int),
            decreases n - k,
        {
            let row: &NameRow = &self.rows[k];
            if str_eq(row.text.as_str(), name) {
                assert(self.rows@[k as int].start <= self.rows@[k as int].end);
                return Some(
                    vstd::slice::slice_subrange(self.bindings.as_slice(), row.start, row.end),
                );
            }
            k += 1;
        }
        None
    }
}

proof fn lemma_ranges(row: Seq<NameRowV>, k: int, end: int, len: int)
    requires
        0 <= k,
        0 <= end <= len,
        ranges_end(row, k, end, len) is Some,
    ensures
        forall|i: int|
            k <= i < row.len() ==> 0 <= (#[trigger] row[i]).start <= row[i].end <= len,
        end <= ranges_end(row, k, end, len)->0 <= len,
    decreases row.len() - k,
{
    if k < row.len() {
        lemma_ranges(row, k + 1, row[k].end, len);
    }
}

/// Checks stored tables and attaches them to their scopes: per scope its
/// names and its effective names. Nothing is looked up in tables that do not
/// hold together.
pub fn attach(
    scopes: usize,
    rows: Vec<Vec<NameRow>>,
    bindings: Vec<Binding>,
) -> (r: Result<Vec<NameTable>, TableError>)
    ensures
        match r {
            Ok(ts) => {
                &&& table_check(scopes as int, row_views(rows@), bindings@.len() as int) is None
                &&& ts@.len() == rows@.len()
                &&& forall|i: int|
                    0 <= i < ts@.len() ==> (#[trigger] ts@[i]).wf() && row_view(ts@[i].rows@)
                        == row_views(rows@)[i] && ts@[i].bindings@ == bindings@
            },
            Err(e) => table_check(scopes as int, row_views(rows@), bindings@.len() as int) == Some(e),
        },
{
    let ghost rv = row_views(rows@);
    let n: usize = rows.len();
    assert(rv.len() == n);
    if n % 2 != 0 || n / 2 != scopes {
        return Err(TableError::RowCount);
    }
    let len: usize = bindings.len();
    let mut end: usize = 0;
    let mut r: usize = 0;
    while r < n
        invariant
            n == rows@.len(),
            n == 2 * scopes,
            rv == row_views(rows@),
            r <= n,
            end <= len,
            len == bindings@.len(),
            rows_end(rv, 0, 0, len as int) == rows_end(rv, r as int, end as int, len as int),
            forall|i: int|
                0 <= i < r ==> rising(#[trigger] rv[i], 0) && (forall|k: int|
                    0 <= k < rv[i].len() ==> 0 <= (#[trigger] rv[i][k]).start <= rv[i][k].end <= len),
        decreases n - r,
    {
        assert(rv[r as int] == row_view(rows@[r as int]@));
        if !is_rising(&rows[r]) {
            return Err(TableError::Order);
        }
        match end_of_ranges(&rows[r], end, len) {
            Some(e) => {
                proof {
                    lemma_ranges(rv[r as int], 0, end as int, len as int);
                }
                end = e;
            },
            None => {
                return Err(TableError::Range);
            },
        }
        r += 1;
    }
    if end != len {
        return Err(TableError::Unused);
    }
    let shared: Arc<Vec<Binding>> = Arc::new(bindings);
    let mut rest: Vec<Vec<NameRow>> = rows;
    let mut back: Vec<NameTable> = Vec::new();
    while rest.len() > 0
        invariant
            rv.len() == n,
            back@.len() + rest@.len() == n,
            row_views(rest@) == rv.take(rest@.len() as int),
            shared@ == bindings@,
            len == bindings@.len(),
            forall|i: int|
                0 <= i < n ==> rising(#[trigger] rv[i], 0) && (forall|k: int|
                    0 <= k < rv[i].len() ==> 0 <= (#[trigger] rv[i][k]).start <= rv[i][k].end <= len),
            forall|j: int|
                0 <= j < back@.len() ==> (#[trigger] back@[j]).wf() && row_view(back@[j].rows@) == rv[n
                    - 1 - j] && back@[j].bindings@ == bindings@,
        decreases rest@.len(),
    {
        let ghost before = row_views(rest@);
        if let Some(row) = rest.pop() {
            let ghost at = rest@.len() as int;
            assert(row_views(rest@) =~= before.drop_last());
            assert(before.drop_last() =~= rv.take(at));
            assert(row_view(row@) == before[at] && before[at] == rv[at]);
            let t = NameTable { rows: row, bindings: Arc::clone(&shared) };
            assert forall|i: int| 0 <= i < t.rows@.len() implies (#[trigger] t.rows@[i]).start
                <= t.rows@[i].end && t.rows@[i].end <= t.bindings@.len() by {
                assert(rv[at][i] == t.rows@[i]@);
            }
            back.push(t);
        }
    }
    let mut out: Vec<NameTable> = Vec::new();
    while back.len() > 0
        invariant
            rv.len() == n,
            out@.len() + back@.len() == n,
            forall|j: int|
                0 <= j < back@.len() ==> (#[trigger] back@[j]).wf() && row_view(back@[j].rows@) == rv[n
                    - 1 - j] && back@[j].bindings@ == bindings@,
            forall|j: int|
                0 <= j < out@.len() ==> (#[trigger] out@[j]).wf() && row_view(out@[j].rows@) == rv[j]
                    && out@[j].bindings@ == bindings@,
        decreases back@.len(),
    {
        if let Some(t) = back.pop() {
            out.push(t);
        }
    }
    Ok(out)
}

/// Where a name goes among the first `k` sorted ones.
pub open spec fn name_slot(s: Seq<(Seq<char>, Seq<Binding>)>, name: Seq<char>, k: int) -> int
    decreases k,
{
    if k <= 0 {
        0
    } else if text_before(name, s[k - 1].0, 0) {
        name_slot(s, name, k - 1)
    } else {
        k
    }
}

/// The first `k` entries by name.
pub open spec fn by_name(
    s: Seq<(Seq<char>, Seq<Binding>)>,
    k: int,
) -> Seq<(Seq<char>, Seq<Binding>)>
    decreases k,
{
    if k <= 0 {
        Seq::empty()
    } else {
        let t = by_name(s, k - 1);
        t.insert(name_slot(t, s[k - 1].0, t.len() as int), s[k - 1])
    }
}

/// The rows of sorted entries from `k` on, their bindings from `start` on.
pub open spec fn packed(s: Seq<(Seq<char>, Seq<Binding>)>, k: int, start: int) -> Seq<NameRowV>
    decreases s.len() - k,
    when 0 <= k
{
    if k >= s.len() {
        Seq::empty()
    } else {
        let end = start + s[k].1.len();
        seq![NameRowV { text: s[k].0, start, end }] + packed(s, k + 1, end)
    }
}

/// The bindings of sorted entries from `k` on, one after the other.
pub open spec fn flat(s: Seq<(Seq<char>, Seq<Binding>)>, k: int) -> Seq<Binding>
    decreases s.len() - k,
    when 0 <= k
{
    if k >= s.len() {
        Seq::empty()
    } else {
        s[k].1 + flat(s, k + 1)
    }
}

pub open spec fn entries_of(n: Names) -> Seq<(Seq<char>, Seq<Binding>)> {
    by_name(entries_view(n.entries@), n.entries@.len() as int)
}

fn slot_of(s: &Vec<&NameEntry>, name: &str) -> (r: usize)
    ensures
        r == name_slot(refs_entries(s@), name@, s@.len() as int),
        r <= s@.len(),
{
    let mut k: usize = s.len();
    while k > 0
        invariant
            k <= s@.len(),
            name_slot(refs_entries(s@), name@, s@.len() as int) == name_slot(
                refs_entries(s@),
                name@,
                k as int,
            ),
        decreases k,
    {
        assert(refs_entries(s@)[k - 1] == (s@[k - 1].name@, s@[k - 1].bindings@));
        if is_before(name, s[k - 1].name.as_str()) {
            k -= 1;
        } else {
            return k;
        }
    }
    0
}

pub open spec fn refs_entries(s: Seq<&NameEntry>) -> Seq<(Seq<char>, Seq<Binding>)> {
    s.map_values(|e: &NameEntry| (e.name@, e.bindings@))
}

fn sorted_entries(n: &Names) -> (r: Vec<&NameEntry>)
    ensures
        refs_entries(r@) == entries_of(*n),
{
    let ghost all = entries_view(n.entries@);
    let mut out: Vec<&NameEntry> = Vec::new();
    let m: usize = n.entries.len();
    let mut i: usize = 0;
    assert(refs_entries(out@) =~= by_name(all, 0));
    while i < m
        invariant
            m == n.entries@.len(),
            all == entries_view(n.entries@),
            i <= m,
            refs_entries(out@) == by_name(all, i as int),
        decreases m - i,
    {
        let e: &NameEntry = &n.entries[i];
        let at: usize = slot_of(&out, e.name.as_str());
        let ghost before = refs_entries(out@);
        assert(before.len() == out@.len());
        out.insert(at, e);
        assert(refs_entries(out@) =~= before.insert(at as int, (e.name@, e.bindings@)));
        assert(all[i as int] == (e.name@, e.bindings@));
        i += 1;
    }
    out
}

/// The row of one scope's names, its bindings appended to the shared list.
pub fn pack_row(n: &Names, bindings: &mut Vec<Binding>) -> (r: Vec<NameRow>)
    ensures
        row_view(r@) == packed(entries_of(*n), 0, old(bindings)@.len() as int),
        final(bindings)@ == old(bindings)@ + flat(entries_of(*n), 0),
{
    let entries: Vec<&NameEntry> = sorted_entries(n);
    let ghost s = entries_of(*n);
    let mut out: Vec<NameRow> = Vec::new();
    let m: usize = entries.len();
    let mut k: usize = 0;
    let ghost base = bindings@.len() as int;
    let ghost whole = packed(s, 0, base);
    let ghost all = bindings@ + flat(s, 0);
    assert(row_view(out@) + whole =~= whole);
    while k < m
        invariant
            s == refs_entries(entries@),
            m == entries@.len(),
            k <= m,
            row_view(out@) + packed(s, k as int, bindings@.len() as int) == whole,
            bindings@ + flat(s, k as int) == all,
        decreases m - k,
    {
        let e: &NameEntry = entries[k];
        assert(s[k as int] == (e.name@, e.bindings@));
        let start: usize = bindings.len();
        let ghost before = bindings@;
        bindings.extend_from_slice(e.bindings.as_slice());
        assert(bindings@ =~= before + e.bindings@);
        assert(before + (e.bindings@ + flat(s, k + 1)) =~= bindings@ + flat(s, k + 1));
        let end: usize = bindings.len();
        let x = NameRow { text: e.name.clone(), start, end };
        let ghost rows = row_view(out@);
        let ghost xv = x@;
        let ghost rest = packed(s, k + 1, end as int);
        out.push(x);
        assert(row_view(out@) =~= rows.push(xv));
        assert(rows + (seq![xv] + rest) =~= row_view(out@) + rest);
        k += 1;
    }
    assert(row_view(out@) + Seq::<NameRowV>::empty() =~= row_view(out@));
    assert(bindings@ + Seq::<Binding>::empty() =~= bindings@);
    out
}

/// Entries in strictly rising order of their names.
pub open spec fn names_rise(s: Seq<(Seq<char>, Seq<Binding>)>) -> bool {
    forall|i: int| 0 <= i && i + 1 < s.len() ==> text_before((#[trigger] s[i]).0, s[i + 1].0, 0)
}

proof fn lemma_packed(s: Seq<(Seq<char>, Seq<Binding>)>, k: int, start: int, len: int)
    requires
        0 <= k <= s.len(),
        0 <= start,
        start + flat(s, k).len() <= len,
    ensures
        packed(s, k, start).len() == s.len() - k,
        forall|i: int|
            k <= i < s.len() ==> (#[trigger] packed(s, k, start)[i - k]).text == s[i].0,
        ranges_end(packed(s, k, start), 0, start, len) == Some(start + flat(s, k).len()),
    decreases s.len() - k,
{
    if k < s.len() {
        let end = start + s[k].1.len();
        let rest = packed(s, k + 1, end);
        let row = packed(s, k, start);
        lemma_packed(s, k + 1, end, len);
        assert(row =~= seq![NameRowV { text: s[k].0, start, end }] + rest);
        assert forall|i: int| k <= i < s.len() implies (#[trigger] row[i - k]).text == s[i].0 by {
            if i > k {
                assert(row[i - k] == rest[i - k - 1]);
                assert(packed(s, k + 1, end)[i - (k + 1)].text == s[i].0);
            }
        }
        assert(row.drop_first() =~= rest);
        lemma_shift(row, rest, end, len, 0);
        assert(row[0].start == start && row[0].end == end);
    }
}

proof fn lemma_shift(row: Seq<NameRowV>, rest: Seq<NameRowV>, end: int, len: int, k: int)
    requires
        0 <= k,
        row.len() == rest.len() + 1,
        row.drop_first() == rest,
    ensures
        ranges_end(row, k + 1, end, len) == ranges_end(rest, k, end, len),
    decreases rest.len() - k,
{
    if k < rest.len() {
        assert(rest[k] == row[k + 1]);
        lemma_shift(row, rest, rest[k].end, len, k + 1);
    }
}

proof fn lemma_rising(row: Seq<NameRowV>, k: int)
    requires
        0 <= k,
        forall|i: int| 0 <= i && i + 1 < row.len() ==> text_before((#[trigger] row[i]).text, row[i + 1].text, 0),
    ensures
        rising(row, k),
    decreases row.len() - k,
{
    if k + 1 < row.len() {
        lemma_rising(row, k + 1);
    }
}

/// A packed row of distinct names reads back: it rises, its ranges follow
/// one another, and the range of each name holds the bindings it had.
pub proof fn law_packed_rows_read_back(s: Seq<(Seq<char>, Seq<Binding>)>, prefix: Seq<Binding>)
    requires
        names_rise(s),
    ensures
        ({
            let row = packed(s, 0, prefix.len() as int);
            let all = prefix + flat(s, 0);
            &&& rising(row, 0)
            &&& ranges_end(row, 0, prefix.len() as int, all.len() as int) == Some(all.len() as int)
            &&& row.len() == s.len()
            &&& forall|i: int|
                0 <= i < s.len() ==> (#[trigger] row[i]).text == s[i].0 && all.subrange(
                    row[i].start,
                    row[i].end,
                ) == s[i].1
        }),
{
    let p = prefix.len() as int;
    let row = packed(s, 0, p);
    let all = prefix + flat(s, 0);
    lemma_packed(s, 0, p, all.len() as int);
    assert forall|i: int| 0 <= i && i + 1 < row.len() implies text_before(
        (#[trigger] row[i]).text,
        row[i + 1].text,
        0,
    ) by {
        assert(packed(s, 0, p)[i - 0].text == s[i].0);
        assert(packed(s, 0, p)[(i + 1) - 0].text == s[i + 1].0);
    }
    lemma_rising(row, 0);
    lemma_ranges_hold(s, 0, prefix);
    assert forall|i: int| 0 <= i < s.len() implies (#[trigger] row[i]).text == s[i].0
        && all.subrange(row[i].start, row[i].end) == s[i].1 by {
        assert(packed(s, 0, p)[i - 0].text == s[i].0);
    }
}

proof fn lemma_ranges_hold(s: Seq<(Seq<char>, Seq<Binding>)>, k: int, prefix: Seq<Binding>)
    requires
        0 <= k <= s.len(),
    ensures
        ({
            let row = packed(s, k, prefix.len() as int);
            let all = prefix + flat(s, k);
            &&& row.len() == s.len() - k
            &&& forall|i: int|
                k <= i < s.len() ==> prefix.len() <= (#[trigger] row[i - k]).start <= row[i - k].end
                    <= all.len() && all.subrange(row[i - k].start, row[i - k].end) == s[i].1
        }),
    decreases s.len() - k,
{
    if k < s.len() {
        let start = prefix.len() as int;
        let row = packed(s, k, start);
        let all = prefix + flat(s, k);
        let more = prefix + s[k].1;
        lemma_ranges_hold(s, k + 1, more);
        let rest = packed(s, k + 1, more.len() as int);
        assert(row =~= seq![NameRowV { text: s[k].0, start, end: start + s[k].1.len() }] + rest);
        assert(all =~= more + flat(s, k + 1));
        assert forall|i: int| k <= i < s.len() implies prefix.len() <= (#[trigger] row[i - k]).start
            <= row[i - k].end <= all.len() && all.subrange(row[i - k].start, row[i - k].end) == s[i].1 by {
            if i == k {
                assert(all.subrange(start, start + s[k].1.len()) =~= s[k].1);
            } else {
                assert(row[i - k] == rest[i - (k + 1)]);
            }
        }
    }
}

proof fn lemma_before_total(a: Seq<char>, b: Seq<char>, k: int)
    requires
        0 <= k <= a.len(),
        k <= b.len(),
        a.take(k) == b.take(k),
        a != b,
    ensures
        text_before(a, b, k) || text_before(b, a, k),
    decreases a.len() - k,
{
    if k < a.len() && k < b.len() {
        if a[k] == b[k] {
            assert(a.take(k + 1) =~= a.take(k).push(a[k]));
            assert(b.take(k + 1) =~= b.take(k).push(b[k]));
            lemma_before_total(a, b, k + 1);
        }
    } else {
        assert(a.take(k) =~= a || b.take(k) =~= b);
        assert(a.len() == b.len() ==> a =~= b) by {
            assert(a.len() == b.len() ==> a.take(k) =~= a && b.take(k) =~= b);
        }
    }
}

proof fn lemma_before_trans(a: Seq<char>, b: Seq<char>, c: Seq<char>, k: int)
    requires
        0 <= k,
        text_before(a, b, k),
        text_before(b, c, k),
    ensures
        text_before(a, c, k),
    decreases a.len() - k,
{
    if k < a.len() && k < b.len() && k < c.len() && a[k] == b[k] && b[k] == c[k] {
        lemma_before_trans(a, b, c, k + 1);
    }
}

pub proof fn lemma_before_asymmetric(a: Seq<char>, b: Seq<char>, k: int)
    requires
        0 <= k,
        text_before(a, b, k),
    ensures
        !text_before(b, a, k),
    decreases a.len() - k,
{
    if k < a.len() && k < b.len() && a[k] == b[k] {
        lemma_before_asymmetric(a, b, k + 1);
    }
}

proof fn lemma_before_irreflexive(a: Seq<char>, k: int)
    requires
        0 <= k,
    ensures
        !text_before(a, a, k),
    decreases a.len() - k,
{
    if k < a.len() {
        lemma_before_irreflexive(a, k + 1);
    }
}

proof fn lemma_rising_at(row: Seq<NameRowV>, k: int, i: int)
    requires
        0 <= k <= i,
        i + 1 < row.len(),
        rising(row, k),
    ensures
        text_before(row[i].text, row[i + 1].text, 0),
    decreases i - k,
{
    if k < i {
        lemma_rising_at(row, k + 1, i);
    }
}

proof fn lemma_rising_order(row: Seq<NameRowV>, i: int, j: int)
    requires
        0 <= i < j < row.len(),
        rising(row, 0),
    ensures
        text_before(row[i].text, row[j].text, 0),
        row[i].text != row[j].text,
    decreases j - i,
{
    lemma_rising_at(row, 0, j - 1);
    if i < j - 1 {
        lemma_rising_order(row, i, j - 1);
        lemma_before_trans(row[i].text, row[j - 1].text, row[j].text, 0);
    }
    lemma_before_irreflexive(row[i].text, 0);
}

/// The names of a stored row with their bindings.
pub open spec fn table_entries(t: NameTable) -> Seq<(Seq<char>, Seq<Binding>)> {
    Seq::new(
        t.rows@.len(),
        |i: int|
            (
                t.rows@[i].text@,
                t.bindings@.subrange(t.rows@[i].start as int, t.rows@[i].end as int),
            ),
    )
}

proof fn lemma_lookup_found(t: NameTable, name: Seq<char>, k: int, i: int)
    requires
        t.wf(),
        0 <= k <= i < t.rows@.len(),
        t.rows@[i].text@ == name,
    ensures
        t.lookup(name, k) == Some(table_entries(t)[i].1),
    decreases i - k,
{
    if k < i {
        let row = row_view(t.rows@);
        assert(row[k] == t.rows@[k]@ && row[i] == t.rows@[i]@);
        lemma_rising_order(row, k, i);
        lemma_lookup_found(t, name, k + 1, i);
    }
}

proof fn lemma_lookup_missing(t: NameTable, name: Seq<char>, k: int)
    requires
        0 <= k,
        forall|i: int| k <= i < t.rows@.len() ==> (#[trigger] t.rows@[i]).text@ != name,
    ensures
        t.lookup(name, k) is None,
    decreases t.rows@.len() - k,
{
    if k < t.rows@.len() {
        lemma_lookup_missing(t, name, k + 1);
    }
}

/// A map of entries without repeated names, read by name.
proof fn lemma_entries_map(s: Seq<(Seq<char>, Seq<Binding>)>, name: Seq<char>)
    requires
        distinct_names(s),
    ensures
        forall|i: int|
            0 <= i < s.len() && (#[trigger] s[i]).0 == name ==> assoc(s).contains_key(name) && assoc(
                s,
            )[name] == s[i].1,
        (forall|i: int| 0 <= i < s.len() ==> (#[trigger] s[i]).0 != name) ==> !assoc(s).contains_key(
            name,
        ),
{
    assert forall|i: int| 0 <= i < s.len() && (#[trigger] s[i]).0 == name implies assoc(
        s,
    ).contains_key(name) && assoc(s)[name] == s[i].1 by {
        lemma_assoc_found(s, name, i);
    }
    if forall|i: int| 0 <= i < s.len() ==> (#[trigger] s[i]).0 != name {
        lemma_assoc_missing(s, name);
    }
}

impl NameTable {
    /// An editable copy of a stored row: its names with their bindings.
    pub fn to_names(&self) -> (r: Names)
        requires
            self.wf(),
        ensures
            entries_view(r.entries@) == table_entries(*self),
            r.wf(),
            forall|name: Seq<char>|
                #![trigger r@.contains_key(name)]
                #![trigger self.lookup(name, 0)]
                self.lookup(name, 0) == (if r@.contains_key(name) {
                    Some(r@[name])
                } else {
                    None
                }),
    {
        let mut entries: Vec<NameEntry> = Vec::new();
        let n: usize = self.rows.len();
        let mut k: usize = 0;
        let ghost want = table_entries(*self);
        while k < n
            invariant
                self.wf(),
                n == self.rows@.len(),
                want == table_entries(*self),
                k <= n,
                entries_view(entries@) == want.take(k as int),
            decreases n - k,
        {
            let row: &NameRow = &self.rows[k];
            let mut bindings: Vec<Binding> = Vec::new();
            assert(self.rows@[k as int].start <= self.rows@[k as int].end);
            bindings.extend_from_slice(
                vstd::slice::slice_subrange(self.bindings.as_slice(), row.start, row.end),
            );
            assert(bindings@ =~= want[k as int].1);
            let ghost before = entries_view(entries@);
            entries.push(NameEntry { name: row.text.clone(), bindings });
            assert(entries_view(entries@) =~= before.push(want[k as int]));
            assert(want.take(k + 1) =~= before.push(want[k as int]));
            k += 1;
        }
        assert(want.take(n as int) =~= want);
        let r = Names { entries };
        proof {
            let row = row_view(self.rows@);
            assert forall|i: int, j: int| 0 <= i < j < want.len() implies (#[trigger] want[i]).0 != (
            #[trigger] want[j]).0 by {
                assert(row[i] == self.rows@[i]@ && row[j] == self.rows@[j]@);
                lemma_rising_order(row, i, j);
            }
            assert forall|name: Seq<char>| true implies #[trigger] self.lookup(name, 0) == (if r@.contains_key(
                name,
            ) {
                Some(r@[name])
            } else {
                None
            }) by {
                lemma_entries_map(want, name);
                if exists|i: int| 0 <= i < want.len() && (#[trigger] want[i]).0 == name {
                    let i = choose|i: int| 0 <= i < want.len() && (#[trigger] want[i]).0 == name;
                    lemma_lookup_found(*self, name, 0, i);
                } else {
                    assert forall|i: int| 0 <= i < self.rows@.len() implies (#[trigger] self.rows@[i]).text@
                        != name by {
                        assert(want[i].0 != name);
                    }
                    lemma_lookup_missing(*self, name, 0);
                }
            }
        }
        r
    }
}

pub open spec fn has_entry(
    s: Seq<(Seq<char>, Seq<Binding>)>,
    x: (Seq<char>, Seq<Binding>),
) -> bool {
    exists|i: int| 0 <= i < s.len() && #[trigger] s[i] == x
}

proof fn lemma_slot(t: Seq<(Seq<char>, Seq<Binding>)>, name: Seq<char>, k: int)
    requires
        0 <= k <= t.len(),
        k < t.len() ==> text_before(name, t[k].0, 0),
        forall|i: int| 0 <= i < t.len() ==> (#[trigger] t[i]).0 != name,
    ensures
        ({
            let p = name_slot(t, name, k);
            &&& 0 <= p <= k
            &&& p < t.len() ==> text_before(name, t[p].0, 0)
            &&& p > 0 ==> text_before(t[p - 1].0, name, 0)
        }),
    decreases k,
{
    if k > 0 {
        if text_before(name, t[k - 1].0, 0) {
            lemma_slot(t, name, k - 1);
        } else {
            assert(t[k - 1].0 != name);
            assert(name.take(0) =~= t[k - 1].0.take(0));
            lemma_before_total(name, t[k - 1].0, 0);
        }
    }
}

proof fn lemma_sorted(s: Seq<(Seq<char>, Seq<Binding>)>, k: int)
    requires
        0 <= k <= s.len(),
        distinct_names(s),
    ensures
        by_name(s, k).len() == k,
        names_rise(by_name(s, k)),
        forall|x: (Seq<char>, Seq<Binding>)| #[trigger]
            has_entry(by_name(s, k), x) <==> has_entry(s.take(k), x),
    decreases k,
{
    if k > 0 {
        lemma_sorted(s, k - 1);
        let t = by_name(s, k - 1);
        let x = s[k - 1];
        assert forall|i: int| 0 <= i < t.len() implies (#[trigger] t[i]).0 != x.0 by {
            assert(has_entry(t, t[i]));
            assert(has_entry(s.take(k - 1), t[i]));
            let j = choose|j: int| 0 <= j < s.take(k - 1).len() && #[trigger] s.take(k - 1)[j] == t[i];
            assert(s[j] == t[i]);
            assert(s[j].0 != s[k - 1].0);
        }
        lemma_slot(t, x.0, t.len() as int);
        let p = name_slot(t, x.0, t.len() as int);
        let u = t.insert(p, x);
        assert(by_name(s, k) == u);
        assert forall|i: int| 0 <= i && i + 1 < u.len() implies text_before(
            (#[trigger] u[i]).0,
            u[i + 1].0,
            0,
        ) by {
            if i + 1 < p {
                assert(u[i] == t[i] && u[i + 1] == t[i + 1]);
            } else if i + 1 == p {
                assert(u[i] == t[i] && u[i + 1] == x);
            } else if i == p {
                assert(u[i] == x && u[i + 1] == t[i]);
            } else {
                assert(u[i] == t[i - 1] && u[i + 1] == t[(i - 1) + 1]);
            }
        }
        assert forall|y: (Seq<char>, Seq<Binding>)| #[trigger] has_entry(u, y) <==> has_entry(
            s.take(k),
            y,
        ) by {
            let a = s.take(k - 1);
            let b = s.take(k);
            assert(has_entry(t, y) <==> has_entry(a, y));
            if has_entry(u, y) {
                let i = choose|i: int| 0 <= i < u.len() && #[trigger] u[i] == y;
                if i == p {
                    assert(b[k - 1] == y);
                } else {
                    assert(i < p ==> t[i] == y);
                    assert(i > p ==> t[i - 1] == y);
                    assert(has_entry(t, y));
                    let j = choose|j: int| 0 <= j < a.len() && #[trigger] a[j] == y;
                    assert(b[j] == y);
                }
            }
            if has_entry(b, y) {
                let j = choose|j: int| 0 <= j < b.len() && #[trigger] b[j] == y;
                if j == k - 1 {
                    assert(u[p] == y);
                } else {
                    assert(a[j] == y);
                    assert(has_entry(t, y));
                    let i = choose|i: int| 0 <= i < t.len() && #[trigger] t[i] == y;
                    if i < p {
                        assert(u[i] == y);
                    } else {
                        assert(u[i + 1] == y);
                    }
                }
            }
        }
    }
}

/// A stored row answers as the names it was packed from: every name with all
/// its bindings in their order, and no other name.
pub proof fn law_tables_answer_as_their_names(
    n: Names,
    t: NameTable,
    before: Seq<Binding>,
    after: Seq<Binding>,
    name: Seq<char>,
)
    requires
        n.wf(),
        t.wf(),
        row_view(t.rows@) == packed(entries_of(n), 0, before.len() as int),
        t.bindings@ == before + flat(entries_of(n), 0) + after,
    ensures
        t.lookup(name, 0) == (if n@.contains_key(name) {
            Some(n@[name])
        } else {
            None
        }),
{
    let s = entries_view(n.entries@);
    let e = entries_of(n);
    lemma_sorted(s, s.len() as int);
    assert(s.take(s.len() as int) =~= s);
    law_packed_rows_read_back(e, before);
    lemma_ranges_hold(e, 0, before);
    lemma_entries_map(s, name);
    let row = packed(e, 0, before.len() as int);
    let all = before + flat(e, 0);
    if exists|i: int| 0 <= i < s.len() && (#[trigger] s[i]).0 == name {
        let i = choose|i: int| 0 <= i < s.len() && (#[trigger] s[i]).0 == name;
        assert(has_entry(s, s[i]));
        assert(has_entry(e, s[i]));
        let j = choose|j: int| 0 <= j < e.len() && #[trigger] e[j] == s[i];
        assert(row[j - 0].start <= row[j - 0].end <= all.len());
        assert(row_view(t.rows@)[j] == t.rows@[j]@);
        lemma_lookup_found(t, name, 0, j);
        assert(t.bindings@.subrange(row[j].start, row[j].end) =~= all.subrange(
            row[j].start,
            row[j].end,
        ));
    } else {
        assert forall|j: int| 0 <= j < t.rows@.len() implies (#[trigger] t.rows@[j]).text@ != name by {
            assert(row_view(t.rows@)[j] == t.rows@[j]@);
            assert(row[j].text == e[j].0);
            assert(has_entry(e, e[j]));
            assert(has_entry(s, e[j]));
            let i = choose|i: int| 0 <= i < s.len() && #[trigger] s[i] == e[j];
            assert(s[i].0 != name);
        }
        lemma_lookup_missing(t, name, 0);
    }
}

} // verus!
