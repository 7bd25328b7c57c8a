//! Library resolution cache: the recorded outcome of every library reference,
//! replayed in order by a later build instead of searching again.
use crate::cache_format::{
    fnv, fnv_start, get_all_ids, get_all_outcomes, get_cache, get_content, get_count,
    get_counted_names, get_id, get_ids, get_misses, get_name, get_names, get_outcome, get_outcomes,
    get_row, get_rows, get_table, get_tables, get_target, get_u32, get_u64, has_header, header,
    id_bytes, magic_bytes, missed, put_cache, put_content, put_counted_names, put_ids, put_name,
    put_names, put_outcome, put_outcomes, put_row, put_rows, put_table, targets, CacheV, OutcomeV,
    RowV,
};
use vstd::bytes::{
    u128_from_le_bytes, u128_to_le_bytes, u32_from_le_bytes, u32_to_le_bytes, u64_from_le_bytes,
    u64_to_le_bytes,
};
use crate::scope_table::{is_before, lemma_before_asymmetric, text_before};
use crate::text::str_eq;
use vstd::prelude::*;
use vstd::slice::{slice_subrange, slice_to_vec};
use vstd::utf8::{decode_utf8, encode_utf8, valid_utf8};

verus! {

/// FNV-1a, 64-bit.
pub struct Fnv(u64);

impl Fnv {
    pub closed spec fn state(&self) -> u64 {
        self.0
    }

    pub fn new() -> (r: Fnv)
        ensures
            r.state() == fnv_start(),
    {
        Fnv(0xcbf29ce484222325)
    }

    pub fn update(&mut self, bytes: &[u8])
        ensures
            final(self).state() == fnv(old(self).state(), bytes@),
    {
        let n: usize = bytes.len();
        let mut i: usize = 0;
        assert(bytes@.take(0) =~= Seq::<u8>::empty());
        while i < n
            invariant
                n == bytes@.len(),
                i <= n,
                self.0 == fnv(old(self).state(), bytes@.take(i as int)),
            decreases n - i,
        {
            proof {
                let next = bytes@.take(i + 1);
                assert(next.drop_last() =~= bytes@.take(i as int));
                assert(next.last() == bytes@[i as int]);
            }
            self.0 = (self.0 ^ (bytes[i] as u64)).wrapping_mul(0x100000001b3);
            i += 1;
        }
        assert(bytes@.take(n as int) =~= bytes@);
    }

    pub fn finish(&self) -> (r: u64)
        ensures
            r == self.state(),
    {
        self.0
    }
}

/// Feeding two pieces in turn hashes them as one.
pub proof fn law_updates_join(h: u64, a: Seq<u8>, b: Seq<u8>)
    ensures
        fnv(fnv(h, a), b) == fnv(h, a + b),
    decreases b.len(),
{
    if b.len() == 0 {
        assert(a + b =~= a);
    } else {
        law_updates_join(h, a, b.drop_last());
        assert((a + b).drop_last() =~= a + b.drop_last());
        assert((a + b).last() == b.last());
    }
}

/// A name table row.
pub struct Row {
    pub id: u128,
    pub segs: Vec<String>,
}

pub open spec fn texts(v: Seq<String>) -> Seq<Seq<char>> {
    Seq::new(v.len(), |i: int| v[i]@)
}

pub open spec fn text_lists(v: Seq<Vec<String>>) -> Seq<Seq<Seq<char>>> {
    Seq::new(v.len(), |i: int| texts(v[i]@))
}

impl Row {
    pub open spec fn view(&self) -> RowV {
        (self.id, texts(self.segs@))
    }
}

pub open spec fn rows_view(v: Seq<Row>) -> Seq<RowV> {
    Seq::new(v.len(), |i: int| v[i]@)
}

/// Recorded resolution outcomes for a library's pending references, in queue
/// order. `None` is a reference that did not resolve.
pub struct LibraryCache {
    pub outcomes: Vec<Option<u128>>,
    /// Per outcome, the root-namespace names its resolution looked up and
    /// missed.
    pub outcome_misses: Vec<Vec<String>>,
    /// Element ids of the library prefix, in creation order.
    pub lib_ids: Vec<u128>,
    /// Library elements: id to qualified-name segments.
    pub lib_qnames: Vec<Row>,
    /// Library memberships and aliases: id to member segments.
    pub lib_mem_qnames: Vec<Row>,
    /// Hash of the pending-reference sequence the outcomes were recorded
    /// against.
    pub fingerprint: u64,
}

impl LibraryCache {
    pub open spec fn view(&self) -> CacheV {
        CacheV {
            outcomes: self.outcomes@,
            misses: text_lists(self.outcome_misses@),
            lib_ids: self.lib_ids@,
            lib_qnames: rows_view(self.lib_qnames@),
            lib_mem_qnames: rows_view(self.lib_mem_qnames@),
            fingerprint: self.fingerprint,
        }
    }
}

fn put(buf: &mut Vec<u8>, bytes: &[u8])
    ensures
        final(buf)@ == old(buf)@ + bytes@,
{
    buf.extend_from_slice(bytes);
    assert(buf@ =~= old(buf)@ + bytes@);
}

fn put_id_bytes(buf: &mut Vec<u8>, id: u128)
    ensures
        final(buf)@ == old(buf)@ + id_bytes(id),
{
    let le: Vec<u8> = u128_to_le_bytes(id);
    let mut i: usize = 16;
    let ghost all = le@.reverse();
    assert(all.take(0) =~= Seq::<u8>::empty());
    assert(buf@ =~= old(buf)@ + all.take(0));
    while i > 0
        invariant
            i <= 16,
            le@.len() == 16,
            all == le@.reverse(),
            buf@ == old(buf)@ + all.take(16 - i),
        decreases i,
    {
        i -= 1;
        buf.push(le[i]);
        assert(all.take(16 - i) =~= all.take(15 - i).push(le@[i as int]));
        assert(buf@ =~= old(buf)@ + all.take(16 - i));
    }
    assert(all.take(16) =~= all);
}

#[verifier::truncate]
fn low_u32(n: usize) -> (r: u32)
    ensures
        r == n as u32,
{
    n as u32
}

fn put_text(buf: &mut Vec<u8>, name: &String)
    ensures
        final(buf)@ == old(buf)@ + put_name(name@),
{
    let bytes: &[u8] = name.as_str().as_bytes();
    let len: Vec<u8> = u32_to_le_bytes(low_u32(bytes.len()));
    put(buf, len.as_slice());
    put(buf, bytes);
    assert(buf@ =~= old(buf)@ + put_name(name@));
}

fn put_texts(buf: &mut Vec<u8>, names: &Vec<String>)
    ensures
        final(buf)@ == old(buf)@ + put_counted_names(texts(names@)),
{
    let len: Vec<u8> = u32_to_le_bytes(low_u32(names.len()));
    put(buf, len.as_slice());
    let ghost start = buf@;
    let ghost all = texts(names@);
    let n: usize = names.len();
    let mut i: usize = 0;
    while i < n
        invariant
            n == names@.len(),
            all == texts(names@),
            i <= n,
            buf@ + put_names(all, i as int) == start + put_names(all, 0),
        decreases n - i,
    {
        let ghost before = buf@;
        put_text(buf, &names[i]);
        assert(before + put_names(all, i as int) =~= buf@ + put_names(all, i + 1));
        i += 1;
    }
    assert(buf@ + put_names(all, n as int) =~= buf@);
    assert(buf@ =~= old(buf)@ + put_counted_names(all));
}

fn put_one_outcome(buf: &mut Vec<u8>, o: Option<u128>, misses: Option<&Vec<String>>)
    ensures
        final(buf)@ == old(buf)@ + put_outcome(
            o,
            match misses {
                Some(m) => texts(m@),
                None => Seq::empty(),
            },
        ),
{
    let none: bool = match misses {
        Some(m) => m.len() == 0,
        None => true,
    };
    let tag: u8 = match (o, none) {
        (None, true) => 0,
        (Some(_), true) => 1,
        (None, false) => 2,
        (Some(_), false) => 3,
    };
    buf.push(tag);
    if let Some(id) = o {
        put_id_bytes(buf, id);
    }
    if !none {
        if let Some(m) = misses {
            put_texts(buf, m);
        }
    }
    assert(buf@ =~= old(buf)@ + put_outcome(
        o,
        match misses {
            Some(m) => texts(m@),
            None => Seq::empty(),
        },
    ));
}

fn put_row_table(buf: &mut Vec<u8>, rows: &Vec<Row>)
    ensures
        final(buf)@ == old(buf)@ + put_table(rows_view(rows@)),
{
    let len: Vec<u8> = u64_to_le_bytes(rows.len() as u64);
    put(buf, len.as_slice());
    let ghost start = buf@;
    let ghost all = rows_view(rows@);
    let n: usize = rows.len();
    let mut i: usize = 0;
    while i < n
        invariant
            n == rows@.len(),
            all == rows_view(rows@),
            i <= n,
            buf@ + put_rows(all, i as int) == start + put_rows(all, 0),
        decreases n - i,
    {
        let ghost before = buf@;
        put_id_bytes(buf, rows[i].id);
        put_texts(buf, &rows[i].segs);
        assert(buf@ =~= before + put_row(all[i as int]));
        assert(before + put_rows(all, i as int) =~= buf@ + put_rows(all, i + 1));
        i += 1;
    }
    assert(buf@ + put_rows(all, n as int) =~= buf@);
    assert(buf@ =~= old(buf)@ + put_table(all));
}

/// `String::from_utf8`: the text, where the bytes are valid UTF-8; `None`
/// otherwise.
#[verifier::external_body]
fn text_of(bytes: Vec<u8>) -> (r: Option<String>)
    ensures
        r is Some <==> valid_utf8(bytes@),
        r is Some ==> r->0@ == decode_utf8(bytes@),
{
    String::from_utf8(bytes).ok()
}

/// What a reading function gives: a value and the position after it, matched
/// against the reading `want` of the bytes from the old position on.
pub open spec fn reads<A>(want: Option<(A, Seq<u8>)>, got: Option<(A, int)>, b: Seq<u8>) -> bool {
    match got {
        Some((x, p)) => 0 <= p <= b.len() && want == Some((x, b.skip(p))),
        None => want is None,
    }
}

fn take_u32(b: &[u8], pos: usize) -> (r: Option<(u32, usize)>)
    requires
        pos <= b@.len(),
    ensures
        reads(get_u32(b@.skip(pos as int)), match r { Some((x, p)) => Some((x, p as int)), None => None }, b@),
{
    if b.len() - pos < 4 {
        return None;
    }
    let part: &[u8] = slice_subrange(b, pos, pos + 4);
    assert(b@.skip(pos as int).take(4) =~= part@);
    assert(b@.skip(pos as int).skip(4) =~= b@.skip(pos + 4));
    Some((u32_from_le_bytes(part), pos + 4))
}

fn take_u64(b: &[u8], pos: usize) -> (r: Option<(u64, usize)>)
    requires
        pos <= b@.len(),
    ensures
        reads(get_u64(b@.skip(pos as int)), match r { Some((x, p)) => Some((x, p as int)), None => None }, b@),
{
    if b.len() - pos < 8 {
        return None;
    }
    let part: &[u8] = slice_subrange(b, pos, pos + 8);
    assert(b@.skip(pos as int).take(8) =~= part@);
    assert(b@.skip(pos as int).skip(8) =~= b@.skip(pos + 8));
    Some((u64_from_le_bytes(part), pos + 8))
}

fn take_id(b: &[u8], pos: usize) -> (r: Option<(u128, usize)>)
    requires
        pos <= b@.len(),
    ensures
        reads(get_id(b@.skip(pos as int)), match r { Some((x, p)) => Some((x, p as int)), None => None }, b@),
{
    if b.len() - pos < 16 {
        return None;
    }
    let mut le: Vec<u8> = Vec::new();
    let total: usize = b.len();
    let mut i: usize = 16;
    let ghost part = b@.subrange(pos as int, pos + 16);
    while i > 0
        invariant
            i <= 16,
            total == b@.len(),
            pos + 16 <= total,
            part == b@.subrange(pos as int, pos + 16),
            le@.len() == 16 - i,
            forall|j: int| 0 <= j < 16 - i ==> #[trigger] le@[j] == part[15 - j],
        decreases i,
    {
        i -= 1;
        le.push(b[pos + i]);
    }
    assert(le@ =~= part.reverse());
    assert(b@.skip(pos as int).take(16) =~= part);
    assert(b@.skip(pos as int).skip(16) =~= b@.skip(pos + 16));
    Some((u128_from_le_bytes(le.as_slice()), pos + 16))
}

fn take_text(b: &[u8], pos: usize) -> (r: Option<(String, usize)>)
    requires
        pos <= b@.len(),
    ensures
        reads(get_name(b@.skip(pos as int)), match r { Some((x, p)) => Some((x@, p as int)), None => None }, b@),
{
    match take_u32(b, pos) {
        Some((n, p)) => {
            if ((b.len() - p) as u64) < n as u64 {
                return None;
            }
            let len: usize = n as usize;
            let part: &[u8] = slice_subrange(b, p, p + len);
            assert(b@.skip(p as int).take(n as int) =~= part@);
            assert(b@.skip(p as int).skip(n as int) =~= b@.skip(p + n));
            match text_of(slice_to_vec(part)) {
                Some(s) => Some((s, p + len)),
                None => None,
            }
        },
        None => None,
    }
}

/// How a list read so far and the reading of the rest make the whole.
pub open spec fn after<A>(
    done: Seq<A>,
    rest: Option<(Seq<A>, Seq<u8>)>,
) -> Option<(Seq<A>, Seq<u8>)> {
    match rest {
        Some((xs, r)) => Some((done + xs, r)),
        None => None,
    }
}

fn take_texts(b: &[u8], pos: usize) -> (r: Option<(Vec<String>, usize)>)
    requires
        pos <= b@.len(),
    ensures
        reads(get_counted_names(b@.skip(pos as int)), match r { Some((x, p)) => Some((texts(x@), p as int)), None => None }, b@),
{
    match take_u32(b, pos) {
        Some((n, p)) => {
            if n as u64 > ((b.len() - p) / 4) as u64 {
                return None;
            }
            let mut out: Vec<String> = Vec::new();
            let mut q: usize = p;
            let mut i: u32 = 0;
            let ghost whole = get_counted_names(b@.skip(pos as int));
            proof {
                assert(texts(out@) =~= Seq::<Seq<char>>::empty());
                if whole is Some {
                    assert(Seq::<Seq<char>>::empty() + (whole->0).0 =~= (whole->0).0);
                }
            }
            while i < n
                invariant
                    i <= n,
                    q <= b@.len(),
                    whole == get_counted_names(b@.skip(pos as int)),
                    whole == after(texts(out@), get_names(b@.skip(q as int), (n - i) as nat)),
                decreases n - i,
            {
                let ghost done = texts(out@);
                match take_text(b, q) {
                    Some((s, q2)) => {
                        let ghost x = s@;
                        out.push(s);
                        proof {
                            assert(texts(out@) =~= done.push(x));
                            let rest = get_names(b@.skip(q2 as int), (n - i - 1) as nat);
                            if rest is Some {
                                assert(done + (seq![x] + (rest->0).0) =~= done.push(x) + (rest->0).0);
                            }
                        }
                        q = q2;
                        i += 1;
                    },
                    None => {
                        return None;
                    },
                }
            }
            assert(texts(out@) + Seq::<Seq<char>>::empty() =~= texts(out@));
            Some((out, q))
        },
        None => None,
    }
}

/// A count of entries of at least `unit` bytes each.
fn take_count(b: &[u8], pos: usize, unit: usize) -> (r: Option<(u64, usize)>)
    requires
        pos <= b@.len(),
        unit > 0,
    ensures
        reads(get_count(b@.skip(pos as int), unit as int), match r { Some((x, p)) => Some((x, p as int)), None => None }, b@),
{
    match take_u64(b, pos) {
        Some((n, p)) => {
            if n > ((b.len() - p) / unit) as u64 {
                None
            } else {
                Some((n, p))
            }
        },
        None => None,
    }
}

/// One recorded outcome as read.
struct Entry {
    target: Option<u128>,
    misses: Vec<String>,
}

impl Entry {
    spec fn view(&self) -> OutcomeV {
        (self.target, texts(self.misses@))
    }
}

spec fn entries(v: Seq<Entry>) -> Seq<OutcomeV> {
    Seq::new(v.len(), |i: int| v[i]@)
}

fn take_target(b: &[u8], tag: u8, pos: usize) -> (r: Option<(Option<u128>, usize)>)
    requires
        pos <= b@.len(),
    ensures
        reads(get_target(tag, b@.skip(pos as int)), match r { Some((x, p)) => Some((x, p as int)), None => None }, b@),
{
    if tag == 1 || tag == 3 {
        match take_id(b, pos) {
            Some((id, p)) => Some((Some(id), p)),
            None => None,
        }
    } else {
        Some((None, pos))
    }
}

fn take_misses(b: &[u8], tag: u8, pos: usize) -> (r: Option<(Vec<String>, usize)>)
    requires
        pos <= b@.len(),
    ensures
        reads(get_misses(tag, b@.skip(pos as int)), match r { Some((x, p)) => Some((texts(x@), p as int)), None => None }, b@),
{
    if tag == 2 || tag == 3 {
        take_texts(b, pos)
    } else {
        let none: Vec<String> = Vec::new();
        assert(texts(none@) =~= Seq::<Seq<char>>::empty());
        Some((none, pos))
    }
}

fn take_outcome(b: &[u8], pos: usize) -> (r: Option<(Entry, usize)>)
    requires
        pos <= b@.len(),
    ensures
        reads(get_outcome(b@.skip(pos as int)), match r { Some((x, p)) => Some((x@, p as int)), None => None }, b@),
{
    if pos == b.len() || b[pos] > 3 {
        return None;
    }
    let tag: u8 = b[pos];
    assert(b@.skip(pos as int).skip(1) =~= b@.skip(pos + 1));
    match take_target(b, tag, pos + 1) {
        Some((target, p)) => match take_misses(b, tag, p) {
            Some((misses, q)) => Some((Entry { target, misses }, q)),
            None => None,
        },
        None => None,
    }
}

fn take_row(b: &[u8], pos: usize) -> (r: Option<(Row, usize)>)
    requires
        pos <= b@.len(),
    ensures
        reads(get_row(b@.skip(pos as int)), match r { Some((x, p)) => Some((x@, p as int)), None => None }, b@),
{
    match take_id(b, pos) {
        Some((id, p)) => match take_texts(b, p) {
            Some((segs, q)) => Some((Row { id, segs }, q)),
            None => None,
        },
        None => None,
    }
}

/// The counted outcomes.
fn take_outcomes(b: &[u8], pos: usize) -> (r: Option<(Vec<Entry>, usize)>)
    requires
        pos <= b@.len(),
    ensures
        reads(get_all_outcomes(b@.skip(pos as int)), match r { Some((x, p)) => Some((entries(x@), p as int)), None => None }, b@),
{
    match take_count(b, pos, 1) {
        Some((n, p)) => {
            let mut out: Vec<Entry> = Vec::new();
            let mut q: usize = p;
            let mut i: u64 = 0;
            let ghost whole = get_all_outcomes(b@.skip(pos as int));
            proof {
                assert(entries(out@) =~= Seq::<OutcomeV>::empty());
                if whole is Some {
                    assert(Seq::<OutcomeV>::empty() + (whole->0).0 =~= (whole->0).0);
                }
            }
            while i < n
                invariant
                    i <= n,
                    q <= b@.len(),
                    whole == get_all_outcomes(b@.skip(pos as int)),
                    whole == after(entries(out@), get_outcomes(b@.skip(q as int), (n - i) as nat)),
                decreases n - i,
            {
                let ghost done = entries(out@);
                match take_outcome(b, q) {
                    Some((s, q2)) => {
                        let ghost x = s@;
                        out.push(s);
                        proof {
                            assert(entries(out@) =~= done.push(x));
                            let rest = get_outcomes(b@.skip(q2 as int), (n - i - 1) as nat);
                            if rest is Some {
                                assert(done + (seq![x] + (rest->0).0) =~= done.push(x) + (rest->0).0);
                            }
                        }
                        q = q2;
                        i += 1;
                    },
                    None => {
                        return None;
                    },
                }
            }
            assert(entries(out@) + Seq::<OutcomeV>::empty() =~= entries(out@));
            Some((out, q))
        },
        None => None,
    }
}

/// The counted ids.
fn take_ids(b: &[u8], pos: usize) -> (r: Option<(Vec<u128>, usize)>)
    requires
        pos <= b@.len(),
    ensures
        reads(get_all_ids(b@.skip(pos as int)), match r { Some((x, p)) => Some((x@, p as int)), None => None }, b@),
{
    match take_count(b, pos, 16) {
        Some((n, p)) => {
            let mut out: Vec<u128> = Vec::new();
            let mut q: usize = p;
            let mut i: u64 = 0;
            let ghost whole = get_all_ids(b@.skip(pos as int));
            proof {
                assert(out@ =~= Seq::<u128>::empty());
                if whole is Some {
                    assert(Seq::<u128>::empty() + (whole->0).0 =~= (whole->0).0);
                }
            }
            while i < n
                invariant
                    i <= n,
                    q <= b@.len(),
                    whole == get_all_ids(b@.skip(pos as int)),
                    whole == after(out@, get_ids(b@.skip(q as int), (n - i) as nat)),
                decreases n - i,
            {
                let ghost done = out@;
                match take_id(b, q) {
                    Some((s, q2)) => {
                        let ghost x = s;
                        out.push(s);
                        proof {
                            assert(out@ =~= done.push(x));
                            let rest = get_ids(b@.skip(q2 as int), (n - i - 1) as nat);
                            if rest is Some {
                                assert(done + (seq![x] + (rest->0).0) =~= done.push(x) + (rest->0).0);
                            }
                        }
                        q = q2;
                        i += 1;
                    },
                    None => {
                        return None;
                    },
                }
            }
            assert(out@ + Seq::<u128>::empty() =~= out@);
            Some((out, q))
        },
        None => None,
    }
}

/// A counted name table.
fn take_rows(b: &[u8], pos: usize) -> (r: Option<(Vec<Row>, usize)>)
    requires
        pos <= b@.len(),
    ensures
        reads(get_table(b@.skip(pos as int)), match r { Some((x, p)) => Some((rows_view(x@), p as int)), None => None }, b@),
{
    match take_count(b, pos, 20) {
        Some((n, p)) => {
            let mut out: Vec<Row> = Vec::new();
            let mut q: usize = p;
            let mut i: u64 = 0;
            let ghost whole = get_table(b@.skip(pos as int));
            proof {
                assert(rows_view(out@) =~= Seq::<RowV>::empty());
                if whole is Some {
                    assert(Seq::<RowV>::empty() + (whole->0).0 =~= (whole->0).0);
                }
            }
            while i < n
                invariant
                    i <= n,
                    q <= b@.len(),
                    whole == get_table(b@.skip(pos as int)),
                    whole == after(rows_view(out@), get_rows(b@.skip(q as int), (n - i) as nat)),
                decreases n - i,
            {
                let ghost done = rows_view(out@);
                match take_row(b, q) {
                    Some((s, q2)) => {
                        let ghost x = s@;
                        out.push(s);
                        proof {
                            assert(rows_view(out@) =~= done.push(x));
                            let rest = get_rows(b@.skip(q2 as int), (n - i - 1) as nat);
                            if rest is Some {
                                assert(done + (seq![x] + (rest->0).0) =~= done.push(x) + (rest->0).0);
                            }
                        }
                        q = q2;
                        i += 1;
                    },
                    None => {
                        return None;
                    },
                }
            }
            assert(rows_view(out@) + Seq::<RowV>::empty() =~= rows_view(out@));
            Some((out, q))
        },
        None => None,
    }
}

fn take_tables(b: &[u8], pos: usize) -> (r: Option<(Vec<Row>, Vec<Row>)>)
    requires
        pos <= b@.len(),
    ensures
        get_tables(b@.skip(pos as int)) == (match r {
            Some((q, m)) => Some((rows_view(q@), rows_view(m@))),
            None => None,
        }),
{
    match take_rows(b, pos) {
        Some((q, p)) => match take_rows(b, p) {
            Some((m, end)) => {
                if end == b.len() {
                    Some((q, m))
                } else {
                    None
                }
            },
            None => None,
        },
        None => None,
    }
}

/// Parts the outcomes as read into targets and misses.
fn unzip(xs: Vec<Entry>) -> (r: (Vec<Option<u128>>, Vec<Vec<String>>))
    ensures
        r.0@ == targets(entries(xs@)),
        text_lists(r.1@) == missed(entries(xs@)),
{
    let ghost all = xs@;
    let n: usize = xs.len();
    let mut xs = xs;
    let mut rev: Vec<Entry> = Vec::new();
    while xs.len() > 0
        invariant
            n == all.len(),
            rev@.len() + xs@.len() == n,
            xs@ == all.take(xs@.len() as int),
            forall|j: int| 0 <= j < rev@.len() ==> #[trigger] rev@[j] == all[n - 1 - j],
        decreases xs@.len(),
    {
        let ghost before = xs@;
        match xs.pop() {
            Some(e) => {
                assert(xs@ =~= all.take(before.len() - 1));
                assert(e == before[before.len() - 1]);
                rev.push(e);
            },
            None => {},
        }
    }
    let mut os: Vec<Option<u128>> = Vec::new();
    let mut ms: Vec<Vec<String>> = Vec::new();
    while rev.len() > 0
        invariant
            n == all.len(),
            rev@.len() + os@.len() == n,
            os@.len() == ms@.len(),
            forall|j: int| 0 <= j < rev@.len() ==> #[trigger] rev@[j] == all[n - 1 - j],
            forall|j: int| 0 <= j < os@.len() ==> #[trigger] os@[j] == all[j].target,
            forall|j: int| 0 <= j < ms@.len() ==> #[trigger] ms@[j] == all[j].misses,
        decreases rev@.len(),
    {
        match rev.pop() {
            Some(e) => {
                os.push(e.target);
                ms.push(e.misses);
            },
            None => {},
        }
    }
    assert(os@ =~= targets(entries(all)));
    assert(text_lists(ms@) =~= missed(entries(all)));
    (os, ms)
}

fn take_content(b: &[u8], pos: usize) -> (r: Option<LibraryCache>)
    requires
        pos <= b@.len(),
    ensures
        get_content(b@.skip(pos as int)) == (match r {
            Some(c) => Some(c@),
            None => None,
        }),
{
    match take_u64(b, pos) {
        Some((fingerprint, p)) => match take_outcomes(b, p) {
            Some((xs, p2)) => match take_ids(b, p2) {
                Some((lib_ids, p3)) => match take_tables(b, p3) {
                    Some((lib_qnames, lib_mem_qnames)) => {
                        let (outcomes, outcome_misses) = unzip(xs);
                        Some(
                            LibraryCache {
                                outcomes,
                                outcome_misses,
                                lib_ids,
                                lib_qnames,
                                lib_mem_qnames,
                                fingerprint,
                            },
                        )
                    },
                    None => None,
                },
                None => None,
            },
            None => None,
        },
        None => None,
    }
}

/// Whether `want` stands in `b` at `pos`.
fn stands_at(b: &[u8], pos: usize, want: &[u8]) -> (r: bool)
    requires
        pos <= b@.len(),
    ensures
        r == (b@.len() >= pos + want@.len() && b@.subrange(pos as int, pos + want@.len()) == want@),
{
    if b.len() - pos < want.len() {
        return false;
    }
    let n: usize = want.len();
    let total: usize = b.len();
    let mut i: usize = 0;
    while i < n
        invariant
            n == want@.len(),
            total == b@.len(),
            pos + n <= total,
            i <= n,
            forall|j: int| 0 <= j < i ==> b@[pos + j] == #[trigger] want@[j],
        decreases n - i,
    {
        if b[pos + i] != want[i] {
            assert(b@.subrange(pos as int, pos + want@.len())[i as int] != want@[i as int]);
            return false;
        }
        i += 1;
    }
    assert(b@.subrange(pos as int, pos + want@.len()) =~= want@);
    true
}

fn magic() -> (r: Vec<u8>)
    ensures
        r@ == magic_bytes(),
{
    let r: Vec<u8> = vec![83, 89, 83, 77, 76, 54, 76, 67];
    assert(r@ =~= magic_bytes());
    r
}

/// Whether the bytes start with the magic and the build's identity.
fn header_matches(b: &[u8], build: &[u8], Ghost(text): Ghost<Seq<char>>) -> (r: bool)
    requires
        build@ == encode_utf8(text),
    ensures
        r == has_header(b@, text),
{
    if b.len() < 9 {
        return false;
    }
    let m: Vec<u8> = magic();
    let fits: bool = stands_at(b, 9, build);
    let marked: bool = stands_at(b, 0, m.as_slice());
    assert(b@.subrange(0, 8) =~= b@.take(8));
    marked && b[8] as usize == build.len() && fits
}

impl LibraryCache {
    /// The serialized form: versioned, stamped with the toolkit build that
    /// recorded it, and checksummed.
    pub fn to_bytes(&self, build: &str) -> (r: Vec<u8>)
        requires
            encode_utf8(build@).len() <= 255,
        ensures
            r@ == put_cache(self@, build@),
    {
        let mut buf: Vec<u8> = magic();
        let id: &[u8] = build.as_bytes();
        buf.push(id.len() as u8);
        put(&mut buf, id);
        assert(buf@ =~= header(build@));
        self.put_all(&mut buf);
        let mut check = Fnv::new();
        check.update(buf.as_slice());
        let sum: Vec<u8> = u64_to_le_bytes(check.finish());
        put(&mut buf, sum.as_slice());
        buf
    }

    fn put_all(&self, buf: &mut Vec<u8>)
        ensures
            final(buf)@ == old(buf)@ + put_content(self@),
    {
        let print: Vec<u8> = u64_to_le_bytes(self.fingerprint);
        put(buf, print.as_slice());
        let count: Vec<u8> = u64_to_le_bytes(self.outcomes.len() as u64);
        put(buf, count.as_slice());
        self.put_all_outcomes(buf);
        let ids: Vec<u8> = u64_to_le_bytes(self.lib_ids.len() as u64);
        put(buf, ids.as_slice());
        self.put_all_ids(buf);
        put_row_table(buf, &self.lib_qnames);
        put_row_table(buf, &self.lib_mem_qnames);
        assert(buf@ =~= old(buf)@ + put_content(self@));
    }

    fn put_all_outcomes(&self, buf: &mut Vec<u8>)
        ensures
            final(buf)@ == old(buf)@ + put_outcomes(self@, 0),
    {
        let n: usize = self.outcomes.len();
        let mut i: usize = 0;
        while i < n
            invariant
                n == self.outcomes@.len(),
                i <= n,
                buf@ + put_outcomes(self@, i as int) == old(buf)@ + put_outcomes(self@, 0),
            decreases n - i,
        {
            let ghost before = buf@;
            let misses: Option<&Vec<String>> = if i < self.outcome_misses.len() {
                Some(&self.outcome_misses[i])
            } else {
                None
            };
            put_one_outcome(buf, self.outcomes[i], misses);
            assert(before + put_outcomes(self@, i as int) =~= buf@ + put_outcomes(self@, i + 1));
            i += 1;
        }
        assert(buf@ + put_outcomes(self@, n as int) =~= buf@);
    }

    fn put_all_ids(&self, buf: &mut Vec<u8>)
        ensures
            final(buf)@ == old(buf)@ + put_ids(self.lib_ids@, 0),
    {
        let n: usize = self.lib_ids.len();
        let mut i: usize = 0;
        while i < n
            invariant
                n == self.lib_ids@.len(),
                i <= n,
                buf@ + put_ids(self.lib_ids@, i as int) == old(buf)@ + put_ids(self.lib_ids@, 0),
            decreases n - i,
        {
            let ghost before = buf@;
            put_id_bytes(buf, self.lib_ids[i]);
            assert(before + put_ids(self.lib_ids@, i as int) =~= buf@ + put_ids(self.lib_ids@, i + 1));
            i += 1;
        }
        assert(buf@ + put_ids(self.lib_ids@, n as int) =~= buf@);
    }

    /// Reads the form that `to_bytes` writes; `None` on any mismatch: another
    /// toolkit build, truncation, corruption, bytes left over.
    pub fn from_bytes(buf: &[u8], build: &str) -> (r: Option<LibraryCache>)
        ensures
            get_cache(buf@, build@) == (match r {
                Some(c) => Some(c@),
                None => None,
            }),
    {
        if buf.len() < 8 {
            return None;
        }
        let end: usize = buf.len() - 8;
        let body: &[u8] = slice_subrange(buf, 0, end);
        let tail: &[u8] = slice_subrange(buf, end, buf.len());
        assert(body@ =~= buf@.take(end as int));
        assert(tail@ =~= buf@.skip(end as int));
        let mut check = Fnv::new();
        check.update(body);
        if u64_from_le_bytes(tail) != check.finish() {
            return None;
        }
        let id: &[u8] = build.as_bytes();
        if !header_matches(body, id, Ghost(build@)) {
            return None;
        }
        let start: usize = 9 + id.len();
        assert(body@.skip(start as int) =~= buf@.subrange(start as int, end as int));
        take_content(body, start)
    }
}

/// The hash of a library: the toolkit version, then each file's name and
/// bytes, in the order given.
pub open spec fn library_hash(version: Seq<char>, files: Seq<(Seq<char>, Seq<u8>)>, n: int) -> u64
    decreases n,
{
    if n <= 0 {
        fnv(fnv_start(), encode_utf8(version))
    } else {
        fnv(fnv(library_hash(version, files, n - 1), encode_utf8(files[n - 1].0)), files[n - 1].1)
    }
}

/// A library file: the components of its path and its bytes.
pub struct LibraryFile {
    pub path: Vec<String>,
    pub bytes: Vec<u8>,
}

pub struct FileV {
    pub path: Seq<Seq<char>>,
    pub bytes: Seq<u8>,
}

impl LibraryFile {
    pub open spec fn view(&self) -> FileV {
        FileV { path: texts(self.path@), bytes: self.bytes@ }
    }
}

pub open spec fn files_view(v: Seq<LibraryFile>) -> Seq<FileV> {
    v.map_values(|f: LibraryFile| f@)
}

pub open spec fn file_refs(v: Seq<&LibraryFile>) -> Seq<FileV> {
    v.map_values(|f: &LibraryFile| f@)
}

/// The name of a file: the last component of its path.
pub open spec fn file_name(path: Seq<Seq<char>>) -> Seq<char> {
    if path.len() == 0 {
        Seq::empty()
    } else {
        path.last()
    }
}

/// The names and contents of files.
pub open spec fn named_contents(v: Seq<FileV>) -> Seq<(Seq<char>, Seq<u8>)> {
    v.map_values(|f: FileV| (file_name(f.path), f.bytes))
}

/// Whether a path comes before another, component by component.
pub open spec fn path_before(a: Seq<Seq<char>>, b: Seq<Seq<char>>, k: int) -> bool
    decreases a.len() - k,
    when 0 <= k
{
    if k >= b.len() {
        false
    } else if k >= a.len() {
        true
    } else if a[k] != b[k] {
        text_before(a[k], b[k], 0)
    } else {
        path_before(a, b, k + 1)
    }
}

/// Where a file goes among the first `k` ordered ones.
pub open spec fn file_slot(s: Seq<FileV>, x: FileV, k: int) -> int
    decreases k,
{
    if k <= 0 {
        0
    } else if path_before(x.path, s[k - 1].path, 0) {
        file_slot(s, x, k - 1)
    } else {
        k
    }
}

/// The first `k` files in path order; files of one path keep theirs.
pub open spec fn in_path_order(s: Seq<FileV>, k: int) -> Seq<FileV>
    decreases k,
{
    if k <= 0 {
        Seq::empty()
    } else {
        let t = in_path_order(s, k - 1);
        t.insert(file_slot(t, s[k - 1], t.len() as int), s[k - 1])
    }
}

fn stands_before(a: &LibraryFile, b: &LibraryFile) -> (r: bool)
    ensures
        r == path_before(a@.path, b@.path, 0),
{
    let n: usize = a.path.len();
    let m: usize = b.path.len();
    let mut k: usize = 0;
    while k < n && k < m
        invariant
            n == a.path@.len(),
            m == b.path@.len(),
            k <= n,
            k <= m,
            path_before(a@.path, b@.path, 0) == path_before(a@.path, b@.path, k as int),
        decreases n - k,
    {
        assert(a@.path[k as int] == a.path@[k as int]@);
        assert(b@.path[k as int] == b.path@[k as int]@);
        if !str_eq(a.path[k].as_str(), b.path[k].as_str()) {
            return is_before(a.path[k].as_str(), b.path[k].as_str());
        }
        k += 1;
    }
    k < m
}

fn slot_of(s: &Vec<&LibraryFile>, x: &LibraryFile) -> (r: usize)
    ensures
        r == file_slot(file_refs(s@), x@, s@.len() as int),
        r <= s@.len(),
{
    let mut k: usize = s.len();
    while k > 0
        invariant
            k <= s@.len(),
            file_slot(file_refs(s@), x@, s@.len() as int) == file_slot(file_refs(s@), x@, k as int),
        decreases k,
    {
        assert(file_refs(s@)[k - 1] == s@[k - 1]@);
        if stands_before(x, s[k - 1]) {
            k -= 1;
        } else {
            return k;
        }
    }
    0
}

fn sorted_files(files: &Vec<LibraryFile>) -> (r: Vec<&LibraryFile>)
    ensures
        file_refs(r@) == in_path_order(files_view(files@), files@.len() as int),
{
    let ghost all = files_view(files@);
    let mut out: Vec<&LibraryFile> = Vec::new();
    let n: usize = files.len();
    let mut i: usize = 0;
    assert(file_refs(out@) =~= in_path_order(all, 0));
    while i < n
        invariant
            n == files@.len(),
            all == files_view(files@),
            i <= n,
            file_refs(out@) == in_path_order(all, i as int),
        decreases n - i,
    {
        let x: &LibraryFile = &files[i];
        let at: usize = slot_of(&out, x);
        let ghost before = file_refs(out@);
        assert(before.len() == out@.len());
        out.insert(at, x);
        assert(file_refs(out@) =~= before.insert(at as int, x@));
        assert(all[i as int] == x@);
        i += 1;
    }
    out
}

/// Content hash of a library's files, in whatever order they come: the
/// version, and the name and bytes of each file in path order.
pub fn hash_library(version: &str, files: &Vec<LibraryFile>) -> (r: u64)
    ensures
        r == library_hash(
            version@,
            named_contents(in_path_order(files_view(files@), files@.len() as int)),
            files@.len() as int,
        ),
{
    let sorted: Vec<&LibraryFile> = sorted_files(files);
    let ghost all = named_contents(file_refs(sorted@));
    proof {
        law_files_are_hashed_in_path_order(files_view(files@), files@.len() as int);
        assert(file_refs(sorted@).len() == sorted@.len());
    }
    let mut h = Fnv::new();
    h.update(version.as_bytes());
    let n: usize = sorted.len();
    let mut i: usize = 0;
    while i < n
        invariant
            n == sorted@.len(),
            all == named_contents(file_refs(sorted@)),
            i <= n,
            h.state() == library_hash(version@, all, i as int),
        decreases n - i,
    {
        let f: &LibraryFile = sorted[i];
        assert(file_refs(sorted@)[i as int] == f@);
        assert(all[i as int] == (file_name(f@.path), f@.bytes));
        let m: usize = f.path.len();
        if m > 0 {
            assert(f@.path.last() == f.path@[m - 1]@);
            h.update(f.path[m - 1].as_str().as_bytes());
        } else {
            let none: Vec<u8> = Vec::new();
            proof {
                assert(none@ =~= encode_utf8(Seq::<char>::empty()));
            }
            h.update(none.as_slice());
        }
        h.update(f.bytes.as_slice());
        i += 1;
    }
    h.finish()
}

proof fn lemma_path_asymmetric(a: Seq<Seq<char>>, b: Seq<Seq<char>>, k: int)
    requires
        0 <= k,
        path_before(a, b, k),
    ensures
        !path_before(b, a, k),
    decreases a.len() - k,
{
    if k < a.len() && k < b.len() {
        if a[k] == b[k] {
            lemma_path_asymmetric(a, b, k + 1);
        } else {
            lemma_before_asymmetric(a[k], b[k], 0);
        }
    }
}

/// Files are hashed in path order, none of them left out: a path never stands
/// behind the one that follows it.
pub proof fn law_files_are_hashed_in_path_order(s: Seq<FileV>, k: int)
    requires
        0 <= k <= s.len(),
    ensures
        in_path_order(s, k).len() == k,
        in_path_order(s, k).to_multiset() == s.take(k).to_multiset(),
        forall|i: int|
            0 <= i && i + 1 < k ==> !path_before(
                in_path_order(s, k)[i + 1].path,
                (#[trigger] in_path_order(s, k)[i]).path,
                0,
            ),
    decreases k,
{
    broadcast use vstd::seq_lib::group_to_multiset_ensures;

    if k > 0 {
        law_files_are_hashed_in_path_order(s, k - 1);
        let t = in_path_order(s, k - 1);
        let x = s[k - 1];
        lemma_file_slot(t, x, t.len() as int);
        let p = file_slot(t, x, t.len() as int);
        let u = t.insert(p, x);
        assert(s.take(k) =~= s.take(k - 1).push(x));
        assert(u.to_multiset() =~= t.to_multiset().insert(x));
        assert forall|i: int| 0 <= i && i + 1 < k implies !path_before(
            u[i + 1].path,
            (#[trigger] u[i]).path,
            0,
        ) by {
            if i + 1 < p {
                assert(u[i] == t[i] && u[i + 1] == t[i + 1]);
            } else if i + 1 == p {
                assert(u[i] == t[i] && u[i + 1] == x);
            } else if i == p {
                assert(u[i] == x && u[i + 1] == t[i]);
                lemma_path_asymmetric(x.path, t[p].path, 0);
            } else {
                assert(u[i] == t[i - 1] && u[i + 1] == t[(i - 1) + 1]);
            }
        }
    } else {
        assert(s.take(0).to_multiset() =~= Seq::<FileV>::empty().to_multiset());
    }
}

proof fn lemma_file_slot(t: Seq<FileV>, x: FileV, k: int)
    requires
        0 <= k <= t.len(),
        k < t.len() ==> path_before(x.path, t[k].path, 0),
    ensures
        ({
            let p = file_slot(t, x, k);
            &&& 0 <= p <= k
            &&& p < t.len() ==> path_before(x.path, t[p].path, 0)
            &&& p > 0 ==> !path_before(x.path, t[p - 1].path, 0)
        }),
    decreases k,
{
    if k > 0 && path_before(x.path, t[k - 1].path, 0) {
        lemma_file_slot(t, x, k - 1);
    }
}

/// A hexadecimal digit.
pub open spec fn hex_digit(d: int) -> char {
    if d < 10 {
        crate::text::digit(d)
    } else if d == 10 {
        'a'
    } else if d == 11 {
        'b'
    } else if d == 12 {
        'c'
    } else if d == 13 {
        'd'
    } else if d == 14 {
        'e'
    } else {
        'f'
    }
}

/// The last `n` hexadecimal digits of `x`.
pub open spec fn hex_digits(x: nat, n: nat) -> Seq<char>
    decreases n,
{
    if n == 0 {
        Seq::empty()
    } else {
        hex_digits(x / 16, (n - 1) as nat).push(hex_digit((x % 16) as int))
    }
}

fn hex_char(d: u64) -> (c: char)
    requires
        d < 16,
    ensures
        c == hex_digit(d as int),
{
    if d < 10 {
        match d {
            0 => '0',
            1 => '1',
            2 => '2',
            3 => '3',
            4 => '4',
            5 => '5',
            6 => '6',
            7 => '7',
            8 => '8',
            _ => '9',
        }
    } else {
        match d {
            10 => 'a',
            11 => 'b',
            12 => 'c',
            13 => 'd',
            14 => 'e',
            _ => 'f',
        }
    }
}

fn push_hex(s: &mut String, x: u64, n: u8)
    ensures
        final(s)@ == old(s)@ + hex_digits(x as nat, n as nat),
    decreases n,
{
    if n > 0 {
        push_hex(s, x / 16, n - 1);
        s.push(hex_char(x % 16));
    }
    assert(s@ =~= old(s)@ + hex_digits(x as nat, n as nat));
}

/// The name of the cache file of a library with hash `key`.
pub open spec fn cache_file(key: u64) -> Seq<char> {
    "stdlib-"@ + hex_digits(key as nat, 16) + ".libcache"@
}

/// The name of the cache file of a library: its hash in sixteen digits.
pub fn cache_file_name(key: u64) -> (r: String)
    ensures
        r@ == cache_file(key),
{
    let mut s: String = "stdlib-".to_owned();
    push_hex(&mut s, key, 16);
    reveal(crate::text::joined);
    crate::text::concat(s.as_str(), ".libcache")
}

/// Where a cache file stands: a directory, and the path below it.
pub struct CachePlace<T> {
    pub base: T,
    pub below: Vec<String>,
}

/// The path of a cache file below a directory that was named for caches, that
/// holds the caches of all programs, or that is the user's home.
pub open spec fn path_below(named: bool, shared: bool, key: u64) -> Seq<Seq<char>> {
    if named {
        seq![cache_file(key)]
    } else if shared {
        seq!["sysmlv2"@, cache_file(key)]
    } else {
        seq![".cache"@, "sysmlv2"@, cache_file(key)]
    }
}

/// Where the cache file of a library goes by default: into the directory named
/// for it, else below the one that holds the caches of all programs, else below
/// the user's home, and nowhere where none of them is known.
pub fn cache_place<T>(named: Option<T>, shared: Option<T>, home: Option<T>, key: u64) -> (r: Option<
    CachePlace<T>,
>)
    ensures
        r is None <==> named is None && shared is None && home is None,
        r is Some ==> {
            &&& texts(r->0.below@) == path_below(named is Some, shared is Some, key)
            &&& r->0.base == (if named is Some {
                named->0
            } else if shared is Some {
                shared->0
            } else {
                home->0
            })
        },
{
    let ghost want = path_below(named is Some, shared is Some, key);
    let mut below: Vec<String> = Vec::new();
    let base: T = match named {
        Some(d) => d,
        None => match shared {
            Some(d) => {
                below.push("sysmlv2".to_owned());
                d
            },
            None => match home {
                Some(d) => {
                    below.push(".cache".to_owned());
                    below.push("sysmlv2".to_owned());
                    d
                },
                None => {
                    return None;
                },
            },
        },
    };
    below.push(cache_file_name(key));
    assert(texts(below@) =~= want);
    Some(CachePlace { base, below })
}

} // verus!
