//! The byte form of a library cache: how it is written and how it is read.
use vstd::bytes::{
    lemma_auto_spec_u128_to_from_le_bytes, lemma_auto_spec_u32_to_from_le_bytes,
    lemma_auto_spec_u64_to_from_le_bytes, spec_u128_from_le_bytes, spec_u128_to_le_bytes,
    spec_u32_from_le_bytes, spec_u32_to_le_bytes, spec_u64_from_le_bytes, spec_u64_to_le_bytes,
};
use vstd::prelude::*;
use vstd::utf8::{decode_utf8, encode_utf8, encode_utf8_decode_utf8, encode_utf8_valid_utf8, valid_utf8};

verus! {

/// A name table row: an id and the qualified-name segments it stands for.
pub type RowV = (u128, Seq<Seq<char>>);

/// One recorded outcome: the target, and the root names that were missed.
pub type OutcomeV = (Option<u128>, Seq<Seq<char>>);

/// What a library cache holds.
pub struct CacheV {
    pub outcomes: Seq<Option<u128>>,
    pub misses: Seq<Seq<Seq<char>>>,
    pub lib_ids: Seq<u128>,
    pub lib_qnames: Seq<RowV>,
    pub lib_mem_qnames: Seq<RowV>,
    pub fingerprint: u64,
}

/// 64-bit FNV-1a from state `h` over `bytes`.
pub open spec fn fnv(h: u64, bytes: Seq<u8>) -> u64
    decreases bytes.len(),
{
    if bytes.len() == 0 {
        h
    } else {
        (fnv(h, bytes.drop_last()) ^ (bytes.last() as u64)).wrapping_mul(0x100000001b3)
    }
}

/// The FNV-1a start value.
pub open spec fn fnv_start() -> u64 {
    0xcbf29ce484222325
}

/// The eight bytes `SYSML6LC`.
pub open spec fn magic_bytes() -> Seq<u8> {
    seq![83u8, 89, 83, 77, 76, 54, 76, 67]
}

pub open spec fn id_bytes(id: u128) -> Seq<u8> {
    spec_u128_to_le_bytes(id).reverse()
}

pub open spec fn id_of_bytes(b: Seq<u8>) -> u128 {
    spec_u128_from_le_bytes(b.reverse())
}

pub open spec fn put_name(name: Seq<char>) -> Seq<u8> {
    spec_u32_to_le_bytes(encode_utf8(name).len() as u32) + encode_utf8(name)
}

/// The names from `i` on.
pub open spec fn put_names(names: Seq<Seq<char>>, i: int) -> Seq<u8>
    decreases names.len() - i,
{
    if i < 0 || i >= names.len() {
        Seq::empty()
    } else {
        put_name(names[i]) + put_names(names, i + 1)
    }
}

pub open spec fn put_counted_names(names: Seq<Seq<char>>) -> Seq<u8> {
    spec_u32_to_le_bytes(names.len() as u32) + put_names(names, 0)
}

pub open spec fn outcome_tag(o: Option<u128>, misses: Seq<Seq<char>>) -> u8 {
    match (o, misses.len() == 0) {
        (None, true) => 0,
        (Some(_), true) => 1,
        (None, false) => 2,
        (Some(_), false) => 3,
    }
}

pub open spec fn put_outcome(o: Option<u128>, misses: Seq<Seq<char>>) -> Seq<u8> {
    seq![outcome_tag(o, misses)] + (match o {
        Some(id) => id_bytes(id),
        None => Seq::empty(),
    }) + (if misses.len() == 0 {
        Seq::empty()
    } else {
        put_counted_names(misses)
    })
}

/// The names missed by outcome `i`; an entry that is not there missed none.
pub open spec fn misses_at(misses: Seq<Seq<Seq<char>>>, i: int) -> Seq<Seq<char>> {
    if 0 <= i < misses.len() {
        misses[i]
    } else {
        Seq::empty()
    }
}

pub open spec fn put_outcomes(c: CacheV, i: int) -> Seq<u8>
    decreases c.outcomes.len() - i,
{
    if i < 0 || i >= c.outcomes.len() {
        Seq::empty()
    } else {
        put_outcome(c.outcomes[i], misses_at(c.misses, i)) + put_outcomes(c, i + 1)
    }
}

pub open spec fn put_ids(ids: Seq<u128>, i: int) -> Seq<u8>
    decreases ids.len() - i,
{
    if i < 0 || i >= ids.len() {
        Seq::empty()
    } else {
        id_bytes(ids[i]) + put_ids(ids, i + 1)
    }
}

pub open spec fn put_row(row: RowV) -> Seq<u8> {
    id_bytes(row.0) + put_counted_names(row.1)
}

pub open spec fn put_rows(rows: Seq<RowV>, i: int) -> Seq<u8>
    decreases rows.len() - i,
{
    if i < 0 || i >= rows.len() {
        Seq::empty()
    } else {
        put_row(rows[i]) + put_rows(rows, i + 1)
    }
}

pub open spec fn put_table(rows: Seq<RowV>) -> Seq<u8> {
    spec_u64_to_le_bytes(rows.len() as u64) + put_rows(rows, 0)
}

/// Everything between the header and the checksum.
pub open spec fn put_content(c: CacheV) -> Seq<u8> {
    spec_u64_to_le_bytes(c.fingerprint) + (spec_u64_to_le_bytes(c.outcomes.len() as u64) + (
    put_outcomes(c, 0) + (spec_u64_to_le_bytes(c.lib_ids.len() as u64) + (put_ids(c.lib_ids, 0) + (
    put_table(c.lib_qnames) + put_table(c.lib_mem_qnames))))))
}

/// The whole form: magic, the build that recorded it, the content, and a
/// checksum of all that.
pub open spec fn put_cache(c: CacheV, build: Seq<char>) -> Seq<u8> {
    frame(put_content(c), build)
}

/// The header in front of the checksum.
pub open spec fn header(build: Seq<char>) -> Seq<u8> {
    magic_bytes().push(encode_utf8(build).len() as u8) + encode_utf8(build)
}

pub open spec fn frame(content: Seq<u8>, build: Seq<char>) -> Seq<u8> {
    header(build) + content + spec_u64_to_le_bytes(fnv(fnv_start(), header(build) + content))
}

// Reading: each function gives what stands at the front and what follows it.

pub open spec fn get_u32(b: Seq<u8>) -> Option<(u32, Seq<u8>)> {
    if b.len() < 4 {
        None
    } else {
        Some((spec_u32_from_le_bytes(b.take(4)), b.skip(4)))
    }
}

pub open spec fn get_u64(b: Seq<u8>) -> Option<(u64, Seq<u8>)> {
    if b.len() < 8 {
        None
    } else {
        Some((spec_u64_from_le_bytes(b.take(8)), b.skip(8)))
    }
}

pub open spec fn get_id(b: Seq<u8>) -> Option<(u128, Seq<u8>)> {
    if b.len() < 16 {
        None
    } else {
        Some((id_of_bytes(b.take(16)), b.skip(16)))
    }
}

pub open spec fn get_name(b: Seq<u8>) -> Option<(Seq<char>, Seq<u8>)> {
    match get_u32(b) {
        Some((n, r)) => if r.len() < n || !valid_utf8(r.take(n as int)) {
            None
        } else {
            Some((decode_utf8(r.take(n as int)), r.skip(n as int)))
        },
        None => None,
    }
}

pub open spec fn get_names(b: Seq<u8>, n: nat) -> Option<(Seq<Seq<char>>, Seq<u8>)>
    decreases n,
{
    if n == 0 {
        Some((Seq::empty(), b))
    } else {
        match get_name(b) {
            Some((x, r)) => match get_names(r, (n - 1) as nat) {
                Some((xs, r2)) => Some((seq![x] + xs, r2)),
                None => None,
            },
            None => None,
        }
    }
}

/// A counted name list; each name costs at least its length prefix.
pub open spec fn get_counted_names(b: Seq<u8>) -> Option<(Seq<Seq<char>>, Seq<u8>)> {
    match get_u32(b) {
        Some((n, r)) => if n > r.len() / 4 {
            None
        } else {
            get_names(r, n as nat)
        },
        None => None,
    }
}

/// The target of an outcome, where its tag says there is one.
pub open spec fn get_target(tag: u8, b: Seq<u8>) -> Option<(Option<u128>, Seq<u8>)> {
    if tag == 1 || tag == 3 {
        match get_id(b) {
            Some((id, r)) => Some((Some(id), r)),
            None => None,
        }
    } else {
        Some((None, b))
    }
}

/// The missed names of an outcome, where its tag says there are any.
pub open spec fn get_misses(tag: u8, b: Seq<u8>) -> Option<(Seq<Seq<char>>, Seq<u8>)> {
    if tag == 2 || tag == 3 {
        get_counted_names(b)
    } else {
        Some((Seq::empty(), b))
    }
}

pub open spec fn get_outcome(b: Seq<u8>) -> Option<(OutcomeV, Seq<u8>)> {
    if b.len() == 0 || b[0] > 3 {
        None
    } else {
        match get_target(b[0], b.skip(1)) {
            Some((o, r)) => match get_misses(b[0], r) {
                Some((m, r2)) => Some(((o, m), r2)),
                None => None,
            },
            None => None,
        }
    }
}

pub open spec fn get_outcomes(b: Seq<u8>, n: nat) -> Option<(Seq<OutcomeV>, Seq<u8>)>
    decreases n,
{
    if n == 0 {
        Some((Seq::empty(), b))
    } else {
        match get_outcome(b) {
            Some((x, r)) => match get_outcomes(r, (n - 1) as nat) {
                Some((xs, r2)) => Some((seq![x] + xs, r2)),
                None => None,
            },
            None => None,
        }
    }
}

pub open spec fn get_ids(b: Seq<u8>, n: nat) -> Option<(Seq<u128>, Seq<u8>)>
    decreases n,
{
    if n == 0 {
        Some((Seq::empty(), b))
    } else {
        match get_id(b) {
            Some((x, r)) => match get_ids(r, (n - 1) as nat) {
                Some((xs, r2)) => Some((seq![x] + xs, r2)),
                None => None,
            },
            None => None,
        }
    }
}

pub open spec fn get_row(b: Seq<u8>) -> Option<(RowV, Seq<u8>)> {
    match get_id(b) {
        Some((id, r)) => match get_counted_names(r) {
            Some((segs, r2)) => Some(((id, segs), r2)),
            None => None,
        },
        None => None,
    }
}

pub open spec fn get_rows(b: Seq<u8>, n: nat) -> Option<(Seq<RowV>, Seq<u8>)>
    decreases n,
{
    if n == 0 {
        Some((Seq::empty(), b))
    } else {
        match get_row(b) {
            Some((x, r)) => match get_rows(r, (n - 1) as nat) {
                Some((xs, r2)) => Some((seq![x] + xs, r2)),
                None => None,
            },
            None => None,
        }
    }
}

/// A counted list: the count must not exceed what the remaining bytes can
/// hold at `unit` bytes an entry.
pub open spec fn get_count(b: Seq<u8>, unit: int) -> Option<(u64, Seq<u8>)> {
    match get_u64(b) {
        Some((n, r)) => if n > r.len() / (unit as nat) {
            None
        } else {
            Some((n, r))
        },
        None => None,
    }
}

pub open spec fn get_all_outcomes(b: Seq<u8>) -> Option<(Seq<OutcomeV>, Seq<u8>)> {
    match get_count(b, 1) {
        Some((n, r)) => get_outcomes(r, n as nat),
        None => None,
    }
}

pub open spec fn get_all_ids(b: Seq<u8>) -> Option<(Seq<u128>, Seq<u8>)> {
    match get_count(b, 16) {
        Some((n, r)) => get_ids(r, n as nat),
        None => None,
    }
}

pub open spec fn get_table(b: Seq<u8>) -> Option<(Seq<RowV>, Seq<u8>)> {
    match get_count(b, 20) {
        Some((n, r)) => get_rows(r, n as nat),
        None => None,
    }
}

pub open spec fn targets(xs: Seq<OutcomeV>) -> Seq<Option<u128>> {
    Seq::new(xs.len(), |i: int| xs[i].0)
}

pub open spec fn missed(xs: Seq<OutcomeV>) -> Seq<Seq<Seq<char>>> {
    Seq::new(xs.len(), |i: int| xs[i].1)
}

/// The two name tables, which end the content.
pub open spec fn get_tables(b: Seq<u8>) -> Option<(Seq<RowV>, Seq<RowV>)> {
    match get_table(b) {
        Some((q, r)) => match get_table(r) {
            Some((m, r2)) => if r2.len() == 0 {
                Some((q, m))
            } else {
                None
            },
            None => None,
        },
        None => None,
    }
}

/// The content: it must end with the last table.
pub open spec fn get_content(b: Seq<u8>) -> Option<CacheV> {
    match get_u64(b) {
        Some((fingerprint, r)) => match get_all_outcomes(r) {
            Some((xs, r2)) => match get_all_ids(r2) {
                Some((lib_ids, r3)) => match get_tables(r3) {
                    Some((lib_qnames, lib_mem_qnames)) => Some(
                        CacheV {
                            outcomes: targets(xs),
                            misses: missed(xs),
                            lib_ids,
                            lib_qnames,
                            lib_mem_qnames,
                            fingerprint,
                        },
                    ),
                    None => None,
                },
                None => None,
            },
            None => None,
        },
        None => None,
    }
}

/// Whether `b` starts with the magic and the identity of `build`.
pub open spec fn has_header(b: Seq<u8>, build: Seq<char>) -> bool {
    let v = encode_utf8(build);
    &&& b.len() >= 9 + v.len()
    &&& b.take(8) == magic_bytes()
    &&& b[8] == v.len()
    &&& b.subrange(9, 9 + v.len() as int) == v
}

/// Whether the last eight bytes are the checksum of those before them.
pub open spec fn checksum_holds(b: Seq<u8>) -> bool {
    b.len() >= 8 && spec_u64_from_le_bytes(b.skip(b.len() - 8)) == fnv(
        fnv_start(),
        b.take(b.len() - 8),
    )
}

/// What a byte string holds, read by toolkit build `build`: nothing unless
/// the checksum, the magic, the build and every length agree.
pub open spec fn get_cache(b: Seq<u8>, build: Seq<char>) -> Option<CacheV> {
    if !checksum_holds(b) || !has_header(b.take(b.len() - 8), build) {
        None
    } else {
        get_content(b.subrange(9 + encode_utf8(build).len() as int, b.len() - 8))
    }
}

pub open spec fn name_fits(name: Seq<char>) -> bool {
    encode_utf8(name).len() <= u32::MAX
}

pub open spec fn names_fit(names: Seq<Seq<char>>) -> bool {
    names.len() <= u32::MAX && forall|i: int| 0 <= i < names.len() ==> name_fits(#[trigger] names[i])
}

pub open spec fn rows_fit(rows: Seq<RowV>) -> bool {
    rows.len() <= u64::MAX && forall|i: int| 0 <= i < rows.len() ==> names_fit((#[trigger] rows[i]).1)
}

/// Every count and length fits its field, and each outcome has its misses.
pub open spec fn cache_fits(c: CacheV) -> bool {
    &&& c.outcomes.len() <= u64::MAX
    &&& c.misses.len() == c.outcomes.len()
    &&& forall|i: int| 0 <= i < c.misses.len() ==> names_fit(#[trigger] c.misses[i])
    &&& c.lib_ids.len() <= u64::MAX
    &&& rows_fit(c.lib_qnames)
    &&& rows_fit(c.lib_mem_qnames)
}

proof fn lemma_u32_front(x: u32, r: Seq<u8>)
    ensures
        get_u32(spec_u32_to_le_bytes(x) + r) == Some((x, r)),
{
    lemma_auto_spec_u32_to_from_le_bytes();
    let b = spec_u32_to_le_bytes(x) + r;
    assert(b.take(4) =~= spec_u32_to_le_bytes(x));
    assert(b.skip(4) =~= r);
}

proof fn lemma_u64_front(x: u64, r: Seq<u8>)
    ensures
        get_u64(spec_u64_to_le_bytes(x) + r) == Some((x, r)),
{
    lemma_auto_spec_u64_to_from_le_bytes();
    let b = spec_u64_to_le_bytes(x) + r;
    assert(b.take(8) =~= spec_u64_to_le_bytes(x));
    assert(b.skip(8) =~= r);
}

proof fn lemma_id_front(x: u128, r: Seq<u8>)
    ensures
        id_bytes(x).len() == 16,
        get_id(id_bytes(x) + r) == Some((x, r)),
{
    lemma_auto_spec_u128_to_from_le_bytes();
    let b = id_bytes(x) + r;
    assert(b.take(16) =~= id_bytes(x));
    assert(b.skip(16) =~= r);
    assert(id_bytes(x).reverse() =~= spec_u128_to_le_bytes(x));
}

proof fn lemma_name_front(x: Seq<char>, r: Seq<u8>)
    requires
        name_fits(x),
    ensures
        get_name(put_name(x) + r) == Some((x, r)),
        put_name(x).len() >= 4,
{
    lemma_auto_spec_u32_to_from_le_bytes();
    let e = encode_utf8(x);
    assert(put_name(x) + r =~= spec_u32_to_le_bytes(e.len() as u32) + (e + r));
    lemma_u32_front(e.len() as u32, e + r);
    assert((e + r).take(e.len() as int) =~= e);
    assert((e + r).skip(e.len() as int) =~= r);
    encode_utf8_valid_utf8(x);
    encode_utf8_decode_utf8(x);
}

proof fn lemma_names_front(names: Seq<Seq<char>>, i: int, r: Seq<u8>)
    requires
        names_fit(names),
        0 <= i <= names.len(),
    ensures
        get_names(put_names(names, i) + r, (names.len() - i) as nat) == Some((names.skip(i), r)),
        put_names(names, i).len() >= 4 * (names.len() - i),
    decreases names.len() - i,
{
    if i == names.len() {
        assert(put_names(names, i) + r =~= r);
        assert(names.skip(i) =~= Seq::<Seq<char>>::empty());
    } else {
        lemma_names_front(names, i + 1, r);
        let rest = put_names(names, i + 1) + r;
        assert(put_names(names, i) + r =~= put_name(names[i]) + rest);
        lemma_name_front(names[i], rest);
        assert(seq![names[i]] + names.skip(i + 1) =~= names.skip(i));
    }
}

proof fn lemma_counted_names_front(names: Seq<Seq<char>>, r: Seq<u8>)
    requires
        names_fit(names),
    ensures
        get_counted_names(put_counted_names(names) + r) == Some((names, r)),
        put_counted_names(names).len() >= 4,
{
    lemma_auto_spec_u32_to_from_le_bytes();
    let rest = put_names(names, 0) + r;
    assert(put_counted_names(names) + r =~= spec_u32_to_le_bytes(names.len() as u32) + rest);
    lemma_u32_front(names.len() as u32, rest);
    lemma_names_front(names, 0, r);
    assert(names.skip(0) =~= names);
}

proof fn lemma_outcome_front(o: Option<u128>, misses: Seq<Seq<char>>, r: Seq<u8>)
    requires
        names_fit(misses),
    ensures
        get_outcome(put_outcome(o, misses) + r) == Some(((o, misses), r)),
        put_outcome(o, misses).len() >= 1,
{
    let names = if misses.len() == 0 {
        Seq::empty()
    } else {
        put_counted_names(misses)
    };
    let target = match o {
        Some(id) => id_bytes(id),
        None => Seq::empty(),
    };
    let b = put_outcome(o, misses) + r;
    assert(b[0] == outcome_tag(o, misses));
    assert(b.skip(1) =~= target + (names + r));
    if o is Some {
        lemma_id_front(o->0, names + r);
    } else {
        assert(b.skip(1) =~= names + r);
    }
    if misses.len() == 0 {
        assert(names + r =~= r);
        assert(misses =~= Seq::<Seq<char>>::empty());
    } else {
        lemma_counted_names_front(misses, r);
    }
}

/// The outcomes of `c` from `i` on, paired with their misses.
pub open spec fn pairs(c: CacheV, i: int) -> Seq<OutcomeV> {
    Seq::new((c.outcomes.len() - i) as nat, |j: int| (c.outcomes[i + j], misses_at(c.misses, i + j)))
}

proof fn lemma_outcomes_front(c: CacheV, i: int, r: Seq<u8>)
    requires
        cache_fits(c),
        0 <= i <= c.outcomes.len(),
    ensures
        get_outcomes(put_outcomes(c, i) + r, (c.outcomes.len() - i) as nat) == Some((pairs(c, i), r)),
        put_outcomes(c, i).len() >= c.outcomes.len() - i,
    decreases c.outcomes.len() - i,
{
    if i == c.outcomes.len() {
        assert(put_outcomes(c, i) + r =~= r);
        assert(pairs(c, i) =~= Seq::<OutcomeV>::empty());
    } else {
        lemma_outcomes_front(c, i + 1, r);
        let rest = put_outcomes(c, i + 1) + r;
        assert(put_outcomes(c, i) + r =~= put_outcome(c.outcomes[i], misses_at(c.misses, i)) + rest);
        lemma_outcome_front(c.outcomes[i], misses_at(c.misses, i), rest);
        assert(seq![(c.outcomes[i], misses_at(c.misses, i))] + pairs(c, i + 1) =~= pairs(c, i));
    }
}

proof fn lemma_ids_front(ids: Seq<u128>, i: int, r: Seq<u8>)
    requires
        0 <= i <= ids.len(),
    ensures
        get_ids(put_ids(ids, i) + r, (ids.len() - i) as nat) == Some((ids.skip(i), r)),
        put_ids(ids, i).len() >= 16 * (ids.len() - i),
    decreases ids.len() - i,
{
    if i == ids.len() {
        assert(put_ids(ids, i) + r =~= r);
        assert(ids.skip(i) =~= Seq::<u128>::empty());
    } else {
        lemma_ids_front(ids, i + 1, r);
        let rest = put_ids(ids, i + 1) + r;
        assert(put_ids(ids, i) + r =~= id_bytes(ids[i]) + rest);
        lemma_id_front(ids[i], rest);
        assert(seq![ids[i]] + ids.skip(i + 1) =~= ids.skip(i));
    }
}

proof fn lemma_rows_front(rows: Seq<RowV>, i: int, r: Seq<u8>)
    requires
        rows_fit(rows),
        0 <= i <= rows.len(),
    ensures
        get_rows(put_rows(rows, i) + r, (rows.len() - i) as nat) == Some((rows.skip(i), r)),
        put_rows(rows, i).len() >= 20 * (rows.len() - i),
    decreases rows.len() - i,
{
    if i == rows.len() {
        assert(put_rows(rows, i) + r =~= r);
        assert(rows.skip(i) =~= Seq::<RowV>::empty());
    } else {
        lemma_rows_front(rows, i + 1, r);
        let rest = put_rows(rows, i + 1) + r;
        let row = rows[i];
        assert(put_rows(rows, i) + r =~= id_bytes(row.0) + (put_counted_names(row.1) + rest));
        lemma_id_front(row.0, put_counted_names(row.1) + rest);
        lemma_counted_names_front(row.1, rest);
        assert(seq![row] + rows.skip(i + 1) =~= rows.skip(i));
    }
}

proof fn lemma_count_front(n: u64, unit: int, r: Seq<u8>)
    requires
        unit > 0,
        r.len() >= unit * n,
    ensures
        get_count(spec_u64_to_le_bytes(n) + r, unit) == Some((n, r)),
{
    lemma_u64_front(n, r);
    let len = r.len() as int;
    assert(len / unit >= n) by (nonlinear_arith)
        requires
            unit > 0,
            len >= unit * n,
    ;
}

proof fn lemma_table_front(rows: Seq<RowV>, r: Seq<u8>)
    requires
        rows_fit(rows),
    ensures
        get_table(put_table(rows) + r) == Some((rows, r)),
{
    let rest = put_rows(rows, 0) + r;
    assert(put_table(rows) + r =~= spec_u64_to_le_bytes(rows.len() as u64) + rest);
    lemma_rows_front(rows, 0, r);
    lemma_count_front(rows.len() as u64, 20, rest);
    assert(rows.skip(0) =~= rows);
}

proof fn lemma_content(c: CacheV)
    requires
        cache_fits(c),
    ensures
        get_content(put_content(c)) == Some(c),
{
    let t2 = put_table(c.lib_mem_qnames);
    let t1 = put_table(c.lib_qnames) + t2;
    let ids = put_ids(c.lib_ids, 0) + t1;
    let r2 = spec_u64_to_le_bytes(c.lib_ids.len() as u64) + ids;
    let outs = put_outcomes(c, 0) + r2;
    let r1 = spec_u64_to_le_bytes(c.outcomes.len() as u64) + outs;
    lemma_u64_front(c.fingerprint, r1);
    lemma_outcomes_front(c, 0, r2);
    lemma_count_front(c.outcomes.len() as u64, 1, outs);
    lemma_ids_front(c.lib_ids, 0, t1);
    lemma_count_front(c.lib_ids.len() as u64, 16, ids);
    lemma_table_front(c.lib_qnames, t2);
    lemma_table_front(c.lib_mem_qnames, Seq::empty());
    assert(t2 + Seq::<u8>::empty() =~= t2);
    assert(c.lib_ids.skip(0) =~= c.lib_ids);
    assert(targets(pairs(c, 0)) =~= c.outcomes);
    assert(missed(pairs(c, 0)) =~= c.misses);
}

proof fn lemma_header(content: Seq<u8>, build: Seq<char>)
    requires
        encode_utf8(build).len() <= 255,
    ensures
        ({
            let v = encode_utf8(build);
            let body = header(build) + content;
            &&& body.len() == 9 + v.len() + content.len()
            &&& body.take(8) == magic_bytes()
            &&& body[8] == v.len()
            &&& body.subrange(9, 9 + v.len() as int) == v
            &&& body.skip(9 + v.len() as int) == content
        }),
{
    let v = encode_utf8(build);
    let m = magic_bytes();
    let body = header(build) + content;
    assert(m.len() == 8);
    assert(body.take(8) =~= m);
    assert(body.subrange(9, 9 + v.len() as int) =~= v);
    assert(body.skip(9 + v.len() as int) =~= content);
}

proof fn lemma_frame(content: Seq<u8>, build: Seq<char>)
    requires
        encode_utf8(build).len() <= 255,
    ensures
        checksum_holds(frame(content, build)),
        has_header(frame(content, build).take(frame(content, build).len() - 8), build),
        frame(content, build).take(frame(content, build).len() - 8) == header(build) + content,
        frame(content, build).subrange(
            9 + encode_utf8(build).len() as int,
            frame(content, build).len() - 8,
        ) == content,
{
    let b = frame(content, build);
    let body = header(build) + content;
    lemma_header(content, build);
    let sum = spec_u64_to_le_bytes(fnv(fnv_start(), body));
    lemma_auto_spec_u64_to_from_le_bytes();
    assert(b.take(b.len() - 8) =~= body);
    assert(b.skip(b.len() - 8) =~= sum);
    assert(
        b.subrange(9 + encode_utf8(build).len() as int, b.len() - 8) =~= body.skip(
            9 + encode_utf8(build).len() as int
        )
    );
}

/// Reading back what was written gives what was written, for every cache
/// whose counts fit their fields and every build identity of at most 255
/// bytes.
pub proof fn law_read_gives_what_was_written(c: CacheV, build: Seq<char>)
    requires
        cache_fits(c),
        encode_utf8(build).len() <= 255,
    ensures
        get_cache(put_cache(c, build), build) == Some(c),
{
    lemma_frame(put_content(c), build);
    lemma_content(c);
}

/// A cache recorded by one build is not read by another.
pub proof fn law_other_builds_read_nothing(c: CacheV, recorded: Seq<char>, reader: Seq<char>)
    requires
        encode_utf8(recorded).len() <= 255,
        recorded != reader,
    ensures
        get_cache(put_cache(c, recorded), reader) is None,
{
    let content = put_content(c);
    let body = header(recorded) + content;
    lemma_frame(content, recorded);
    lemma_header(content, recorded);
    if has_header(body, reader) {
        assert(encode_utf8(recorded) == encode_utf8(reader));
        encode_utf8_decode_utf8(recorded);
        encode_utf8_decode_utf8(reader);
    }
}

/// A byte string whose checksum does not hold is not read.
pub proof fn law_damage_is_refused(b: Seq<u8>, build: Seq<char>)
    requires
        !checksum_holds(b),
    ensures
        get_cache(b, build) is None,
{
}

proof fn lemma_more_u32(b: Seq<u8>, e: Seq<u8>)
    requires
        get_u32(b) is Some,
    ensures
        get_u32(b + e) == Some(((get_u32(b)->0).0, (get_u32(b)->0).1 + e)),
{
    assert((b + e).take(4) =~= b.take(4));
    assert((b + e).skip(4) =~= b.skip(4) + e);
}

proof fn lemma_more_u64(b: Seq<u8>, e: Seq<u8>)
    requires
        get_u64(b) is Some,
    ensures
        get_u64(b + e) == Some(((get_u64(b)->0).0, (get_u64(b)->0).1 + e)),
{
    assert((b + e).take(8) =~= b.take(8));
    assert((b + e).skip(8) =~= b.skip(8) + e);
}

proof fn lemma_more_id(b: Seq<u8>, e: Seq<u8>)
    requires
        get_id(b) is Some,
    ensures
        get_id(b + e) == Some(((get_id(b)->0).0, (get_id(b)->0).1 + e)),
{
    assert((b + e).take(16) =~= b.take(16));
    assert((b + e).skip(16) =~= b.skip(16) + e);
}

proof fn lemma_more_name(b: Seq<u8>, e: Seq<u8>)
    requires
        get_name(b) is Some,
    ensures
        get_name(b + e) == Some(((get_name(b)->0).0, (get_name(b)->0).1 + e)),
{
    lemma_more_u32(b, e);
    let (n, r) = get_u32(b)->0;
    assert((r + e).take(n as int) =~= r.take(n as int));
    assert((r + e).skip(n as int) =~= r.skip(n as int) + e);
}

proof fn lemma_more_names(b: Seq<u8>, e: Seq<u8>, n: nat)
    requires
        get_names(b, n) is Some,
    ensures
        get_names(b + e, n) == Some(((get_names(b, n)->0).0, (get_names(b, n)->0).1 + e)),
    decreases n,
{
    if n > 0 {
        lemma_more_name(b, e);
        lemma_more_names((get_name(b)->0).1, e, (n - 1) as nat);
    }
}

proof fn lemma_more_counted_names(b: Seq<u8>, e: Seq<u8>)
    requires
        get_counted_names(b) is Some,
    ensures
        get_counted_names(b + e) == Some(((get_counted_names(b)->0).0, (get_counted_names(b)->0).1 + e)),
{
    lemma_more_u32(b, e);
    let (n, r) = get_u32(b)->0;
    lemma_room(r.len(), e.len(), n as nat, 4);
    lemma_more_names(r, e, n as nat);
}

proof fn lemma_more_target(b: Seq<u8>, e: Seq<u8>, tag: u8)
    requires
        get_target(tag, b) is Some,
    ensures
        get_target(tag, b + e) == Some(((get_target(tag, b)->0).0, (get_target(tag, b)->0).1 + e)),
{
    if tag == 1 || tag == 3 {
        lemma_more_id(b, e);
    }
}

proof fn lemma_more_misses(b: Seq<u8>, e: Seq<u8>, tag: u8)
    requires
        get_misses(tag, b) is Some,
    ensures
        get_misses(tag, b + e) == Some(((get_misses(tag, b)->0).0, (get_misses(tag, b)->0).1 + e)),
{
    if tag == 2 || tag == 3 {
        lemma_more_counted_names(b, e);
    }
}

proof fn lemma_more_outcome(b: Seq<u8>, e: Seq<u8>)
    requires
        get_outcome(b) is Some,
    ensures
        get_outcome(b + e) == Some(((get_outcome(b)->0).0, (get_outcome(b)->0).1 + e)),
{
    assert((b + e).skip(1) =~= b.skip(1) + e);
    lemma_more_target(b.skip(1), e, b[0]);
    lemma_more_misses((get_target(b[0], b.skip(1))->0).1, e, b[0]);
}

proof fn lemma_more_outcomes(b: Seq<u8>, e: Seq<u8>, n: nat)
    requires
        get_outcomes(b, n) is Some,
    ensures
        get_outcomes(b + e, n) == Some(((get_outcomes(b, n)->0).0, (get_outcomes(b, n)->0).1 + e)),
    decreases n,
{
    if n > 0 {
        lemma_more_outcome(b, e);
        lemma_more_outcomes((get_outcome(b)->0).1, e, (n - 1) as nat);
    }
}

proof fn lemma_more_ids(b: Seq<u8>, e: Seq<u8>, n: nat)
    requires
        get_ids(b, n) is Some,
    ensures
        get_ids(b + e, n) == Some(((get_ids(b, n)->0).0, (get_ids(b, n)->0).1 + e)),
    decreases n,
{
    if n > 0 {
        lemma_more_id(b, e);
        lemma_more_ids((get_id(b)->0).1, e, (n - 1) as nat);
    }
}

proof fn lemma_more_row(b: Seq<u8>, e: Seq<u8>)
    requires
        get_row(b) is Some,
    ensures
        get_row(b + e) == Some(((get_row(b)->0).0, (get_row(b)->0).1 + e)),
{
    lemma_more_id(b, e);
    lemma_more_counted_names((get_id(b)->0).1, e);
}

proof fn lemma_more_rows(b: Seq<u8>, e: Seq<u8>, n: nat)
    requires
        get_rows(b, n) is Some,
    ensures
        get_rows(b + e, n) == Some(((get_rows(b, n)->0).0, (get_rows(b, n)->0).1 + e)),
    decreases n,
{
    if n > 0 {
        lemma_more_row(b, e);
        lemma_more_rows((get_row(b)->0).1, e, (n - 1) as nat);
    }
}

proof fn lemma_room(r: nat, e: nat, n: nat, unit: nat)
    requires
        unit > 0,
        n <= r / unit,
    ensures
        n <= (r + e) / unit,
{
    assert(r / unit <= (r + e) / unit) by (nonlinear_arith)
        requires
            unit > 0,
    ;
}

proof fn lemma_more_count(b: Seq<u8>, e: Seq<u8>, unit: int)
    requires
        unit > 0,
        get_count(b, unit) is Some,
    ensures
        get_count(b + e, unit) == Some(((get_count(b, unit)->0).0, (get_count(b, unit)->0).1 + e)),
{
    lemma_more_u64(b, e);
    let (n, r) = get_u64(b)->0;
    lemma_room(r.len(), e.len(), n as nat, unit as nat);
}

proof fn lemma_more_all_outcomes(b: Seq<u8>, e: Seq<u8>)
    requires
        get_all_outcomes(b) is Some,
    ensures
        get_all_outcomes(b + e) == Some(((get_all_outcomes(b)->0).0, (get_all_outcomes(b)->0).1 + e)),
{
    lemma_more_count(b, e, 1);
    let (n, r) = get_count(b, 1)->0;
    lemma_more_outcomes(r, e, n as nat);
}

proof fn lemma_more_all_ids(b: Seq<u8>, e: Seq<u8>)
    requires
        get_all_ids(b) is Some,
    ensures
        get_all_ids(b + e) == Some(((get_all_ids(b)->0).0, (get_all_ids(b)->0).1 + e)),
{
    lemma_more_count(b, e, 16);
    let (n, r) = get_count(b, 16)->0;
    lemma_more_ids(r, e, n as nat);
}

proof fn lemma_more_table(b: Seq<u8>, e: Seq<u8>)
    requires
        get_table(b) is Some,
    ensures
        get_table(b + e) == Some(((get_table(b)->0).0, (get_table(b)->0).1 + e)),
{
    lemma_more_count(b, e, 20);
    let (n, r) = get_count(b, 20)->0;
    lemma_more_rows(r, e, n as nat);
}

proof fn lemma_content_ends(b: Seq<u8>, e: Seq<u8>)
    requires
        get_content(b) is Some,
        e.len() > 0,
    ensures
        get_content(b + e) is None,
{
    lemma_more_u64(b, e);
    let r = (get_u64(b)->0).1;
    lemma_more_all_outcomes(r, e);
    let r2 = (get_all_outcomes(r)->0).1;
    lemma_more_all_ids(r2, e);
    let r3 = (get_all_ids(r2)->0).1;
    lemma_more_table(r3, e);
    let r4 = (get_table(r3)->0).1;
    lemma_more_table(r4, e);
    assert(((get_table(r4)->0).1 + e).len() > 0);
}

/// Of two byte strings, one the beginning of the other, at most one is read:
/// a cache that was cut short is refused, and so is one with bytes behind it,
/// whatever the last bytes happen to be.
pub proof fn law_one_length_is_read(short: Seq<u8>, long: Seq<u8>, build: Seq<char>)
    requires
        short.len() < long.len(),
        long.take(short.len() as int) == short,
    ensures
        get_cache(short, build) is None || get_cache(long, build) is None,
{
    if get_cache(short, build) is Some && get_cache(long, build) is Some {
        let h = 9 + encode_utf8(build).len() as int;
        let x = short.subrange(h, short.len() - 8);
        let y = long.subrange(h, long.len() - 8);
        let e = long.subrange(short.len() - 8, long.len() - 8);
        assert forall|i: int| 0 <= i < short.len() implies short[i] == long[i] by {
            assert(long.take(short.len() as int)[i] == long[i]);
        }
        assert(y =~= x + e);
        lemma_content_ends(x, e);
    }
}

/// What was written is not read once it is cut short or has bytes behind it.
pub proof fn law_written_caches_have_one_length(c: CacheV, build: Seq<char>, other: Seq<u8>)
    requires
        cache_fits(c),
        encode_utf8(build).len() <= 255,
        ({
            let b = put_cache(c, build);
            ||| other.len() < b.len() && b.take(other.len() as int) == other
            ||| other.len() > b.len() && other.take(b.len() as int) == b
        }),
    ensures
        get_cache(other, build) is None,
{
    let b = put_cache(c, build);
    law_read_gives_what_was_written(c, build);
    if other.len() < b.len() {
        law_one_length_is_read(other, b, build);
    } else {
        law_one_length_is_read(b, other, build);
    }
}

} // verus!
