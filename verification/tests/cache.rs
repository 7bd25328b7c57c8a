use sysmlv2_model::libcache::{cache_file_name, cache_place, hash_library, Fnv, LibraryCache, LibraryFile, Row};

fn hash(bytes: &[u8]) -> u64 {
    let mut h = Fnv::new();
    h.update(bytes);
    h.finish()
}

fn row(id: u128, segs: &[&str]) -> Row {
    Row { id, segs: segs.iter().map(|s| s.to_string()).collect() }
}

fn sample() -> LibraryCache {
    LibraryCache {
        outcomes: vec![Some(1), None, Some(u128::MAX)],
        outcome_misses: vec![vec![], vec!["Missing".to_string(), "zwölf".to_string()], vec![]],
        lib_ids: vec![7, 8, 9],
        lib_qnames: vec![row(7, &["Lib"]), row(8, &["Lib", "two words"])],
        lib_mem_qnames: vec![row(9, &["Lib", "Base"])],
        fingerprint: 0x0123_4567_89ab_cdef,
    }
}

fn pairs(rows: &[Row]) -> Vec<(u128, Vec<String>)> {
    rows.iter().map(|r| (r.id, r.segs.clone())).collect()
}

#[test]
fn hashes_are_fnv_1a() {
    assert_eq!(hash(b""), 0xcbf29ce484222325);
    assert_eq!(hash(b"a"), 0xaf63dc4c8601ec8c);
    assert_eq!(hash(b"foobar"), 0x85944171f73967e8);
    // Hashing in parts is hashing the whole.
    let mut h = Fnv::new();
    h.update(b"foo");
    h.update(b"bar");
    assert_eq!(h.finish(), hash(b"foobar"));
}

#[test]
fn libraries_are_hashed_by_version_names_and_bytes() {
    let file = |path: &str, bytes: &[u8]| LibraryFile {
        path: path.split('/').map(|c| c.to_string()).collect(),
        bytes: bytes.to_vec(),
    };
    let files = vec![file("lib/a.sysml", b"package A;"), file("lib/b.kerml", b"")];
    assert_eq!(hash_library("0.1", &files), hash(b"0.1a.sysmlpackage A;b.kerml"));
    assert_eq!(hash_library("0.2", &vec![]), hash(b"0.2"));
    // Files are taken in path order, component by component: `a/z` comes
    // before `a.b`, and a directory's files stand together.
    let mixed = vec![file("b", b"3"), file("a.b", b"2"), file("a/z", b"1"), file("a", b"0")];
    assert_eq!(hash_library("v", &mixed), hash(b"va0z1a.b2b3"));
}

#[test]
fn cache_files_are_named_by_their_key() {
    assert_eq!(cache_file_name(0xab), "stdlib-00000000000000ab.libcache");
    assert_eq!(cache_file_name(u64::MAX), "stdlib-ffffffffffffffff.libcache");
}

#[test]
fn caches_read_back_what_was_written() {
    let bytes = sample().to_bytes("0.1+abc");
    let read = LibraryCache::from_bytes(&bytes, "0.1+abc").unwrap();
    let want = sample();
    assert_eq!(read.outcomes, want.outcomes);
    assert_eq!(read.outcome_misses, want.outcome_misses);
    assert_eq!(read.lib_ids, want.lib_ids);
    assert_eq!(pairs(&read.lib_qnames), pairs(&want.lib_qnames));
    assert_eq!(pairs(&read.lib_mem_qnames), pairs(&want.lib_mem_qnames));
    assert_eq!(read.fingerprint, want.fingerprint);
}

#[test]
fn caches_of_other_builds_read_as_nothing() {
    let bytes = sample().to_bytes("0.1+abc");
    assert!(LibraryCache::from_bytes(&bytes, "0.1+abd").is_none());
    assert!(LibraryCache::from_bytes(&bytes, "").is_none());
}

#[test]
fn caches_of_another_length_read_as_nothing() {
    // The checksum at the end is made to fit what stands before it.
    let sealed = |body: &[u8]| {
        let mut out = body.to_vec();
        out.extend_from_slice(&hash(body).to_le_bytes());
        out
    };
    let bytes = sample().to_bytes("0.1");
    let body = &bytes[..bytes.len() - 8];
    assert!(LibraryCache::from_bytes(&sealed(body), "0.1").is_some());
    for len in 0..body.len() {
        assert!(LibraryCache::from_bytes(&sealed(&body[..len]), "0.1").is_none(), "length {len}");
    }
    let mut long = body.to_vec();
    long.push(0);
    assert!(LibraryCache::from_bytes(&sealed(&long), "0.1").is_none());
}

#[test]
fn damaged_caches_read_as_nothing() {
    let bytes = sample().to_bytes("0.1");
    for i in 0..bytes.len() {
        let mut bad = bytes.clone();
        bad[i] ^= 1;
        assert!(LibraryCache::from_bytes(&bad, "0.1").is_none(), "byte {i}");
    }
    for len in 0..bytes.len() {
        assert!(LibraryCache::from_bytes(&bytes[..len], "0.1").is_none(), "length {len}");
    }
    let mut long = bytes.clone();
    long.push(0);
    assert!(LibraryCache::from_bytes(&long, "0.1").is_none());
}

#[test]
fn text_that_is_not_utf8_is_refused() {
    // A row's text is damaged, and the checksum at the end is made to fit.
    let mut one = sample();
    one.lib_mem_qnames = vec![row(9, &["QQQQ"])];
    let mut bytes = one.to_bytes("0.1");
    let at = (0..bytes.len() - 3).find(|&i| &bytes[i..i + 4] == b"QQQQ").unwrap();
    bytes[at] = 0xff;
    let body = bytes.len() - 8;
    let sum = hash(&bytes[..body]).to_le_bytes();
    bytes[body..].copy_from_slice(&sum);
    assert!(LibraryCache::from_bytes(&bytes, "0.1").is_none());
    bytes[at] = b'R';
    let sum = hash(&bytes[..body]).to_le_bytes();
    bytes[body..].copy_from_slice(&sum);
    let read = LibraryCache::from_bytes(&bytes, "0.1").unwrap();
    assert_eq!(read.lib_mem_qnames[0].segs, vec!["RQQQ".to_string()]);
}

#[test]
fn a_cache_goes_into_the_first_directory_that_is_known() {
    let file = "stdlib-00000000000000ab.libcache";
    let place = |a: Option<&'static str>, b: Option<&'static str>, c: Option<&'static str>| {
        cache_place(a, b, c, 0xab).map(|p| (p.base, p.below))
    };
    assert_eq!(place(Some("/d"), Some("/x"), Some("/h")), Some(("/d", vec![file.to_string()])));
    assert_eq!(
        place(None, Some("/x"), Some("/h")),
        Some(("/x", vec!["sysmlv2".to_string(), file.to_string()]))
    );
    assert_eq!(
        place(None, None, Some("/h")),
        Some(("/h", vec![".cache".to_string(), "sysmlv2".to_string(), file.to_string()]))
    );
    assert_eq!(place(None, None, None), None);
}
