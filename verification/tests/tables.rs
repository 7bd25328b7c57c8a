use std::sync::Arc;

use sysmlv2_model::text::is_white_space;
use sysmlv2_model::ast::{Name, QualifiedName, Span};
use sysmlv2_model::comment::{doc_display_text, process_comment_body};
use sysmlv2_model::ids::{dangling_id, id_namespace, id_of_name, id_of_path};
use sysmlv2_model::names::{Binding, LookupAccess, Names};
use sysmlv2_model::queries::split_qualified;
use sysmlv2_model::refname::{escape_name, last_segment_of, ref_string};
use sysmlv2_model::scope_table::{attach, pack_row, NameRow, NameTable, TableError};
use uuid::Uuid;

fn binding(elem: usize) -> Binding {
    Binding { elem, sub_scope: None, visibility: LookupAccess::Public }
}

fn name(text: &str, start: usize, end: usize) -> NameRow {
    NameRow { text: text.to_string(), start, end }
}

/// The two rows of each scope, stored and read back.
fn stored(scopes: &[(&Names, &Names)]) -> Vec<NameTable> {
    let mut bindings = Vec::new();
    let mut rows = Vec::new();
    for (names, effective) in scopes {
        rows.push(pack_row(names, &mut bindings));
        rows.push(pack_row(effective, &mut bindings));
    }
    attach(scopes.len(), rows, bindings).unwrap_or_else(|_| panic!("refused"))
}

#[test]
fn lookup_tables_share_storage_and_preserve_all_candidates_on_edit() {
    let mut names = Names::new();
    names.push("z", binding(2));
    names.push("a", binding(0));
    names.push("a", binding(1));
    let mut effective = Names::new();
    effective.push("z", binding(3));
    let table = stored(&[(&names, &effective), (&names, &effective)]);
    assert!(Arc::ptr_eq(&table[0].bindings, &table[2].bindings));
    assert_eq!(table[0].get("a"), Some([binding(0), binding(1)].as_slice()));
    assert!(table[0].get("missing").is_none());
    let mut changed = table[0].to_names();
    changed.push("a", binding(4));
    changed.push("b", binding(5));
    assert_eq!(changed.get("a").unwrap().len(), 3);
    assert_eq!(table[0].get("a").unwrap().len(), 2);
    assert!(table[2].get("b").is_none());
    assert_eq!(table[1].to_names().get("z").map(|v| v.as_slice()), Some([binding(3)].as_slice()));
    let replay = stored(&[(&changed, &table[1].to_names())]);
    assert_eq!(replay[0].get("a"), changed.get("a").map(|v| v.as_slice()));
}

#[test]
fn malformed_scope_tables_are_rejected_before_lookup() {
    let cases = vec![
        (vec![vec![name("a", 0, 1)]], vec![binding(0)], TableError::RowCount),
        (vec![vec![name("a", 1, 2)], vec![]], vec![binding(0), binding(1)], TableError::Range),
        (vec![vec![name("a", 0, 2)], vec![]], vec![binding(0)], TableError::Range),
        (
            vec![vec![name("a", 0, 1), name("a", 1, 2)], vec![]],
            vec![binding(0), binding(1)],
            TableError::Order,
        ),
        (
            vec![vec![name("b", 0, 1), name("a", 1, 2)], vec![]],
            vec![binding(0), binding(1)],
            TableError::Order,
        ),
        (vec![vec![name("a", 0, 0)], vec![]], vec![binding(0)], TableError::Unused),
        (vec![vec![name("a", 0, usize::MAX)], vec![]], vec![], TableError::Range),
    ];
    for (rows, bindings, why) in cases {
        assert!(matches!(attach(1, rows, bindings), Err(e) if e == why));
    }
}

#[test]
fn wide_rows_are_sorted_when_packed() {
    let mut names = Names::new();
    for i in (0..20).rev() {
        names.push(&format!("n{i:02}"), binding(i));
    }
    let table = stored(&[(&names, &Names::new())]);
    let texts: Vec<&str> = table[0].rows.iter().map(|r| r.text.as_str()).collect();
    let mut sorted = texts.clone();
    sorted.sort();
    assert_eq!(texts, sorted);
    for i in 0..20 {
        assert_eq!(table[0].get(&format!("n{i:02}")), Some([binding(i)].as_slice()));
    }
}

#[test]
fn visibility_admits_by_access() {
    assert!(LookupAccess::All.admits(LookupAccess::All));
    assert!(LookupAccess::Public.admits(LookupAccess::Public));
    assert!(!LookupAccess::Public.admits(LookupAccess::All));
    assert!(LookupAccess::Protected.admits(LookupAccess::Public));
}

#[test]
fn comment_bodies_lose_their_margins() {
    assert_eq!(process_comment_body("/* one line */"), "one line ");
    assert_eq!(process_comment_body("/*\n * first\n * second\n */"), "first\nsecond\n");
    // However deep the stars stand, they go, and a normalized body stays as
    // it is.
    let deep = process_comment_body("a\n*********b");
    assert_eq!(deep, "a\nb");
    assert_eq!(process_comment_body(&deep), deep);
    let once = process_comment_body("/* * x */");
    assert_eq!(process_comment_body(&once), once);
}

#[test]
fn doc_text_is_shown_without_its_gutter() {
    assert_eq!(doc_display_text("  * first \r\n *second\n\n"), "first\nsecond");
    assert_eq!(doc_display_text("plain"), "plain");
    assert_eq!(doc_display_text(" \u{2003}\n "), "");
    assert_eq!(doc_display_text("*  indented"), "indented");
    assert_eq!(doc_display_text("a\n *  b"), "a\n b");
}

#[test]
fn names_are_escaped_unless_basic() {
    assert_eq!(escape_name("basic_1"), "basic_1");
    assert_eq!(escape_name("two words"), "'two words'");
    assert_eq!(escape_name("1st"), "'1st'");
    assert_eq!(escape_name("it's"), "'it\\'s'");
    assert_eq!(escape_name(""), "''");
}

#[test]
fn qualified_names_split_where_they_join() {
    assert_eq!(split_qualified("A::'two words'::b"), vec!["A", "two words", "b"]);
    assert_eq!(split_qualified("'it\\'s'"), vec!["it's"]);
    assert_eq!(last_segment_of("A::B::'c d'"), "'c d'");
}

#[test]
fn references_are_spelled_with_their_quotes() {
    let seg = |s: &str| Name { value: s.to_string(), span: Span { start: 0, end: 0 } };
    let qn = |is_global| QualifiedName {
        is_global,
        segments: vec![seg("A"), seg("b c")],
        span: Span { start: 0, end: 0 },
    };
    assert_eq!(ref_string(&qn(false)), "A::'b c'");
    assert_eq!(ref_string(&qn(true)), "$::A::'b c'");
}

#[test]
fn identifiers_are_name_based() {
    let ns = Uuid::new_v5(&Uuid::NAMESPACE_URL, b"https://crates.io/crates/sysmlv2-parser");
    assert_eq!(id_namespace(), ns.as_u128());
    assert_eq!(id_of_path("$root/P"), Uuid::new_v5(&ns, b"$root/P").as_u128());
    assert_eq!(id_of_name(5, "x"), Uuid::new_v5(&Uuid::from_u128(5), b"x").as_u128());
    assert_eq!(Uuid::parse_str(&dangling_id("A::B")).unwrap().get_version_num(), 5);
    assert_ne!(dangling_id("A::B"), dangling_id("A::C"));
}

#[test]
fn white_space_is_what_unicode_says() {
    for n in 0..=0x10ffffu32 {
        if let Some(c) = char::from_u32(n) {
            assert_eq!(is_white_space(c), c.is_whitespace());
        }
    }
}
