use lsql::decimal::Comparison;
use lsql::engine::{is_listed, path_to_search, deletes_recursively, validate_path, walk_depth};
use lsql::order::{
    compare_bools, compare_by_term, compare_dates, compare_numbers, compare_options,
    compare_strings, lookup_sort_key, reverse, SortKey,
};
use lsql::{
    apply_limit, compare_entries, execute_query, filter_entries, list_entries, normalize_path,
    parse, select_entries, sort_entries, FSEntry, OrderDirection, OrderTerm, PathError,
    SearchContext, SelectionType, Timestamp,
};

fn entry(name: &str, size: u64, is_dir: bool, modified: i64) -> FSEntry {
    let extension = if is_dir {
        None
    } else {
        name.rsplit_once('.').map(|(_, ext)| ext.to_string())
    };
    FSEntry::new(
        name.to_string(),
        format!("/data/{}", name),
        size,
        is_dir,
        !is_dir,
        Timestamp::new(modified, 0),
        Timestamp::new(0, 0),
        extension,
        if is_dir { "readonly" } else { "readwrite" }.to_string(),
    )
}

fn listing() -> Vec<FSEntry> {
    vec![
        entry("notes.txt", 300, false, 50),
        entry("src", 0, true, 40),
        entry("a.rs", 300, false, 30),
        entry("docs", 0, true, 20),
        entry("b.rs", 100, false, 10),
        entry("Makefile", 300, false, 60),
    ]
}

fn term(field: &str, direction: OrderDirection) -> OrderTerm {
    OrderTerm {
        field: field.to_string(),
        direction,
    }
}

fn names(entries: &[FSEntry]) -> Vec<&str> {
    entries.iter().map(|e| e.name.as_str()).collect()
}

fn sorted(terms: &[OrderTerm]) -> Vec<FSEntry> {
    let mut entries = listing();
    sort_entries(&mut entries, terms);
    entries
}

#[test]
fn texts_compare_by_code_point() {
    assert_eq!(compare_strings("a", "b"), Comparison::Less);
    assert_eq!(compare_strings("b", "a"), Comparison::Greater);
    assert_eq!(compare_strings("a", "a"), Comparison::Equal);
    assert_eq!(compare_strings("", ""), Comparison::Equal);
    assert_eq!(compare_strings("", "a"), Comparison::Less);
    assert_eq!(compare_strings("ab", "a"), Comparison::Greater);
    assert_eq!(compare_strings("Z", "a"), Comparison::Less);
    assert_eq!(compare_strings("é", "z"), Comparison::Greater);
    assert_eq!(compare_strings("a\u{10000}", "a\u{ffff}"), Comparison::Greater);
}

#[test]
fn plain_values_compare_three_ways() {
    assert_eq!(compare_numbers(1, 2), Comparison::Less);
    assert_eq!(compare_numbers(2, 2), Comparison::Equal);
    assert_eq!(compare_numbers(u64::MAX, 0), Comparison::Greater);
    assert_eq!(compare_bools(false, true), Comparison::Less);
    assert_eq!(compare_bools(true, false), Comparison::Greater);
    assert_eq!(compare_bools(true, true), Comparison::Equal);
    assert_eq!(compare_bools(false, false), Comparison::Equal);
    let some = |s: &str| Some(s.to_string());
    assert_eq!(compare_options(&None, &some("a")), Comparison::Less);
    assert_eq!(compare_options(&some("a"), &None), Comparison::Greater);
    assert_eq!(compare_options(&None, &None), Comparison::Equal);
    assert_eq!(compare_options(&some("a"), &some("b")), Comparison::Less);
    assert_eq!(
        compare_dates(&Timestamp::new(1, 0), &Timestamp::new(0, 999_999_999)),
        Comparison::Greater
    );
    assert_eq!(
        compare_dates(&Timestamp::new(1, 0), &Timestamp::new(0, 1_000_000_000)),
        Comparison::Equal
    );
    assert_eq!(
        compare_dates(&Timestamp::new(-1, 5), &Timestamp::new(-1, 6)),
        Comparison::Less
    );
    assert_eq!(reverse(Comparison::Less), Comparison::Greater);
    assert_eq!(reverse(Comparison::Greater), Comparison::Less);
    assert_eq!(reverse(Comparison::Equal), Comparison::Equal);
}

#[test]
fn sort_keys_by_name() {
    assert_eq!(lookup_sort_key("name"), Some(SortKey::Name));
    assert_eq!(lookup_sort_key("path"), Some(SortKey::Path));
    assert_eq!(lookup_sort_key("size"), Some(SortKey::Size));
    assert_eq!(lookup_sort_key("modified"), Some(SortKey::Modified));
    assert_eq!(lookup_sort_key("created"), Some(SortKey::Created));
    assert_eq!(lookup_sort_key("ext"), Some(SortKey::Extension));
    assert_eq!(lookup_sort_key("permissions"), Some(SortKey::Permissions));
    assert_eq!(lookup_sort_key("is_hidden"), Some(SortKey::IsHidden));
    assert_eq!(lookup_sort_key("is_readonly"), Some(SortKey::IsReadonly));
    assert_eq!(lookup_sort_key("is_dir"), Some(SortKey::IsDir));
    assert_eq!(lookup_sort_key("type"), None);
    assert_eq!(lookup_sort_key("NAME"), None);
    assert_eq!(lookup_sort_key(""), None);
}

#[test]
fn first_term_that_tells_apart_decides() {
    let a = entry("a.rs", 300, false, 30);
    let b = entry("b.rs", 100, false, 10);
    let by_size_then_name = [
        term("size", OrderDirection::Ascending),
        term("name", OrderDirection::Ascending),
    ];
    assert_eq!(compare_entries(&a, &b, &by_size_then_name), Comparison::Greater);
    let by_kind_then_name = [
        term("is_dir", OrderDirection::Descending),
        term("name", OrderDirection::Ascending),
    ];
    assert_eq!(compare_entries(&a, &b, &by_kind_then_name), Comparison::Less);
    assert_eq!(compare_entries(&a, &b, &[]), Comparison::Equal);
    assert_eq!(
        compare_entries(&a, &b, &[term("colour", OrderDirection::Descending)]),
        Comparison::Equal
    );
    assert_eq!(
        compare_by_term(&term("name", OrderDirection::Descending), &a, &b),
        Comparison::Greater
    );
    assert_eq!(
        compare_entries(&a, &a, &by_size_then_name),
        Comparison::Equal
    );
}

#[test]
fn directories_first_then_names() {
    let out = sorted(&[
        term("is_dir", OrderDirection::Descending),
        term("name", OrderDirection::Ascending),
    ]);
    assert_eq!(
        names(&out),
        vec!["docs", "src", "Makefile", "a.rs", "b.rs", "notes.txt"]
    );
}

#[test]
fn entries_alike_keep_their_order() {
    // By size alone: the three entries of 300 bytes and the two of none
    // stay as they were listed.
    let out = sorted(&[term("size", OrderDirection::Ascending)]);
    assert_eq!(
        names(&out),
        vec!["src", "docs", "b.rs", "notes.txt", "a.rs", "Makefile"]
    );
    let out = sorted(&[term("size", OrderDirection::Descending)]);
    assert_eq!(
        names(&out),
        vec!["notes.txt", "a.rs", "Makefile", "b.rs", "src", "docs"]
    );
    // A term that names no sort key changes nothing.
    let out = sorted(&[term("type", OrderDirection::Descending)]);
    assert_eq!(names(&out), names(&listing()));
    let out = sorted(&[]);
    assert_eq!(names(&out), names(&listing()));
}

#[test]
fn sorting_by_other_keys() {
    let out = sorted(&[term("modified", OrderDirection::Ascending)]);
    assert_eq!(
        names(&out),
        vec!["b.rs", "docs", "a.rs", "src", "notes.txt", "Makefile"]
    );
    // Entries without an extension come first.
    let out = sorted(&[
        term("ext", OrderDirection::Ascending),
        term("name", OrderDirection::Descending),
    ]);
    assert_eq!(
        names(&out),
        vec!["src", "docs", "Makefile", "b.rs", "a.rs", "notes.txt"]
    );
    let out = sorted(&[
        term("is_readonly", OrderDirection::Ascending),
        term("path", OrderDirection::Ascending),
    ]);
    assert_eq!(
        names(&out),
        vec!["docs", "src", "Makefile", "a.rs", "b.rs", "notes.txt"]
    );
}

#[test]
fn sorting_twice_is_sorting_once() {
    let lists = [
        vec![term("size", OrderDirection::Descending)],
        vec![
            term("is_dir", OrderDirection::Descending),
            term("name", OrderDirection::Ascending),
        ],
        vec![term("ext", OrderDirection::Ascending)],
        vec![],
    ];
    for terms in &lists {
        let once = sorted(terms);
        let mut twice = sorted(terms);
        sort_entries(&mut twice, terms);
        assert_eq!(names(&once), names(&twice));
        assert_eq!(once.len(), listing().len());
        for i in 1..once.len() {
            assert_ne!(
                compare_entries(&once[i - 1], &once[i], terms),
                Comparison::Greater
            );
        }
    }
    let mut none: Vec<FSEntry> = Vec::new();
    sort_entries(&mut none, &[term("name", OrderDirection::Ascending)]);
    assert!(none.is_empty());
}

#[test]
fn limits_cut_from_the_front() {
    for n in 0..10u64 {
        let mut entries = listing();
        apply_limit(&mut entries, Some(n));
        assert!(entries.len() as u64 <= n);
        let expected = std::cmp::min(n as usize, listing().len());
        assert_eq!(names(&entries), names(&listing()[..expected]));
    }
    let mut entries = listing();
    apply_limit(&mut entries, Some(0));
    assert!(entries.is_empty());
    let mut entries = listing();
    apply_limit(&mut entries, Some(u64::MAX));
    assert_eq!(entries.len(), 6);
    let mut entries = listing();
    apply_limit(&mut entries, None);
    assert_eq!(entries.len(), 6);
}

#[test]
fn a_query_filters_then_sorts_then_cuts() {
    let q = parse("select name from . where size > 50 order by size desc, name limit 3").unwrap();
    let out = execute_query(&q, listing());
    assert_eq!(names(&out), vec!["Makefile", "a.rs", "notes.txt"]);

    let q = parse("select * from . where type = \"dir\" order by name").unwrap();
    assert_eq!(names(&execute_query(&q, listing())), vec!["docs", "src"]);

    let q = parse("select * from . limit 0").unwrap();
    assert!(execute_query(&q, listing()).is_empty());

    let q = parse("select * from .").unwrap();
    assert_eq!(names(&execute_query(&q, listing())), names(&listing()));

    let out = select_entries(
        listing(),
        &SelectionType::Files,
        &None,
        &[term("name", OrderDirection::Descending)],
        Some(2),
    );
    assert_eq!(names(&out), vec!["notes.txt", "b.rs"]);
    let out = select_entries(listing(), &SelectionType::Directories, &None, &[], None);
    assert_eq!(names(&out), vec!["src", "docs"]);
    // Listing alone does not sort.
    let out = list_entries(listing(), &SelectionType::Files, &None, Some(2));
    assert_eq!(names(&out), vec!["notes.txt", "a.rs"]);
}

#[test]
fn filtering_keeps_the_order_of_the_listing() {
    let q = parse("select * from . where ext = \"rs\" or name contains \"o\"").unwrap();
    let out = filter_entries(listing(), &q.condition);
    assert_eq!(names(&out), vec!["notes.txt", "a.rs", "docs", "b.rs"]);
    assert_eq!(names(&filter_entries(listing(), &None)), names(&listing()));
    let q = parse("select * from . where owner = \"me\"").unwrap();
    assert!(filter_entries(listing(), &q.condition).is_empty());
}

#[test]
fn paths_are_resolved_against_what_is_known() {
    let cwd = Some("/work/here");
    let home = Some("/home/me");
    assert_eq!(normalize_path(".", cwd, home).unwrap(), "/work/here");
    assert_eq!(normalize_path("  . \n", cwd, home).unwrap(), "/work/here");
    assert_eq!(normalize_path("\u{a0}~/x\u{2003}", cwd, home).unwrap(), "/home/me/x");
    assert_eq!(normalize_path("~", cwd, home).unwrap(), "/home/me");
    assert_eq!(normalize_path("~/notes", cwd, home).unwrap(), "/home/me/notes");
    assert_eq!(normalize_path(" /tmp/x ", cwd, home).unwrap(), "/tmp/x");
    assert_eq!(normalize_path("a b", cwd, home).unwrap(), "a b");
    assert_eq!(normalize_path("./x", cwd, home).unwrap(), "./x");
    assert_eq!(normalize_path("..", cwd, home).unwrap(), "..");
    assert_eq!(normalize_path("x~", cwd, home).unwrap(), "x~");
    assert_eq!(normalize_path("", cwd, home).unwrap(), "");
    assert_eq!(normalize_path("   ", cwd, home).unwrap(), "");
    assert_eq!(
        normalize_path(".", None, home),
        Err(PathError::CurrentDirectoryUnknown)
    );
    assert_eq!(
        normalize_path("~/x", cwd, None),
        Err(PathError::HomeDirectoryUnknown)
    );
    assert_eq!(normalize_path("/x", None, None).unwrap(), "/x");
    assert_eq!(validate_path("/x".to_string(), true).unwrap(), "/x");
    assert_eq!(
        validate_path("/x".to_string(), false),
        Err(PathError::PathNotFound)
    );
    assert_eq!(PathError::PathNotFound.message(), "Path not found");
    assert_eq!(
        PathError::CurrentDirectoryUnknown.message(),
        "Failed to get current directory"
    );
    assert_eq!(
        PathError::HomeDirectoryUnknown.message(),
        "Failed to find the home directory"
    );
}

#[test]
fn a_query_searches_its_own_path_or_the_default() {
    let q = parse("select * from /var").unwrap();
    assert_eq!(path_to_search(&q, "/default"), "/var");
    let q = parse("select * from \"\"").unwrap();
    assert_eq!(path_to_search(&q, "/default"), "/default");
}

#[test]
fn the_walk_and_the_recursive_flag() {
    assert_eq!(walk_depth(false), Some(1));
    assert_eq!(walk_depth(true), None);
    assert!(!is_listed(0));
    assert!(is_listed(1));
    assert!(is_listed(7));
    let plain = parse("delete many from .").unwrap();
    let flagged = parse("delete r many from .").unwrap();
    let select = parse("select * from .").unwrap();
    let off = SearchContext::new(false);
    let on = SearchContext::new(true);
    assert!(!deletes_recursively(&plain, &off));
    assert!(deletes_recursively(&plain, &on));
    assert!(deletes_recursively(&flagged, &off));
    assert!(deletes_recursively(&flagged, &on));
    assert!(!deletes_recursively(&select, &off));
    assert!(deletes_recursively(&select, &on));
    assert!(on.recursive);
}
