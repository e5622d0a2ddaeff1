use vs_runner::extension::{sort_extensions, ExtensionData};
use vs_runner::listing::{
    display_as_list, display_as_table, list, render_listing, ListCLI, Listing, Table,
    EMPTY_CATALOG,
};
use vs_runner::profile::Failure;
use vs_runner::manifest::{get_extension_data, parse_manifest, ManifestError};

fn record(publisher: &str, name: &str, version: &str) -> ExtensionData {
    ExtensionData {
        publisher: publisher.to_string(),
        name: name.to_string(),
        version: version.to_string(),
        display_name: None,
        description: None,
        categories: Vec::new(),
        icon: None,
    }
}

fn flags(versions: bool, commends: bool, table: bool) -> ListCLI {
    ListCLI { versions, commends, table, icons: false }
}

fn table(exts: &Vec<ExtensionData>, cli: &ListCLI, width: usize) -> Table {
    match display_as_table(exts, cli, width) {
        Listing::Table(t) => t,
        Listing::Lines(_) => panic!("expected a table"),
    }
}

fn two_manifests() -> Vec<String> {
    vec![
        r#"{"publisher":"ms","name":"python","version":"1.0"}"#.to_string(),
        r#"{"publisher":"ms","name":"cpp","version":"2.0"}"#.to_string(),
    ]
}

#[test]
fn plain_list_is_sorted_without_versions() {
    let exts = get_extension_data(&two_manifests()).unwrap();
    let lines = display_as_list(&exts, &flags(false, false, false));
    assert_eq!(lines, vec!["ms.cpp".to_string(), "ms.python".to_string()]);
}

#[test]
fn plain_list_with_versions() {
    let exts = get_extension_data(&two_manifests()).unwrap();
    let lines = display_as_list(&exts, &flags(true, false, false));
    assert_eq!(lines, vec!["ms.cpp@2.0".to_string(), "ms.python@1.0".to_string()]);
}

#[test]
fn sort_ignores_case() {
    let exts = vec![record("b", "x", "1"), record("A", "z", "1"), record("a", "y", "1")];
    let sorted = sort_extensions(exts);
    let names: Vec<String> = sorted.iter().map(|e| e.get_name(false)).collect();
    assert_eq!(names, vec!["a.y", "A.z", "b.x"]);
}

#[test]
fn sort_keeps_strict_order_for_distinct_keys() {
    let exts = vec![
        record("ms", "python", "1.0"),
        record("MS", "cpp", "2.0"),
        record("golang", "go", "0.1"),
    ];
    let sorted = sort_extensions(exts);
    for w in sorted.windows(2) {
        assert!(w[0].sort_key() < w[1].sort_key());
    }
}

#[test]
fn compare_orders_by_upper_case_key() {
    let a = record("ms", "cpp", "2.0");
    let b = record("MS", "python", "1.0");
    assert_eq!(a.compare(&b), std::cmp::Ordering::Less);
    assert_eq!(b.compare(&a), std::cmp::Ordering::Greater);
    assert_eq!(a.compare(&record("MS", "CPP", "2.0")), std::cmp::Ordering::Equal);
}

#[test]
fn sort_key_is_upper_case_identifier() {
    assert_eq!(record("ms", "cpp", "2.0").sort_key(), "MS.CPP@2.0");
}

#[test]
fn manifest_reads_optional_members() {
    let text = r#"{"publisher":"p","name":"n","version":"3","displayName":"N","description":"d","categories":["A","B"],"icon":"i.png"}"#;
    let e = parse_manifest(text).unwrap();
    assert_eq!(e.publisher, "p");
    assert_eq!(e.name, "n");
    assert_eq!(e.version, "3");
    assert_eq!(e.display_name.as_deref(), Some("N"));
    assert_eq!(e.description.as_deref(), Some("d"));
    assert_eq!(e.categories, vec!["A".to_string(), "B".to_string()]);
    assert_eq!(e.icon.as_deref(), Some("i.png"));
}

#[test]
fn manifest_without_categories_has_none() {
    let e = parse_manifest(r#"{"publisher":"p","name":"n","version":"3"}"#).unwrap();
    assert!(e.categories.is_empty());
    assert!(e.display_name.is_none());
}

#[test]
fn manifest_errors() {
    assert_eq!(parse_manifest("{not json").unwrap_err(), ManifestError::Syntax);
    assert_eq!(
        parse_manifest(r#"{"publisher":"p","version":"1"}"#).unwrap_err(),
        ManifestError::MissingName
    );
    assert_eq!(
        parse_manifest(r#"{"publisher":"p","name":"n"}"#).unwrap_err(),
        ManifestError::MissingVersion
    );
    assert_eq!(
        parse_manifest(r#"{"name":"n","version":"1"}"#).unwrap_err(),
        ManifestError::MissingPublisher
    );
    assert_eq!(
        parse_manifest(r#"{"publisher":"p","name":"n","version":"1","categories":["a",3]}"#)
            .unwrap_err(),
        ManifestError::BadCategory
    );
}

#[test]
fn one_bad_manifest_stops_the_catalog() {
    let mut m = two_manifests();
    m.push("[]".to_string());
    assert_eq!(get_extension_data(&m).unwrap_err(), ManifestError::MissingName);
    assert!(get_extension_data(&Vec::new()).unwrap().is_empty());
}

#[test]
fn annotated_list_shows_comments() {
    let mut e = record("ms", "python", "1.0");
    e.display_name = Some("Python".to_string());
    e.description = Some("Language support".to_string());
    e.categories = vec!["Programming Languages".to_string(), "Debuggers".to_string()];
    let lines = display_as_list(&vec![e], &flags(true, true, false));
    assert_eq!(
        lines,
        vec![
            "# Python (1.0)".to_string(),
            "# Language support".to_string(),
            "# Type: Programming Languages, Debuggers".to_string(),
            "ms.python@1.0".to_string(),
            "".to_string(),
        ]
    );
}

#[test]
fn placeholders_are_not_shown_in_list() {
    let mut e = record("ms", "python", "1.0");
    e.display_name = Some("%ext.displayName%".to_string());
    e.description = Some("%ext.description%".to_string());
    let lines = display_as_list(&vec![e], &flags(false, true, false));
    assert_eq!(lines, vec!["ms.python".to_string(), "".to_string()]);
}

#[test]
fn placeholders_are_not_shown_in_table() {
    let mut e = record("ms", "python", "1.0");
    e.display_name = Some("%ext.displayName%".to_string());
    e.description = Some("%ext.description%".to_string());
    let t = table(&vec![e], &flags(false, true, true), 80);
    assert_eq!(t.rows[0].display_name, "");
    assert!(t.rows[0].details.is_empty());
}

#[test]
fn table_width_follows_longest_name() {
    // "abcdefghij.klmnopqrs" has 20 characters.
    let mut long = record("abcdefghij", "klmnopqrs", "1");
    long.description = Some("x".repeat(70));
    let short = record("a", "b", "1");
    let t = table(&vec![long, short], &flags(false, true, true), 80);
    assert_eq!(t.name_len, 20);
    assert_eq!(t.desc_len, 58);
    let expected = format!("{}\u{2026}", "x".repeat(58));
    assert_eq!(t.rows[0].details, vec![expected]);
    assert_eq!(t.rows[0].name, "abcdefghij.klmnopqrs");
    assert!(t.rows[1].details.is_empty());
}

#[test]
fn table_categories_line() {
    let mut e = record("ms", "go", "1");
    e.categories = vec!["A".to_string(), "B".to_string()];
    e.display_name = Some("Go".to_string());
    let t = table(&vec![e], &flags(false, true, true), 80);
    assert_eq!(t.rows[0].display_name, "Go");
    assert_eq!(t.rows[0].details, vec!["Type: A, B".to_string()]);
    let t = table(&t_rows_source(), &flags(false, false, true), 80);
    assert!(t.rows[0].details.is_empty());
}

fn t_rows_source() -> Vec<ExtensionData> {
    let mut e = record("ms", "go", "1");
    e.categories = vec!["A".to_string()];
    e.description = Some("d".to_string());
    vec![e]
}

#[test]
fn narrow_terminal_leaves_no_description_width() {
    let t = table(&t_rows_source(), &flags(false, true, true), 4);
    assert_eq!(t.desc_len, 0);
    assert_eq!(t.rows[0].details, vec!["".to_string()]);
}

#[test]
fn empty_table_prints_one_line() {
    match render_listing(&flags(false, false, true), &Vec::new(), 80) {
        Listing::Lines(l) => assert_eq!(l, vec![EMPTY_CATALOG.to_string()]),
        Listing::Table(_) => panic!("expected a single line"),
    }
}

#[test]
fn list_picks_the_mode() {
    let exts = vec![record("ms", "cpp", "2.0")];
    match render_listing(&flags(true, false, false), &exts, 80) {
        Listing::Lines(l) => assert_eq!(l, vec!["ms.cpp@2.0".to_string()]),
        Listing::Table(_) => panic!("expected a list"),
    }
    match render_listing(&flags(false, false, true), &exts, 80) {
        Listing::Table(t) => assert_eq!(t.desc_len, 80 - 6 - 2),
        Listing::Lines(_) => panic!("expected a table"),
    }
}

#[test]
fn equal_keys_keep_their_order() {
    let mut first = record("ms", "tool", "1");
    first.description = Some("first".to_string());
    let mut second = record("MS", "TOOL", "1");
    second.description = Some("second".to_string());
    let sorted = sort_extensions(vec![record("zz", "a", "1"), first, second]);
    assert_eq!(sorted[0].description.as_deref(), Some("first"));
    assert_eq!(sorted[1].description.as_deref(), Some("second"));
    assert_eq!(sorted[2].publisher, "zz");
}

#[test]
fn catalog_keeps_manifest_order_for_equal_keys() {
    let m = vec![
        r#"{"publisher":"ms","name":"x","version":"1","description":"one"}"#.to_string(),
        r#"{"publisher":"MS","name":"X","version":"1","description":"two"}"#.to_string(),
    ];
    let exts = get_extension_data(&m).unwrap();
    assert_eq!(exts[0].description.as_deref(), Some("one"));
    assert_eq!(exts[1].description.as_deref(), Some("two"));
}

#[test]
fn first_bad_manifest_gives_the_error() {
    let m = vec![
        r#"{"publisher":"ms","name":"x","version":"1"}"#.to_string(),
        r#"{"publisher":"ms","version":"1"}"#.to_string(),
        "not json".to_string(),
    ];
    assert_eq!(get_extension_data(&m).unwrap_err(), ManifestError::MissingName);
}

#[test]
fn categories_that_are_not_a_list_count_as_none() {
    let e = parse_manifest(r#"{"publisher":"p","name":"n","version":"3","categories":"x"}"#)
        .unwrap();
    assert!(e.categories.is_empty());
}

#[test]
fn non_string_members_count_as_missing() {
    assert_eq!(
        parse_manifest(r#"{"publisher":"p","name":7,"version":"1"}"#).unwrap_err(),
        ManifestError::MissingName
    );
    let e = parse_manifest(r#"{"publisher":"p","name":"n","version":"1","icon":3}"#).unwrap();
    assert!(e.icon.is_none());
}

#[test]
fn missing_profile_dirs_list_nothing() {
    let r = list(&flags(false, false, false), true, false, &two_manifests(), 80);
    assert!(matches!(r, Err(Failure::Config)));
    assert_eq!(Failure::Config.exit_code(), 78);
    let r = list(&flags(false, false, false), false, true, &Vec::new(), 80);
    assert!(matches!(r, Err(Failure::Config)));
}

#[test]
fn catalog_listing_when_dirs_exist() {
    match list(&flags(true, false, false), true, true, &two_manifests(), 80) {
        Ok(Listing::Lines(l)) => {
            assert_eq!(l, vec!["ms.cpp@2.0".to_string(), "ms.python@1.0".to_string()])
        }
        _ => panic!("expected a list"),
    }
    let bad = vec!["{".to_string()];
    let r = list(&flags(false, false, false), true, true, &bad, 80);
    assert!(matches!(r, Err(Failure::Manifest(ManifestError::Syntax))));
    assert_eq!(Failure::Manifest(ManifestError::Syntax).exit_code(), 65);
}

#[test]
fn empty_catalog_table_is_one_line() {
    match display_as_table(&Vec::new(), &flags(false, true, true), 80) {
        Listing::Lines(l) => assert_eq!(l, vec![EMPTY_CATALOG.to_string()]),
        Listing::Table(_) => panic!("expected a single line"),
    }
}

#[test]
fn empty_description_adds_no_line() {
    let mut e = record("ms", "go", "1");
    e.description = Some(String::new());
    let t = table(&vec![e], &flags(false, true, true), 80);
    assert!(t.rows[0].details.is_empty());
}
