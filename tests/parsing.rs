use dartgun::{parse, parse_text, read_toml, Doc, Fault, Field, ParseError, Section, Strategy};

fn s(text: &str) -> Doc {
    Doc::Str(text.to_string())
}

fn tags(list: &[&str]) -> Doc {
    Doc::Array(list.iter().map(|t| s(t)).collect())
}

fn table(pairs: Vec<(&str, Doc)>) -> Doc {
    Doc::Table(pairs.into_iter().map(|(k, v)| (k.to_string(), v)).collect())
}

fn entry(location: &str, destination: &str, strategy: &str, ids: &[&str]) -> Doc {
    table(vec![
        ("location", s(location)),
        ("destination", s(destination)),
        ("strategy", s(strategy)),
        ("identifiers", tags(ids)),
    ])
}

fn manifest(entries: Vec<Doc>) -> Doc {
    table(vec![("dots", Doc::Array(entries))])
}

fn machine(ids: &[&str]) -> Doc {
    table(vec![("identifiers", tags(ids))])
}

fn without(field: &str) -> Doc {
    let all = vec![
        ("location", s("a")),
        ("destination", s("b")),
        ("strategy", s("symlink")),
        ("identifiers", tags(&["laptop"])),
    ];
    table(all.into_iter().filter(|(k, _)| *k != field).collect())
}

#[test]
fn parses_entries_in_order() {
    let m = manifest(vec![
        entry("src/vimrc", "~/.vimrc", "symlink", &["laptop", "work"]),
        entry("src/zshrc", "/home/u/.zshrc", "hardlink", &["server"]),
    ]);
    let d = parse(&m, &machine(&["laptop"])).unwrap();
    assert_eq!(d.machine.identifiers, vec!["laptop".to_string()]);
    assert_eq!(d.dots.len(), 2);
    assert_eq!(d.dots[0].location, "src/vimrc");
    assert_eq!(d.dots[0].destination, "~/.vimrc");
    assert_eq!(d.dots[0].strategy, Strategy::Symlink);
    assert_eq!(d.dots[0].identifiers, vec!["laptop".to_string(), "work".to_string()]);
    assert_eq!(d.dots[1].location, "src/zshrc");
    assert_eq!(d.dots[1].strategy, Strategy::Hardlink);
    assert_eq!(d.dots[1].identifiers, vec!["server".to_string()]);
}

#[test]
fn empty_dots_parse() {
    let d = parse(&manifest(vec![]), &machine(&[])).unwrap();
    assert!(d.dots.is_empty());
    assert!(d.machine.identifiers.is_empty());
}

#[test]
fn missing_field_names_entry_and_field() {
    let cases = [
        ("location", Field::Location),
        ("destination", Field::Destination),
        ("strategy", Field::Strategy),
        ("identifiers", Field::Identifiers),
    ];
    for (key, field) in cases {
        let m = manifest(vec![entry("a", "b", "symlink", &["x"]), without(key)]);
        let err = parse(&m, &machine(&["x"])).unwrap_err();
        assert_eq!(err, ParseError { section: Section::Entry(1), fault: Fault::Missing(field) });
    }
}

#[test]
fn first_missing_field_is_reported() {
    let m = manifest(vec![table(vec![("strategy", s("symlink"))])]);
    let err = parse(&m, &machine(&["x"])).unwrap_err();
    assert_eq!(err.fault, Fault::Missing(Field::Location));
}

#[test]
fn wrong_types_are_structural_errors() {
    let m = manifest(vec![table(vec![
        ("location", Doc::Other),
        ("destination", s("b")),
        ("strategy", s("symlink")),
        ("identifiers", tags(&["x"])),
    ])]);
    let err = parse(&m, &machine(&["x"])).unwrap_err();
    assert_eq!(err, ParseError { section: Section::Entry(0), fault: Fault::WrongType(Field::Location) });

    let m = manifest(vec![table(vec![
        ("location", s("a")),
        ("destination", s("b")),
        ("strategy", s("symlink")),
        ("identifiers", Doc::Array(vec![s("x"), Doc::Other])),
    ])]);
    let err = parse(&m, &machine(&["x"])).unwrap_err();
    assert_eq!(err.fault, Fault::WrongType(Field::Identifiers));

    let err = parse(&manifest(vec![s("not a table")]), &machine(&["x"])).unwrap_err();
    assert_eq!(err, ParseError { section: Section::Entry(0), fault: Fault::NotATable });
}

#[test]
fn invalid_strategy_fails_parse() {
    let m = manifest(vec![entry("a", "b", "symlink", &["x"]), entry("c", "d", "copy", &["x"])]);
    let err = parse(&m, &machine(&["x"])).unwrap_err();
    assert_eq!(
        err,
        ParseError { section: Section::Entry(1), fault: Fault::InvalidStrategy("copy".to_string()) }
    );
}

#[test]
fn strategy_names_are_exact() {
    assert_eq!(Strategy::from_str("symlink"), Ok(Strategy::Symlink));
    assert_eq!(Strategy::from_str("hardlink"), Ok(Strategy::Hardlink));
    assert_eq!(Strategy::from_str("copy"), Err(Fault::InvalidStrategy("copy".to_string())));
    assert_eq!(Strategy::from_str("Symlink"), Err(Fault::InvalidStrategy("Symlink".to_string())));
    assert_eq!(Strategy::from_str(""), Err(Fault::InvalidStrategy(String::new())));
}

#[test]
fn manifest_and_machine_shape_errors() {
    let err = parse(&table(vec![]), &machine(&["x"])).unwrap_err();
    assert_eq!(err, ParseError { section: Section::Manifest, fault: Fault::Missing(Field::Dots) });
    let err = parse(&table(vec![("dots", s("x"))]), &machine(&["x"])).unwrap_err();
    assert_eq!(err, ParseError { section: Section::Manifest, fault: Fault::WrongType(Field::Dots) });
    let err = parse(&Doc::Other, &machine(&["x"])).unwrap_err();
    assert_eq!(err, ParseError { section: Section::Manifest, fault: Fault::NotATable });
    let err = parse(&manifest(vec![]), &table(vec![])).unwrap_err();
    assert_eq!(err, ParseError { section: Section::Machine, fault: Fault::Missing(Field::Identifiers) });
    let err = parse(&manifest(vec![]), &table(vec![("identifiers", s("x"))])).unwrap_err();
    assert_eq!(err, ParseError { section: Section::Machine, fault: Fault::WrongType(Field::Identifiers) });
}

#[test]
fn dots_checked_before_machine_and_machine_before_entries() {
    let err = parse(&table(vec![]), &table(vec![])).unwrap_err();
    assert_eq!(err.section, Section::Manifest);
    let bad = manifest(vec![entry("a", "b", "copy", &["x"])]);
    let err = parse(&bad, &table(vec![])).unwrap_err();
    assert_eq!(err.section, Section::Machine);
}

const MANIFEST: &str = r#"
[[dots]]
location = "dots/vimrc"
destination = "/home/u/.vimrc"
strategy = "symlink"
identifiers = ["laptop", "work"]

[[dots]]
location = "dots/zshrc"
destination = "/home/u/.zshrc"
strategy = "hardlink"
identifiers = ["server"]
"#;

#[test]
fn parses_toml_text() {
    let d = parse_text(MANIFEST, "identifiers = [\"laptop\"]").unwrap();
    assert_eq!(d.machine.identifiers, vec!["laptop".to_string()]);
    assert_eq!(d.dots.len(), 2);
    assert_eq!(d.dots[0].location, "dots/vimrc");
    assert_eq!(d.dots[0].destination, "/home/u/.vimrc");
    assert_eq!(d.dots[0].strategy, Strategy::Symlink);
    assert_eq!(d.dots[0].identifiers, vec!["laptop".to_string(), "work".to_string()]);
    assert_eq!(d.dots[1].strategy, Strategy::Hardlink);
}

#[test]
fn toml_text_errors() {
    let err = parse_text("dots = [", "identifiers = []").unwrap_err();
    assert_eq!(err.section, Section::Manifest);
    assert!(matches!(err.fault, Fault::Syntax(ref m) if !m.is_empty()));
    let err = parse_text(MANIFEST, "identifiers = ").unwrap_err();
    assert_eq!(err.section, Section::Machine);
    assert!(matches!(err.fault, Fault::Syntax(_)));
    let text = "[[dots]]\nlocation = \"a\"\ndestination = \"b\"\nstrategy = \"copy\"\nidentifiers = [\"x\"]\n";
    let err = parse_text(text, "identifiers = [\"x\"]").unwrap_err();
    assert_eq!(err.fault, Fault::InvalidStrategy("copy".to_string()));
    let err = parse_text("[[dots]]\nlocation = 3\n", "identifiers = [\"x\"]").unwrap_err();
    assert_eq!(err, ParseError { section: Section::Entry(0), fault: Fault::WrongType(Field::Location) });
}

#[test]
fn reads_toml_into_document_tree() {
    let d = read_toml("a = \"x\"\nb = [\"y\", 2]\n[t]\nc = true\n").unwrap();
    match d {
        Doc::Table(pairs) => {
            assert_eq!(pairs.len(), 3);
            assert_eq!(pairs[0].0, "a");
            assert!(matches!(&pairs[0].1, Doc::Str(v) if v == "x"));
            assert!(matches!(&pairs[1].1, Doc::Array(items) if items.len() == 2
                && matches!(&items[0], Doc::Str(v) if v == "y")
                && matches!(items[1], Doc::Other)));
            assert!(matches!(&pairs[2].1, Doc::Table(inner) if inner.len() == 1
                && inner[0].0 == "c" && matches!(inner[0].1, Doc::Other)));
        }
        _ => panic!("expected a table"),
    }
}
