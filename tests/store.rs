use bookit::contractors::Contractor;
use bookit::errors::CliError;
use bookit::generics::Crud;
use bookit::store::{Collection, FileContent};

fn contractor(slug: &str, name: &str) -> Contractor {
    Contractor { slug: slug.into(), name: name.into() }
}

fn slugs(c: &Collection<Contractor>) -> Vec<String> {
    let mut v: Vec<String> = c.retrieve_all().iter().map(|r| r.slug.clone()).collect();
    v.sort();
    v
}

#[test]
fn load_of_absent_file_is_empty() {
    let c: Collection<Contractor> = Collection::load(FileContent::Absent).unwrap();
    assert!(c.retrieve_all().is_empty());
    assert!(c.available_slugs().is_empty());
}

#[test]
fn load_of_unreadable_file_is_read_error() {
    let r: Result<Collection<Contractor>, CliError> =
        Collection::load(FileContent::Unreadable { detail: "permission denied".into() });
    assert_eq!(r.err(), Some(CliError::Read { detail: "permission denied".into() }));
}

#[test]
fn load_of_undecodable_file_is_corruption() {
    let r: Result<Collection<Contractor>, CliError> =
        Collection::load(FileContent::Undecodable { detail: "expected a table".into() });
    assert_eq!(r.err(), Some(CliError::Corruption { detail: "expected a table".into() }));
}

#[test]
fn load_of_decoded_entries() {
    let entries = vec![
        ("acme".to_string(), contractor("acme", "Acme Corp")),
        ("globex".to_string(), contractor("globex", "Globex")),
    ];
    let c = Collection::load(FileContent::Decoded { entries }).unwrap();
    assert_eq!(slugs(&c), vec!["acme".to_string(), "globex".to_string()]);
    assert_eq!(c.retrieve("globex").unwrap(), contractor("globex", "Globex"));
}

#[test]
fn entry_under_another_identifier_is_corruption() {
    let entries = vec![("acme".to_string(), contractor("globex", "Globex"))];
    let r = Collection::from_entries(entries);
    assert_eq!(r.err(), Some(CliError::Corruption { detail: "acme".into() }));
}

#[test]
fn repeated_identifier_is_corruption() {
    let entries = vec![
        ("acme".to_string(), contractor("acme", "Acme Corp")),
        ("acme".to_string(), contractor("acme", "Other")),
    ];
    let r = Collection::from_entries(entries);
    assert_eq!(r.err(), Some(CliError::Corruption { detail: "acme".into() }));
}

#[test]
fn second_add_of_same_slug_is_duplicate() {
    let mut c = Collection::new();
    assert!(c.add(contractor("acme", "Acme Corp")).is_ok());
    let r = c.add(contractor("acme", "Other"));
    assert_eq!(r, Err(CliError::DuplicateIdentifier { slug: "acme".into() }));
    assert_eq!(c.retrieve_all(), vec![contractor("acme", "Acme Corp")]);
}

#[test]
fn retrieve_missing_lists_available() {
    let mut c = Collection::new();
    c.add(contractor("acme", "Acme Corp")).unwrap();
    let r = c.retrieve("missing");
    assert_eq!(
        r,
        Err(CliError::MissingIdentifier { slug: "missing".into(), available: vec!["acme".into()] })
    );
}

#[test]
fn retrieve_missing_lists_at_most_ten() {
    let mut c = Collection::new();
    for i in 0..12 {
        c.add(contractor(&format!("c{}", i), "x")).unwrap();
    }
    match c.retrieve("missing") {
        Err(CliError::MissingIdentifier { slug, available }) => {
            assert_eq!(slug, "missing");
            assert_eq!(available.len(), 10);
            let expected: Vec<String> = (0..10).map(|i| format!("c{}", i)).collect();
            assert_eq!(available, expected);
        }
        other => panic!("unexpected {:?}", other),
    }
    assert_eq!(c.available_slugs().len(), 12);
}

#[test]
fn add_then_retrieve_gives_record() {
    let mut c = Collection::new();
    c.add(contractor("globex", "Globex")).unwrap();
    c.add(contractor("acme", "Acme Corp")).unwrap();
    assert_eq!(c.retrieve("acme").unwrap(), contractor("acme", "Acme Corp"));
    assert!(c.contains("globex"));
}

#[test]
fn delete_then_retrieve_is_missing() {
    let mut c = Collection::new();
    c.add(contractor("acme", "Acme Corp")).unwrap();
    c.add(contractor("globex", "Globex")).unwrap();
    assert!(c.delete("acme").is_ok());
    assert!(!c.contains("acme"));
    assert_eq!(
        c.retrieve("acme"),
        Err(CliError::MissingIdentifier { slug: "acme".into(), available: vec!["globex".into()] })
    );
}

#[test]
fn delete_of_absent_slug_is_missing_and_changes_nothing() {
    let mut c = Collection::new();
    c.add(contractor("acme", "Acme Corp")).unwrap();
    let r = c.delete("globex");
    assert_eq!(
        r,
        Err(CliError::MissingIdentifier { slug: "globex".into(), available: vec!["acme".into()] })
    );
    assert_eq!(c.retrieve_all(), vec![contractor("acme", "Acme Corp")]);
}

#[test]
fn overwrite_keeps_count_and_replaces() {
    let mut c = Collection::new();
    c.add(contractor("acme", "Acme Corp")).unwrap();
    c.add(contractor("globex", "Globex")).unwrap();
    assert_eq!(c.len(), 2);
    assert!(c.overwrite(contractor("acme", "Acme Renamed")).is_ok());
    assert_eq!(c.len(), 2);
    assert_eq!(c.retrieve_all().len(), 2);
    assert_eq!(c.retrieve("acme").unwrap(), contractor("acme", "Acme Renamed"));
}

#[test]
fn overwrite_of_absent_slug_is_missing() {
    let mut c: Collection<Contractor> = Collection::new();
    let r = c.overwrite(contractor("acme", "Acme Corp"));
    assert_eq!(r, Err(CliError::MissingIdentifier { slug: "acme".into(), available: vec![] }));
    assert!(c.retrieve_all().is_empty());
}

#[test]
fn adds_keep_identifiers_distinct() {
    let mut c = Collection::new();
    for slug in ["a", "b", "a", "c", "b"] {
        let _ = c.add(contractor(slug, "x"));
    }
    assert_eq!(slugs(&c), vec!["a".to_string(), "b".to_string(), "c".to_string()]);
}

#[test]
fn write_ok_checks_presence() {
    let mut c = Collection::new();
    c.add(contractor("acme", "Acme Corp")).unwrap();
    assert!(c.write_ok("acme", true).is_ok());
    assert!(c.write_ok("globex", false).is_ok());
    assert_eq!(c.write_ok("acme", false), Err(CliError::DuplicateIdentifier { slug: "acme".into() }));
    assert!(matches!(c.write_ok("globex", true), Err(CliError::MissingIdentifier { .. })));
}

#[test]
fn record_identifiers() {
    let r = contractor("acme", "Acme Corp");
    assert_eq!(r.identifier(), "acme");
    assert_eq!(r.duplicate(), r);
    assert_eq!(Contractor::file_name(), "contractors_test.toml");
}

#[test]
fn entries_load_back_to_the_same_collection() {
    let mut c = Collection::new();
    c.add(contractor("acme", "Acme Corp")).unwrap();
    c.add(contractor("globex", "Globex")).unwrap();
    let entries = c.entries();
    assert_eq!(
        entries,
        vec![
            ("acme".to_string(), contractor("acme", "Acme Corp")),
            ("globex".to_string(), contractor("globex", "Globex")),
        ]
    );
    let back = Collection::from_entries(entries).unwrap();
    assert_eq!(back.retrieve_all(), c.retrieve_all());
}
