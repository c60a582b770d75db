use nanocld::labels::{with_owner_labels, Label, Labels};
use nanocld::process::ProcessKind;

fn label(name: &str, value: &str) -> Label {
    Label { name: name.to_owned(), value: value.to_owned() }
}

#[test]
fn labels_start_empty() {
    let labels = Labels::new();
    assert_eq!(labels.len(), 0);
    assert_eq!(labels.get("io.nanocl"), None);
    assert_eq!(labels.to_vec(), vec![]);
}

#[test]
fn labels_insert_adds_a_new_name() {
    let mut labels = Labels::new();
    labels.insert("a".to_owned(), "1".to_owned());
    labels.insert("b".to_owned(), "2".to_owned());
    assert_eq!(labels.len(), 2);
    assert_eq!(labels.get("a"), Some("1".to_owned()));
    assert_eq!(labels.get("b"), Some("2".to_owned()));
    assert_eq!(labels.get("c"), None);
}

#[test]
fn labels_insert_replaces_the_value_of_a_name() {
    let mut labels = Labels::new();
    labels.insert("a".to_owned(), "1".to_owned());
    labels.insert("b".to_owned(), "2".to_owned());
    labels.insert("a".to_owned(), "3".to_owned());
    assert_eq!(labels.len(), 2);
    assert_eq!(labels.get("a"), Some("3".to_owned()));
    assert_eq!(labels.get("b"), Some("2".to_owned()));
    assert_eq!(labels.to_vec(), vec![label("a", "3"), label("b", "2")]);
}

#[test]
fn labels_clone_keeps_every_label() {
    let mut labels = Labels::new();
    labels.insert("a".to_owned(), "1".to_owned());
    let copy = labels.clone();
    labels.insert("a".to_owned(), "2".to_owned());
    assert_eq!(copy.get("a"), Some("1".to_owned()));
    assert_eq!(labels.get("a"), Some("2".to_owned()));
}

#[test]
fn owner_labels_are_added() {
    let labels = with_owner_labels(Labels::new(), ProcessKind::Cargo);
    assert_eq!(labels.len(), 2);
    assert_eq!(labels.get("io.nanocl"), Some("enabled".to_owned()));
    assert_eq!(labels.get("io.nanocl.kind"), Some("cargo".to_owned()));
}

#[test]
fn owner_labels_override_what_was_given() {
    let mut given = Labels::new();
    given.insert("io.nanocl.kind".to_owned(), "pod".to_owned());
    given.insert("com.example".to_owned(), "kept".to_owned());
    given.insert("io.nanocl".to_owned(), "disabled".to_owned());
    let labels = with_owner_labels(given, ProcessKind::Vm);
    assert_eq!(labels.len(), 3);
    assert_eq!(labels.get("io.nanocl"), Some("enabled".to_owned()));
    assert_eq!(labels.get("io.nanocl.kind"), Some("vm".to_owned()));
    assert_eq!(labels.get("com.example"), Some("kept".to_owned()));
}
