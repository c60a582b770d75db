use nanocld::error::ProcessError;
use nanocld::key::{
    ensure_kind, gen_key, gen_kind_key, generate_short_id, kind_segment, resolve_nsp,
    validate_name,
};
use nanocld::process::ProcessKind;

#[test]
fn resolve_nsp_defaults_to_global() {
    assert_eq!(resolve_nsp(&None), "global");
}

#[test]
fn resolve_nsp_keeps_the_given_namespace() {
    assert_eq!(resolve_nsp(&Some("system".to_owned())), "system");
    assert_eq!(resolve_nsp(&Some(String::new())), "");
    assert_eq!(resolve_nsp(&Some("global".to_owned())), "global");
}

#[test]
fn gen_key_is_name_dot_namespace() {
    assert_eq!(gen_key("global", "get-started"), "get-started.global");
    assert_eq!(gen_key("system", "nstore"), "nstore.system");
    assert_eq!(gen_key("", ""), ".");
    assert_eq!(gen_key("a.b", "c.d"), "c.d.a.b");
}

#[test]
fn gen_key_of_many_names_and_namespaces() {
    let texts = ["", "a", "global", "get-started", "a.b", "é", "with space", "UPPER_09"];
    for name in texts {
        for nsp in texts {
            assert_eq!(gen_key(nsp, name), format!("{name}.{nsp}"));
            assert_eq!(
                gen_kind_key(&ProcessKind::Cargo, name, &Some(nsp.to_owned())),
                format!("{name}.{nsp}"),
            );
            assert_eq!(gen_kind_key(&ProcessKind::Job, name, &Some(nsp.to_owned())), name);
        }
    }
}

#[test]
fn gen_kind_key_of_a_job_is_its_name() {
    assert_eq!(gen_kind_key(&ProcessKind::Job, "n", &None), "n");
    assert_eq!(gen_kind_key(&ProcessKind::Job, "n", &Some("ns".to_owned())), "n");
    assert_eq!(gen_kind_key(&ProcessKind::Job, "n", &Some("global".to_owned())), "n");
}

#[test]
fn gen_kind_key_of_a_cargo_or_vm_holds_the_namespace() {
    assert_eq!(gen_kind_key(&ProcessKind::Cargo, "n", &Some("ns".to_owned())), "n.ns");
    assert_eq!(gen_kind_key(&ProcessKind::Vm, "n", &Some("ns".to_owned())), "n.ns");
    assert_eq!(gen_kind_key(&ProcessKind::Cargo, "n", &None), "n.global");
    assert_eq!(gen_kind_key(&ProcessKind::Vm, "n", &None), "n.global");
}

#[test]
fn validate_name_accepts_letters_digits_dash_and_underscore() {
    assert_eq!(validate_name("get-started"), Ok(()));
    assert_eq!(validate_name("Ubuntu_22-04"), Ok(()));
    assert_eq!(validate_name("azAZ09-_"), Ok(()));
    assert_eq!(validate_name(""), Ok(()));
}

#[test]
fn validate_name_rejects_any_other_character() {
    for name in ["a.b", "a b", "a/b", "é", "name!", "tab\t", "a:b", "-_-@", "日本"] {
        assert_eq!(
            validate_name(name),
            Err(ProcessError::Validation(format!("Vm image name {name} is invalid"))),
        );
    }
}

#[test]
fn validate_name_rejects_the_neighbours_of_the_allowed_ranges() {
    for c in ['/', ':', '@', '[', '`', '{', ',', '.', '^'] {
        assert!(validate_name(&format!("a{c}b")).is_err());
    }
}

#[test]
fn ensure_kind_accepts_two_segments() {
    assert_eq!(ensure_kind("example.com/cargo"), Ok(()));
    assert_eq!(ensure_kind("ncproxy.io/rule"), Ok(()));
    assert_eq!(ensure_kind("/"), Ok(()));
    assert_eq!(ensure_kind("a/"), Ok(()));
    assert_eq!(ensure_kind("/b"), Ok(()));
}

#[test]
fn ensure_kind_rejects_any_other_number_of_segments() {
    let error =
        ProcessError::Validation("Kind must be of the form `domain.tld/kind`".to_owned());
    for kind in ["", "cargo", "example.com", "a/b/c", "//", "a//b", "/a/b/"] {
        assert_eq!(ensure_kind(kind), Err(error.clone()));
    }
}

#[test]
fn kind_segment_is_what_follows_the_separator() {
    assert_eq!(kind_segment("example.com/cargo"), Some("cargo".to_owned()));
    assert_eq!(kind_segment("a/"), Some(String::new()));
    assert_eq!(kind_segment("/é"), Some("é".to_owned()));
    assert_eq!(kind_segment("cargo"), None);
    assert_eq!(kind_segment("a/b/c"), None);
    assert_eq!(kind_segment(""), None);
}

#[test]
fn generate_short_id_has_the_length_asked_for() {
    for length in [0, 1, 2, 7, 16, 64, 1000] {
        assert_eq!(generate_short_id(length).chars().count(), length);
        assert_eq!(generate_short_id(length).len(), length);
    }
}

#[test]
fn generate_short_id_holds_letters_and_digits_only() {
    let id = generate_short_id(4096);
    assert!(id.chars().all(|c| c.is_ascii_alphanumeric()));
}

#[test]
fn generate_short_id_differs_from_call_to_call() {
    assert_ne!(generate_short_id(32), generate_short_id(32));
}
