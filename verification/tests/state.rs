use nanocld::state::{StateCargo, StateConfig, StateDeployment, StateResources};

#[test]
fn state_documents_hold_what_was_declared() {
    let config = StateConfig { api_version: "v0.10".to_owned(), type_: "Deployment".to_owned() };
    assert_eq!(config.api_version, "v0.10");
    assert_eq!(config.type_, "Deployment");
    let resources = StateResources { resources: vec!["proxy-rule"] };
    assert_eq!(resources.resources, ["proxy-rule"]);
    let cargoes = StateCargo { namespace: Some("system".to_owned()), cargoes: vec!["nstore"] };
    assert_eq!(cargoes.namespace.as_deref(), Some("system"));
    assert_eq!(cargoes.cargoes, ["nstore"]);
    let deployment: StateDeployment<&str, &str> =
        StateDeployment { namespace: None, resources: None, cargoes: Some(vec!["nstore"]) };
    assert_eq!(deployment.namespace, None);
    assert_eq!(deployment.resources, None);
    assert_eq!(deployment.cargoes, Some(vec!["nstore"]));
}

#[test]
fn the_key_of_a_declared_cargo_comes_from_its_name_and_the_namespace() {
    let state = StateCargo { namespace: None, cargoes: vec!["get-started", "nstore"] };
    let namespace = nanocld::key::resolve_nsp(&state.namespace);
    let keys: Vec<String> =
        state.cargoes.iter().map(|name| nanocld::key::gen_key(&namespace, name)).collect();
    assert_eq!(keys, ["get-started.global", "nstore.global"]);
}
