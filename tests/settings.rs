use schnauzer::requirement::ExtensionRequirement;
use schnauzer::settings::{FakeSettingsResolver, SettingsFetchError, SettingsResolver};

fn doc(text: &str) -> serde_json::Value {
    serde_json::from_str(text).unwrap()
}

fn req(name: &str) -> ExtensionRequirement {
    ExtensionRequirement::new(name.to_string(), None)
}

#[test]
fn minimized_document_keeps_only_required_groups() {
    let resolver = FakeSettingsResolver::new(doc(
        r#"{"settings": {"kubernetes": {"cluster_name": "prod"}, "aws": {"region": "us-west-2"}}}"#,
    ));
    let fetched = resolver.fetch_settings(&[req("kubernetes")]);
    assert_eq!(
        fetched,
        doc(r#"{"settings": {"kubernetes": {"cluster_name": "prod"}}}"#)
    );
}

#[test]
fn missing_group_is_silently_omitted() {
    let resolver = FakeSettingsResolver::new(doc(r#"{"settings": {"aws": {"region": "x"}}}"#));
    let fetched = resolver.fetch_settings(&[req("unknown-ext")]);
    assert_eq!(fetched, doc(r#"{"settings": {}}"#));
}

#[test]
fn minimization_over_mixed_requirements() {
    let resolver = FakeSettingsResolver::new(doc(
        r#"{"settings": {"a": 1, "b": [true, null], "c": "x", "d": {"e": 2}}}"#,
    ));
    let reqs = vec![
        req("d"),
        ExtensionRequirement::new("b".to_string(), Some("v9".to_string())),
        req("zz"),
    ];
    let fetched = resolver.fetch_settings(&reqs);
    assert_eq!(
        fetched,
        doc(r#"{"settings": {"b": [true, null], "d": {"e": 2}}}"#)
    );
}

#[test]
fn no_requirements_give_empty_scope() {
    let resolver = FakeSettingsResolver::new(doc(r#"{"settings": {"a": 1}}"#));
    assert_eq!(resolver.fetch_settings(&[]), doc(r#"{"settings": {}}"#));
}

#[test]
fn malformed_backing_document_lacks_settings_shape() {
    for bad in [r#"[1, 2]"#, r#"{"other": {}}"#, r#"{"settings": 3}"#] {
        let resolver = FakeSettingsResolver::new(doc(bad));
        assert!(!resolver.has_settings_shape());
    }
    assert!(FakeSettingsResolver::new(doc(r#"{"settings": {}}"#)).has_settings_shape());
}

#[test]
fn minimize_settings_directly() {
    let all = doc(r#"{"x": 1, "y": 2}"#);
    let all = all.as_object().unwrap();
    let m = FakeSettingsResolver::minimize_settings(all, &[req("y"), req("q")]);
    assert_eq!(serde_json::Value::Object(m), doc(r#"{"y": 2}"#));
}

#[test]
fn extract_key_from_api_response_finds_objects_only() {
    let response = doc(r#"{"settings": {"a": 1}, "n": 5}"#);
    let response = response.as_object().unwrap();
    let found = FakeSettingsResolver::extract_key_from_api_response("settings", response).unwrap();
    assert_eq!(found.len(), 1);
    assert!(FakeSettingsResolver::extract_key_from_api_response("n", response).is_none());
    assert!(FakeSettingsResolver::extract_key_from_api_response("m", response).is_none());
}

#[test]
fn resolver_trait_fetch_reports_malformed_backing_document() {
    let good = FakeSettingsResolver::new(doc(r#"{"settings": {"a": 1, "b": 2}}"#));
    let fetched = SettingsResolver::fetch_settings(&good, &[req("b")]).unwrap();
    assert_eq!(fetched, doc(r#"{"settings": {"b": 2}}"#));
    let bad = FakeSettingsResolver::new(doc(r#"{"a": 1}"#));
    assert!(matches!(
        SettingsResolver::fetch_settings(&bad, &[req("a")]),
        Err(SettingsFetchError::MalformedBackingDocument)
    ));
}
