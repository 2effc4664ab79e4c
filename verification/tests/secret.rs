use aura::plugin::secret::SecretStore;

fn s(x: &str) -> String {
    x.to_string()
}

#[test]
fn test_resolve_simple() {
    let mut store = SecretStore::new();
    store.insert(s("API_KEY"), s("secret123"));
    let result = store.resolve("Bearer ${API_KEY}").unwrap();
    assert_eq!(result, "Bearer secret123");
}

#[test]
fn test_resolve_multiple() {
    let mut store = SecretStore::new();
    store.insert(s("USER"), s("admin"));
    store.insert(s("PASS"), s("hunter2"));
    let result = store.resolve("${USER}:${PASS}").unwrap();
    assert_eq!(result, "admin:hunter2");
}

#[test]
fn test_resolve_no_template() {
    let store = SecretStore::new();
    let result = store.resolve("plain text").unwrap();
    assert_eq!(result, "plain text");
}

#[test]
fn test_resolve_missing_secret() {
    let store = SecretStore::new();
    let result = store.resolve("Bearer ${MISSING}");
    assert!(result.is_err());
}

#[test]
fn test_resolve_unclosed_template() {
    let mut store = SecretStore::new();
    store.insert(s("KEY"), s("val"));
    let result = store.resolve("Bearer ${KEY");
    assert!(result.is_err());
}

#[test]
fn test_resolve_empty_secret() {
    let mut store = SecretStore::new();
    store.insert(s("EMPTY"), s(""));
    let result = store.resolve("prefix${EMPTY}suffix").unwrap();
    assert_eq!(result, "prefixsuffix");
}

#[test]
fn test_resolve_all() {
    let mut store = SecretStore::new();
    store.insert(s("A"), s("alpha"));
    store.insert(s("B"), s("beta"));
    let templates = vec!["key: ${A}".to_string(), "key: ${B}".to_string()];
    let results = store.resolve_all(&templates).unwrap();
    assert_eq!(results, vec!["key: alpha", "key: beta"]);
}

#[test]
fn test_resolve_all_with_missing() {
    let store = SecretStore::new();
    let templates = vec!["key: ${MISSING}".to_string()];
    assert!(store.resolve_all(&templates).is_err());
}

#[test]
fn test_get_nonexistent() {
    let store = SecretStore::new();
    assert_eq!(store.get("NONEXISTENT"), None);
}

#[test]
fn test_resolve_literal_dollar() {
    let store = SecretStore::new();
    let result = store.resolve("price is $5").unwrap();
    assert_eq!(result, "price is $5");
}

#[test]
fn test_resolve_adjacent_templates() {
    let mut store = SecretStore::new();
    store.insert(s("A"), s("a"));
    store.insert(s("B"), s("b"));
    let result = store.resolve("${A}${B}").unwrap();
    assert_eq!(result, "ab");
}

#[test]
fn secret_insert_then_get_returns_the_value() {
    let mut store = SecretStore::new();
    store.insert(s("TOKEN"), s("t1"));
    store.insert(s("TOKEN"), s("t2"));
    assert_eq!(store.get("TOKEN"), Some("t2"));
}
