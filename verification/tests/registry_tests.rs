use nautilus_runtime::engine::{prepare_execution, ExecError};
use nautilus_runtime::registry::{Language, Registry};

fn is_hex_lower(s: &str) -> bool {
    s.chars().all(|c| c.is_ascii_digit() || ('a'..='f').contains(&c))
}

#[test]
fn register_returns_digest_of_code() {
    let mut reg = Registry::new();
    let rec = reg.register(
        Some("p1".to_string()),
        Language::Js,
        "function main(input) { return 1; }".to_string(),
    );
    assert_eq!(rec.id, "p1");
    assert_eq!(rec.code, "function main(input) { return 1; }");
    assert_eq!(rec.code_hash.len(), 64);
    assert!(is_hex_lower(&rec.code_hash));
    assert_ne!(rec.code_hash, rec.code);
}

#[test]
fn same_code_twice_same_hash_different_ids() {
    let mut reg = Registry::new();
    let code = "function main(input) { return input; }";
    let a = reg.register(Some("a".to_string()), Language::Js, code.to_string());
    let b = reg.register(Some("b".to_string()), Language::Js, code.to_string());
    assert_eq!(a.code_hash, b.code_hash);
    assert_ne!(a.id, b.id);
    let other = reg.register(Some("c".to_string()), Language::Js, "function main(input) { return 2; }".to_string());
    assert_ne!(other.code_hash, a.code_hash);
}

#[test]
fn reregister_replaces_record() {
    let mut reg = Registry::new();
    let first = reg.register(
        Some("p".to_string()),
        Language::Js,
        "function main(input) { return 1; }".to_string(),
    );
    let second = reg.register(
        Some("p".to_string()),
        Language::Js,
        "function main(input) { return 2; }".to_string(),
    );
    assert_ne!(first.code_hash, second.code_hash);
    let found = reg.lookup("p").expect("record should be present");
    assert_eq!(found.code, "function main(input) { return 2; }");
    assert_eq!(found.code_hash, second.code_hash);

    // A subsequent execute is planned from the new code, not the old.
    let payload: serde_json::Value = serde_json::from_str("{}").unwrap();
    let prepared = prepare_execution(&reg, "p", &payload).ok().unwrap();
    assert_eq!(prepared.code_hash, second.code_hash);
    assert!(prepared.plan.harness.contains("return 2;"));
    assert!(!prepared.plan.harness.contains("return 1;"));
}

#[test]
fn generated_id_is_hyphenated_uuid() {
    let mut reg = Registry::new();
    let rec = reg.register(None, Language::Py, "def main(input):\n    return 1\n".to_string());
    assert_eq!(rec.id.len(), 36);
    let bytes: Vec<char> = rec.id.chars().collect();
    assert_eq!(bytes[8], '-');
    assert_eq!(bytes[13], '-');
    assert_eq!(bytes[18], '-');
    assert_eq!(bytes[23], '-');
    assert!(reg.lookup(&rec.id).is_some());
}

#[test]
fn lookup_miss_is_none_and_execute_is_not_found() {
    let mut reg = Registry::new();
    assert!(reg.lookup("missing").is_none());
    reg.register(Some("present".to_string()), Language::Js, "x".to_string());
    assert!(reg.lookup("missing").is_none());

    let payload: serde_json::Value = serde_json::from_str("{\"n\": 1}").unwrap();
    match prepare_execution(&reg, "missing", &payload) {
        Err(e) => assert!(e.is_not_found()),
        Ok(_) => panic!("an unregistered id must not prepare"),
    }
}
