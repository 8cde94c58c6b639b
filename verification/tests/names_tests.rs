use fckn_gay::server::names::{extract_username, is_valid_subdomain_for_user, rename_record_name, PublicSuffix};

fn test_suffix() -> PublicSuffix {
    PublicSuffix::new("is.fckn.gay".to_string())
}

fn suffix(s: &str) -> PublicSuffix {
    PublicSuffix::new(s.to_string())
}

#[test]
fn subdomain_validation_exact_match() {
    let suffix = test_suffix();
    assert!(is_valid_subdomain_for_user("alice.is.fckn.gay", "alice", &suffix));
    assert!(is_valid_subdomain_for_user("bob.is.fckn.gay", "bob", &suffix));
}

#[test]
fn subdomain_validation_subdomains() {
    let suffix = test_suffix();
    assert!(is_valid_subdomain_for_user("www.alice.is.fckn.gay", "alice", &suffix));
    assert!(is_valid_subdomain_for_user("api.alice.is.fckn.gay", "alice", &suffix));
    assert!(is_valid_subdomain_for_user("deep.nested.sub.alice.is.fckn.gay", "alice", &suffix));
}

#[test]
fn subdomain_validation_wrong_user() {
    let suffix = test_suffix();
    assert!(!is_valid_subdomain_for_user("bob.is.fckn.gay", "alice", &suffix));
    assert!(!is_valid_subdomain_for_user("www.bob.is.fckn.gay", "alice", &suffix));
}

#[test]
fn subdomain_validation_partial_match_rejected() {
    let suffix = test_suffix();
    assert!(!is_valid_subdomain_for_user("alice-fake.is.fckn.gay", "alice", &suffix));
    assert!(!is_valid_subdomain_for_user("notaalice.is.fckn.gay", "alice", &suffix));
    assert!(!is_valid_subdomain_for_user("alice.bob.is.fckn.gay", "alice", &suffix));
}

#[test]
fn subdomain_validation_wrong_suffix() {
    let suffix = test_suffix();
    assert!(!is_valid_subdomain_for_user("alice.is.fckn.gay.evil.com", "alice", &suffix));
    assert!(!is_valid_subdomain_for_user("alice.different.domain", "alice", &suffix));
}

#[test]
fn subdomain_validation_empty_inputs() {
    let suffix = test_suffix();
    assert!(!is_valid_subdomain_for_user("", "alice", &suffix));
    assert!(!is_valid_subdomain_for_user("alice.is.fckn.gay", "", &suffix));
}

#[test]
fn subdomain_validation_case_insensitive() {
    let suffix = test_suffix();
    assert!(is_valid_subdomain_for_user("ALICE.is.fckn.gay", "alice", &suffix));
    assert!(is_valid_subdomain_for_user("Alice.Is.Fckn.Gay", "alice", &suffix));
    assert!(is_valid_subdomain_for_user("Sub.ALICE.is.fckn.gay", "alice", &suffix));
    assert!(is_valid_subdomain_for_user("MyApp.alice.is.fckn.gay", "alice", &suffix));
}

#[test]
fn extract_username_basic() {
    assert_eq!(extract_username("admin.is.fckn.gay", ".is.fckn.gay"), Some("admin".into()));
}

#[test]
fn extract_username_nested_subdomain() {
    assert_eq!(extract_username("sub.alice.is.fckn.gay", ".is.fckn.gay"), Some("alice".into()));
}

#[test]
fn extract_username_case_insensitive() {
    assert_eq!(extract_username("ALICE.Is.Fckn.Gay", ".is.fckn.gay"), Some("alice".into()));
}

#[test]
fn extract_username_wrong_suffix() {
    assert_eq!(extract_username("admin.other.domain", ".is.fckn.gay"), None);
}

#[test]
fn extract_username_bare_suffix() {
    assert_eq!(extract_username(".is.fckn.gay", ".is.fckn.gay"), None);
}

#[test]
fn extract_username_wildcard() {
    assert_eq!(extract_username("*.is.fckn.gay", ".is.fckn.gay"), None);
}

#[test]
fn extract_username_nested_wildcard() {
    assert_eq!(extract_username("*.alice.is.fckn.gay", ".is.fckn.gay"), Some("alice".into()));
}

#[test]
fn rename_simple() {
    assert_eq!(
        rename_record_name("alice.is.fckn.gay", "alice", "bob", &suffix(".is.fckn.gay")),
        "bob.is.fckn.gay"
    );
}

#[test]
fn rename_nested() {
    assert_eq!(
        rename_record_name("sub.alice.is.fckn.gay", "alice", "bob", &suffix(".is.fckn.gay")),
        "sub.bob.is.fckn.gay"
    );
}

#[test]
fn rename_wildcard_nested() {
    assert_eq!(
        rename_record_name("*.alice.is.fckn.gay", "alice", "bob", &suffix(".is.fckn.gay")),
        "*.bob.is.fckn.gay"
    );
}

#[test]
fn rename_leaves_unrelated_names() {
    assert_eq!(
        rename_record_name("carol.is.fckn.gay", "alice", "bob", &suffix(".is.fckn.gay")),
        "carol.is.fckn.gay"
    );
    assert_eq!(
        rename_record_name("alice.other.domain", "alice", "bob", &suffix(".is.fckn.gay")),
        "bob.other.domain"
    );
}

#[test]
fn public_suffix_gets_a_leading_dot() {
    assert_eq!(test_suffix().as_str(), ".is.fckn.gay");
    assert_eq!(suffix(".is.fckn.gay").as_str(), ".is.fckn.gay");
}

#[test]
fn extracted_user_owns_the_name() {
    let suffix = PublicSuffix::new(".is.fckn.gay".to_string());
    for name in ["alice.is.fckn.gay", "www.Alice.IS.fckn.gay", "a.b.carol.is.fckn.gay"] {
        let user = extract_username(name, suffix.as_str()).unwrap();
        assert!(is_valid_subdomain_for_user(name, &user, &suffix), "{name} for {user}");
    }
}
