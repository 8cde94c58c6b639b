use fckn_gay::validation::{validate_dns_record_name, validate_password, validate_username};

#[test]
fn valid_password() {
    assert!(validate_password("aB1.aB1.aB1.").is_valid());
}

#[test]
fn password_min_max_length() {
    assert!(!validate_password("aB1.").is_valid());
    assert!(validate_password(&"aB1.".repeat(32)).is_valid());
    assert!(!validate_password(&("aB1.".repeat(32) + "a")).is_valid());
}

#[test]
fn password_character_set() {
    assert!(!validate_password("aB1xaB1xaB1xa").is_valid());
    assert!(!validate_password("XB1.XB1.XB1.").is_valid());
    assert!(!validate_password("ab1.ab1.ab1.").is_valid());
    assert!(!validate_password("aBi.aBi.aBi.").is_valid());
}

#[test]
fn valid_username() {
    assert!(validate_username("username").is_valid());
    assert!(validate_username("i").is_valid());
}

#[test]
fn username_min_max_length() {
    assert!(!validate_username("").is_valid());
    assert!(validate_username("x").is_valid());
    assert!(!validate_username(&"x".repeat(64)).is_valid());
    assert!(validate_username(&"x".repeat(63)).is_valid());
}

#[test]
fn username_character_set() {
    assert!(!validate_username("-username").is_valid());
    assert!(!validate_username("username-").is_valid());
    assert!(!validate_username("uSeRnaMe").is_valid());
    assert!(validate_username("5").is_valid());
    assert!(!validate_username("🐛").is_valid());
    assert!(validate_username("xn--jo8h").is_valid());
    assert!(!validate_username("user_name").is_valid());
    assert!(!validate_username("_username").is_valid());
    assert!(!validate_username("user name").is_valid());
    assert!(!validate_username("user.name").is_valid());
    assert!(!validate_username("üsername").is_valid());
}

#[test]
fn valid_dns_record_name() {
    assert!(validate_dns_record_name("example.com").is_valid());
    assert!(validate_dns_record_name("sub.example.com").is_valid());
    assert!(validate_dns_record_name("a.b.c.d.e.f.g").is_valid());
    assert!(validate_dns_record_name("alice.is.fckn.gay").is_valid());
    assert!(validate_dns_record_name("sub.alice.is.fckn.gay").is_valid());
    assert!(validate_dns_record_name("localhost").is_valid());
    assert!(validate_dns_record_name("my-cool-site.example.com").is_valid());
    assert!(validate_dns_record_name("123.456.789").is_valid());
    assert!(validate_dns_record_name("Alice.Is.Fckn.Gay").is_valid());
}

#[test]
fn dns_record_name_empty() {
    assert!(!validate_dns_record_name("").is_valid());
}

#[test]
fn dns_record_name_too_long() {
    let long_name = format!(
        "{}.{}.{}.{}.aa",
        "a".repeat(63),
        "b".repeat(63),
        "c".repeat(63),
        "d".repeat(58)
    );
    assert_eq!(long_name.len(), 253);
    assert!(validate_dns_record_name(&long_name).is_valid());
    let too_long = format!(
        "{}.{}.{}.{}.aaa",
        "a".repeat(63),
        "b".repeat(63),
        "c".repeat(63),
        "d".repeat(58)
    );
    assert_eq!(too_long.len(), 254);
    assert!(!validate_dns_record_name(&too_long).is_valid());
}

#[test]
fn dns_record_name_label_too_long() {
    let ok_label = format!("{}.com", "a".repeat(63));
    assert!(validate_dns_record_name(&ok_label).is_valid());
    let bad_label = format!("{}.com", "a".repeat(64));
    assert!(!validate_dns_record_name(&bad_label).is_valid());
}

#[test]
fn dns_record_name_invalid_characters() {
    assert!(!validate_dns_record_name("my site.com").is_valid());
    assert!(!validate_dns_record_name("🐛.com").is_valid());
    assert!(!validate_dns_record_name("site$.com").is_valid());
    assert!(!validate_dns_record_name("site@example.com").is_valid());
}

#[test]
fn dns_record_name_service_labels() {
    assert!(validate_dns_record_name("_dmarc.example.com").is_valid());
    assert!(validate_dns_record_name("_dkim.example.com").is_valid());
    assert!(validate_dns_record_name("_atproto.alice.is.fckn.gay").is_valid());
    assert!(validate_dns_record_name("_acme-challenge.example.com").is_valid());
    assert!(validate_dns_record_name("_sip._tcp.example.com").is_valid());
    assert!(validate_dns_record_name("selector._domainkey.example.com").is_valid());
}

#[test]
fn dns_record_name_underscore_in_middle_rejected() {
    assert!(!validate_dns_record_name("my_site.example.com").is_valid());
    assert!(!validate_dns_record_name("hello_world.example.com").is_valid());
    assert!(!validate_dns_record_name("test_.example.com").is_valid());
    assert!(validate_dns_record_name("_test.example.com").is_valid());
}

#[test]
fn dns_record_name_hyphen_rules() {
    assert!(!validate_dns_record_name("-example.com").is_valid());
    assert!(!validate_dns_record_name("example-.com").is_valid());
    assert!(!validate_dns_record_name("sub.-example.com").is_valid());
    assert!(!validate_dns_record_name("sub.example-.com").is_valid());
}

#[test]
fn dns_record_name_consecutive_dots() {
    assert!(!validate_dns_record_name("example..com").is_valid());
    assert!(!validate_dns_record_name("..example.com").is_valid());
    assert!(!validate_dns_record_name("example.com..").is_valid());
}

#[test]
fn dns_record_name_trailing_dot() {
    assert!(!validate_dns_record_name("example.com.").is_valid());
}

#[test]
fn password_errors_listed_in_order() {
    let r = validate_password("abc");
    assert_eq!(
        r.errors().to_vec(),
        vec![
            "Password must be at least 12 characters long",
            "Password must contain at least one uppercase letter",
            "Password must contain at least one number",
            "Password must contain at least one punctuation character",
        ]
    );
}

#[test]
fn password_length_counts_characters() {
    // 8 characters, 12 bytes
    let short = "ääääaB1.";
    assert_eq!(short.len(), 12);
    assert!(validate_password(short).errors().contains(&"Password must be at least 12 characters long"));
    // 12 characters, more bytes
    assert!(validate_password("ääääaB1.xyzw").is_valid());
}
