use fckn_gay::secret::Secret;

#[test]
fn test_debug_is_redacted() {
    let secret = Secret::from_string("super-secret".to_owned());
    assert_eq!(secret.redacted(), "[redacted]");
}

#[test]
fn test_into_exposed() {
    let secret = Secret::from_string("my-secret".to_owned());
    let exposed: String = secret.into_exposed();
    assert_eq!(exposed, "my-secret");
}

#[test]
fn secret_expose_gives_the_value() {
    let secret = Secret::from_string("hunter2".to_owned());
    assert_eq!(secret.expose(), "hunter2");
}

#[test]
fn secret_file_contents_are_trimmed() {
    let secret = Secret::from_file_contents("  secret-with-spaces  \n\n");
    assert_eq!(secret.expose(), "secret-with-spaces");
    let secret = Secret::from_file_contents("file-secret-value\n");
    assert_eq!(secret.expose(), "file-secret-value");
}
