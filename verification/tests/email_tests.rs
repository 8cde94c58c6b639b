use fckn_gay::email::{printed_email_text, Compiled, Config, DummyConfig, Error, LettreConfig, Providers};
use fckn_gay::secret::Secret;

fn lettre() -> LettreConfig {
    LettreConfig {
        smtp_server: "smtp.example.com".to_string(),
        smtp_port: 587,
        username: Secret::from_string("user".to_string()),
        password: Secret::from_string("pass".to_string()),
    }
}

#[test]
fn email_no_config_is_an_error() {
    let config = Config { provider: None, lettre: None, dummy: None };
    assert!(matches!(config.active(), Err(Error::NoConfig)));
    assert_eq!(Error::NoConfig.message(), "No email provider configured");
}

#[test]
fn email_ambiguous_config_errors() {
    let config = Config { provider: None, lettre: Some(lettre()), dummy: Some(DummyConfig) };
    let e = config.active().err().unwrap();
    assert!(matches!(e, Error::CantChoseProvider));
    assert_eq!(
        e.message(),
        "Multiple providers specified, please choose one with `provider` field or set only one in the config"
    );
}

#[test]
fn email_explicit_provider_resolves_ambiguity() {
    let config = Config { provider: Some(Providers::Dummy), lettre: Some(lettre()), dummy: Some(DummyConfig) };
    assert!(matches!(config.active(), Ok(Providers::Dummy)));
    assert!(matches!(config.select(Compiled { lettre: true, dummy: true }), Ok(Providers::Dummy)));
}

#[test]
fn email_selected_lettre_needs_its_section() {
    let config = Config { provider: Some(Providers::Lettre), lettre: None, dummy: None };
    match config.select(Compiled { lettre: true, dummy: true }) {
        Err(e) => assert_eq!(e.message(), "Missing configuration for selected provider: Lettre"),
        Ok(_) => panic!("expected an error"),
    }
    let config = Config { provider: Some(Providers::Dummy), lettre: None, dummy: None };
    assert!(matches!(config.select(Compiled { lettre: true, dummy: true }), Ok(Providers::Dummy)));
}

#[test]
fn email_disabled_provider_error() {
    let config = Config { provider: None, lettre: Some(lettre()), dummy: None };
    match config.select(Compiled { lettre: false, dummy: true }) {
        Err(Error::ProviderNotCompiled(p)) => assert_eq!(p, "lettre"),
        _ => panic!("expected the provider to be refused"),
    }
    assert_eq!(config.uncompiled_sections(Compiled { lettre: false, dummy: true }), vec![Providers::Lettre]);
}

#[test]
fn stdout_provider_prints_the_mail() {
    assert_eq!(
        printed_email_text("im@fckn.gay", "a@b.c", "Hi", "Body"),
        "Sending email:\nFrom: <im@fckn.gay>\nTo: <a@b.c>\nSubject: \"Hi\"\n----\nBody\n----"
    );
    assert_eq!(Providers::Lettre.name(), "lettre");
    assert_eq!(Providers::Dummy.name(), "dummy");
}
