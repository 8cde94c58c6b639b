use fckn_gay::dns::dummy::{Config as DummyConfig, DummyDns, Error as DummyError};
use fckn_gay::dns::hickory::{query_name, HickoryStore, Query, QueryType, Response};
use fckn_gay::dns::porkbun::{porkbun_subdomain, record_from_listing};
use fckn_gay::dns::record::{ttl_or_minimum, Record, RecordType};
use fckn_gay::dns::{Compiled, Config, Error, Key, Providers};

fn record(name: &str, record_type: RecordType, content: &str) -> Record {
    Record {
        name: name.to_string(),
        record_type,
        content: content.to_string(),
        ttl_seconds: 300,
        priority: None,
    }
}

fn dummy_config() -> DummyConfig {
    DummyConfig { entries: vec![] }
}

fn hickory_config() -> fckn_gay::dns::hickory::Config {
    fckn_gay::dns::hickory::Config {
        file_path: "test.log".to_string(),
        tcp_addr: Some("127.0.0.1:53".to_string()),
        udp_addr: Some("127.0.0.1:53".to_string()),
    }
}

#[test]
fn test_record_type_roundtrip() {
    let all_variants = [
        RecordType::A,
        RecordType::MX,
        RecordType::CNAME,
        RecordType::ALIAS,
        RecordType::TXT,
        RecordType::NS,
        RecordType::AAAA,
        RecordType::SRV,
        RecordType::TLSA,
        RecordType::CAA,
        RecordType::HTTPS,
        RecordType::SVCB,
    ];
    for variant in all_variants {
        let int_value = i32::from(variant);
        let back_to_variant = RecordType::try_from(int_value).expect("roundtrip should work");
        assert_eq!(
            variant, back_to_variant,
            "RecordType {:?} should roundtrip through integer {}",
            variant, int_value
        );
    }
}

#[test]
fn test_invalid_record_type() {
    let invalid_values = [-1, 12, 999, i32::MAX, i32::MIN];
    for invalid_value in invalid_values {
        let result = RecordType::try_from(invalid_value);
        assert!(result.is_err(), "Invalid value {} should return error", invalid_value);
        assert_eq!(result.unwrap_err(), invalid_value, "Error should contain the invalid value");
    }
}

#[test]
fn lib_test_ambiguous_config_errors() {
    let config = Config {
        provider: None,
        porkbun: None,
        dummy: Some(dummy_config()),
        hickory: Some(hickory_config()),
    };
    let result = config.active();
    assert!(matches!(result, Err(Error::CantChoseProvider)), "Should error on ambiguous config");
}

#[test]
fn lib_test_explicit_provider_resolves_ambiguity() {
    let config = Config {
        provider: Some(Providers::Dummy),
        porkbun: None,
        dummy: Some(dummy_config()),
        hickory: Some(hickory_config()),
    };
    let result = config.active();
    assert!(matches!(result, Ok(Providers::Dummy)), "Explicit provider should work");
}

#[test]
fn test_disabled_provider_error() {
    let config = Config {
        provider: Some(Providers::Porkbun),
        porkbun: Some(fckn_gay::dns::porkbun::Config {
            domain: "fckn.gay".to_string(),
            api_key: "test".to_string(),
            secret_key: "test".to_string(),
        }),
        dummy: None,
        hickory: None,
    };
    let compiled = Compiled { porkbun: false, dummy: true, hickory: true };
    match config.select(compiled) {
        Err(Error::ProviderNotCompiled(provider)) => assert_eq!(provider, "porkbun"),
        _ => panic!("Should have errored when using disabled provider"),
    }
}

#[test]
fn no_dns_config_is_an_error() {
    let config = Config { provider: None, porkbun: None, dummy: None, hickory: None };
    assert!(matches!(config.active(), Err(Error::NoConfig)));
    assert_eq!(Error::NoConfig.message(), "No configuration provided");
}

#[test]
fn selected_provider_needs_its_section() {
    let config = Config { provider: Some(Providers::Hickory), porkbun: None, dummy: Some(dummy_config()), hickory: None };
    let compiled = Compiled { porkbun: true, dummy: true, hickory: true };
    match config.select(compiled) {
        Err(Error::MissingConfig(m)) => assert_eq!(m, "Hickory"),
        _ => panic!("expected a missing section"),
    }
}

#[test]
fn key_text_roundtrip() {
    for key in [Key::Porkbun("12345".to_string()), Key::Dummy(7), Key::Hickory(42)] {
        let text = key.to_text();
        let back = Key::parse(&text).expect("parses");
        assert!(back.same_as(&key));
    }
    assert_eq!(Key::Dummy(3).to_text(), "Dummy:3");
    assert_eq!(Key::Porkbun("a:b".to_string()).to_text(), "Porkbun:a:b");
}

#[test]
fn key_parse_errors() {
    assert_eq!(Key::parse("nocolon").err().unwrap(), "Invalid key format");
    assert_eq!(Key::parse("Cloudflare:1").err().unwrap(), "Invalid provider");
    assert_eq!(
        Key::parse("Dummy:x").err().unwrap(),
        "Invalid key x: invalid digit found in string"
    );
    assert_eq!(
        Key::parse("Hickory:").err().unwrap(),
        "Invalid key : cannot parse integer from empty string"
    );
}

#[test]
fn record_text_roundtrip() {
    let r = Record {
        name: "mail.alice.is.fckn.gay".to_string(),
        record_type: RecordType::MX,
        content: "mx.example.com".to_string(),
        ttl_seconds: 600,
        priority: Some(10),
    };
    let text = r.to_text();
    assert_eq!(text, "mail.alice.is.fckn.gay MX 600 mx.example.com 10");
    let back = Record::parse(&text).unwrap();
    assert_eq!(back.name, r.name);
    assert_eq!(back.content, r.content);
    assert_eq!(back.priority, Some(10));
    let plain = Record::parse("a.b A 300 1.2.3.4").unwrap();
    assert_eq!(plain.content, "1.2.3.4");
    assert_eq!(plain.priority, None);
    assert!(Record::parse("a.b MX 300 mx.example.com").is_err());
    assert_eq!(Record::parse("a.b").err().unwrap(), "invalid record string: a.b");
}

#[test]
fn record_type_names() {
    assert_eq!(RecordType::AAAA.as_str(), "AAAA");
    assert!(matches!(RecordType::parse("cname"), Ok(RecordType::CNAME)));
    assert_eq!(RecordType::parse("BOGUS").err().unwrap(), "Unknown record type: BOGUS");
}

#[test]
fn ttl_minimum_applies() {
    assert_eq!(ttl_or_minimum(None), 300);
    assert_eq!(ttl_or_minimum(Some(60)), 300);
    assert_eq!(ttl_or_minimum(Some(3600)), 3600);
}

#[test]
fn dummy_dns_add_list_delete_update() {
    let mut dns = DummyDns::new(DummyConfig { entries: vec![record("a.x", RecordType::A, "1.1.1.1")] }).ok().unwrap();
    let k = dns.add_record(record("b.x", RecordType::A, "2.2.2.2")).unwrap();
    assert_eq!(k, 1);
    let listed = dns.list_records().ok().unwrap();
    assert_eq!(listed.len(), 2);
    assert_eq!(listed[1].0, 1);
    assert_eq!(listed[1].1.content, "2.2.2.2");
    // same name and type overwrites in place
    let k2 = dns.add_record(record("b.x", RecordType::A, "3.3.3.3")).unwrap();
    assert_eq!(k2, 1);
    assert_eq!(dns.list_records().ok().unwrap()[1].1.content, "3.3.3.3");
    // deleting empties the slot, and the next record fills it
    dns.delete_record(0).unwrap();
    assert_eq!(dns.list_records().ok().unwrap().len(), 1);
    let k3 = dns.add_record(record("c.x", RecordType::TXT, "hi")).unwrap();
    assert_eq!(k3, 0);
    assert!(matches!(dns.delete_record(9), Err(DummyError::RecordNotFound(9))));
    assert_eq!(DummyError::RecordNotFound(9).message(), "Record id not found: 9");
    dns.update_record(0, record("d.x", RecordType::A, "4.4.4.4")).unwrap();
    assert_eq!(dns.list_records().ok().unwrap()[0].1.name, "d.x");
    assert!(dns.update_record(5, record("e.x", RecordType::A, "5.5.5.5")).is_err());
}

#[test]
fn dummy_dns_overwrite_after_an_emptied_slot_keeps_the_slot_key() {
    let mut dns = DummyDns::new(DummyConfig {
        entries: vec![record("a.x", RecordType::A, "1.1.1.1"), record("b.x", RecordType::A, "2.2.2.2")],
    })
    .ok()
    .unwrap();
    dns.delete_record(0).unwrap();
    let k = dns.add_record(record("b.x", RecordType::A, "3.3.3.3")).unwrap();
    assert_eq!(k, 1);
    let listed = dns.list_records().ok().unwrap();
    assert_eq!(listed.len(), 1);
    assert_eq!(listed[0].0, 1);
    assert_eq!(listed[0].1.content, "3.3.3.3");
    dns.delete_record(k).unwrap();
    assert!(dns.list_records().ok().unwrap().is_empty());
}

#[test]
fn hickory_store_ids_and_queries() {
    let mut store = HickoryStore::new();
    assert!(store.can_add());
    let a = store.add_record(record("www.alice.is.fckn.gay.", RecordType::A, "1.2.3.4"));
    let b = store.add_record(record("alias.alice.is.fckn.gay", RecordType::ALIAS, "target.example"));
    assert_eq!((a, b), (1, 2));
    let listed = store.list_records();
    assert_eq!(listed[0].1.name, "www.alice.is.fckn.gay");
    assert_eq!(listed[1].1.record_type, RecordType::CNAME);
    let q = Query { name: "WWW.Alice.is.fckn.gay.".to_string(), query_type: QueryType::Any, class_in: true };
    match store.handle_request(true, &vec![q]) {
        Response::Answers(ids) => assert_eq!(ids, vec![1]),
        _ => panic!("expected an answer"),
    }
    let miss = Query { name: "nope.is.fckn.gay.".to_string(), query_type: QueryType::Type(RecordType::A), class_in: true };
    assert!(matches!(store.handle_request(true, &vec![miss]), Response::NxDomain));
    assert!(matches!(store.handle_request(false, &vec![]), Response::NotImplemented));
    assert!(store.delete_record(1).is_some());
    assert!(store.delete_record(1).is_none());
    assert!(!store.update_record(1, record("x.y", RecordType::A, "1.1.1.1")));
    assert!(store.update_record(2, record("x.y", RecordType::MX, "mx.y")));
    assert_eq!(store.list_records()[0].1.priority, Some(0));
    assert_eq!(store.add_record(record("z.y", RecordType::TXT, "t")), 3);
}

#[test]
fn porkbun_names() {
    assert_eq!(porkbun_subdomain("www.alice.fckn.gay", "fckn.gay").unwrap(), "www.alice");
    assert_eq!(porkbun_subdomain("fckn.gay", "fckn.gay").unwrap(), "");
    assert_eq!(
        porkbun_subdomain("www.other.org", "fckn.gay").err().unwrap(),
        "The subdomain www.other.org does not end with the domain fckn.gay"
    );
    assert_eq!(
        porkbun_subdomain("ü.fckn.gay", "fckn.gay").err().unwrap(),
        "The domain ü.fckn.gay contains non-ascii characters"
    );
    let r = record_from_listing("a.fckn.gay".to_string(), RecordType::A, "1.1.1.1".to_string(), 0x1_0000_012C, 70000);
    assert_eq!(r.ttl_seconds, 300);
    assert_eq!(r.priority, Some(4464));
}

#[test]
fn record_text_reads_back() {
    let records = vec![
        Record { name: "www.alice.is.fckn.gay".to_string(), record_type: RecordType::TXT, content: "hello world".to_string(), ttl_seconds: 3600, priority: None },
        Record { name: "alice.is.fckn.gay".to_string(), record_type: RecordType::MX, content: "mail.example.com".to_string(), ttl_seconds: 300, priority: Some(10) },
        Record { name: "x".to_string(), record_type: RecordType::HTTPS, content: "1 . alpn=h2".to_string(), ttl_seconds: 0, priority: None },
    ];
    for r in records {
        let back = Record::parse(&r.to_text()).unwrap();
        assert_eq!(back.name, r.name);
        assert_eq!(back.record_type, r.record_type);
        assert_eq!(back.content, r.content);
        assert_eq!(back.ttl_seconds, r.ttl_seconds);
        assert_eq!(back.priority, r.priority);
    }
    assert_eq!(RecordType::parse("aLiAs").unwrap(), RecordType::ALIAS);
}

#[test]
fn query_names_are_reread_only_when_not_ascii() {
    let ascii = vec![b"www".to_vec(), b"example".to_vec()];
    assert_eq!(query_name(&ascii, "www.example."), "www.example.");
    let broken = vec![vec![0xff, 0x61]];
    assert_eq!(query_name(&broken, "plain."), "plain.");
    let unicode = vec!["bücher".as_bytes().to_vec(), b"example".to_vec()];
    let text = query_name(&unicode, "plain.");
    assert_ne!(text, "plain.");
}

#[test]
fn hickory_names_compare_as_hickory_reads_them() {
    let mut store = HickoryStore::new();
    let id = store.add_record(record("BÜCHER.example", RecordType::A, "1.2.3.4"));
    let q = Query { name: "xn--bcher-kva.example.".to_string(), query_type: QueryType::Type(RecordType::A), class_in: true };
    match store.handle_request(true, &vec![q]) {
        Response::Answers(ids) => assert_eq!(ids, vec![id]),
        _ => panic!("expected an answer"),
    }
    let not_fqdn = Query { name: "xn--bcher-kva.example".to_string(), query_type: QueryType::Any, class_in: true };
    assert!(matches!(store.handle_request(true, &vec![not_fqdn]), Response::NxDomain));
}
