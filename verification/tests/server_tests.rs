use fckn_gay::dns::Key;
use fckn_gay::dns::Providers as Dns;
use fckn_gay::user_database::Providers as Db;
use fckn_gay::logging::Level;
use fckn_gay::server::auth_cache::AuthenticatedFor;
use fckn_gay::server::config::{
    dangerous_config, LevelFilter, OtlpConfig, RateLimitConfig, ServerAddress, TracingConfig, TracingLevel,
};
use fckn_gay::server::dns_service::DnsService;
use fckn_gay::server::error::AppError;
use fckn_gay::server::trace::TracingBackend;
use fckn_gay::server::web::{captcha_config, panic_response_body, siteverify_form, siteverify_url_str, ClientIp, UserKeyExtractor};

#[test]
fn rate_limit_defaults_and_summary() {
    let c = RateLimitConfig::default();
    assert_eq!(c.auth_burst_size, 10);
    assert_eq!(c.auth_per_seconds, 60);
    assert_eq!(c.api_burst_size, 30);
    assert_eq!(c.api_per_seconds, 60);
    assert_eq!(c.summary(), "Rate limiting configured: auth=10/60 burst/sec, api=30/60 burst/sec");
}

#[test]
fn tracing_defaults() {
    let t = TracingConfig::default();
    assert!(matches!(t.provider, TracingBackend::Disabled));
    assert!(!t.trust_incoming_spans);
    assert_eq!(t.trace_id_chars, 8);
    assert_eq!(t.level.0, LevelFilter::Info);
    let o = OtlpConfig::default();
    assert_eq!(o.endpoint, "http://localhost:4317");
    assert_eq!(o.service_name, "fckn-gay-server");
    assert!(o.headers.is_empty());
    assert_eq!(TracingConfig::check_trace_id_chars(0), Err("trace_id_chars must be at least 1"));
    assert_eq!(TracingConfig::check_trace_id_chars(12), Ok(12));
}

#[test]
fn tracing_levels_parse_names_and_numbers() {
    assert_eq!(TracingLevel::parse("DEBUG").map(|l| l.0), Some(LevelFilter::Debug));
    assert_eq!(TracingLevel::parse("warn").map(|l| l.0), Some(LevelFilter::Warn));
    assert_eq!(TracingLevel::parse("0").map(|l| l.0), Some(LevelFilter::Off));
    assert_eq!(TracingLevel::parse("5").map(|l| l.0), Some(LevelFilter::Trace));
    assert_eq!(TracingLevel::parse("").map(|l| l.0), Some(LevelFilter::Error));
    assert!(TracingLevel::parse("loud").is_none());
    assert!(TracingLevel::parse("6").is_none());
}

#[test]
fn dummy_users_with_real_dns_is_dangerous() {
    assert!(dangerous_config(Db::Dummy, Dns::Porkbun));
    assert!(!dangerous_config(Db::Dummy, Dns::Dummy));
    assert!(!dangerous_config(Db::Dummy, Dns::Hickory));
    assert!(!dangerous_config(Db::Csv, Dns::Porkbun));
}

#[test]
fn server_address_text() {
    assert_eq!(ServerAddress("fckn.gay:80".to_string()).as_str(), "fckn.gay:80");
}

#[test]
fn client_ip_prefers_forwarded_then_real_ip_then_peer() {
    let ip = ClientIp::from_headers(Some(" 1.1.1.1 , 2.2.2.2"), Some("3.3.3.3"), Some("4.4.4.4".to_string()));
    assert_eq!(ip.0.as_deref(), Some("1.1.1.1"));
    let ip = ClientIp::from_headers(Some("  "), Some(" 3.3.3.3 "), Some("4.4.4.4".to_string()));
    assert_eq!(ip.0.as_deref(), Some("3.3.3.3"));
    let ip = ClientIp::from_headers(None, None, Some("4.4.4.4".to_string()));
    assert_eq!(ip.0.as_deref(), Some("4.4.4.4"));
    assert_eq!(ClientIp::from_headers(None, Some(""), None).0, None);
}

#[test]
fn captcha_page_config() {
    let c = captcha_config(Some("site-key"));
    assert!(c.enabled);
    assert_eq!(c.site_key.as_deref(), Some("site-key"));
    let c = captcha_config(None);
    assert!(!c.enabled);
    assert!(c.site_key.is_none());
}

#[test]
fn siteverify_request() {
    assert_eq!(siteverify_url_str(), "https://challenges.cloudflare.com/turnstile/v0/siteverify");
    let f = siteverify_form("sec", "tok", Some("9.9.9.9"));
    assert_eq!(
        f,
        vec![("secret", "sec".to_string()), ("response", "tok".to_string()), ("remoteip", "9.9.9.9".to_string())]
    );
    assert_eq!(siteverify_form("sec", "tok", None).len(), 2);
}

#[test]
fn rate_limit_key_is_user_id() {
    let who = AuthenticatedFor::new(255, "alice".to_string());
    assert_eq!(UserKeyExtractor.extract(Some(&who)), Some("00000000-0000-0000-0000-0000000000ff".to_string()));
    assert_eq!(UserKeyExtractor.extract(None), None);
}

#[test]
fn panic_page_text() {
    assert_eq!(
        panic_response_body("boom"),
        "server ded RIP 💀\n\nThe server had a little oopsie: boom\n\nDon't worry, it's not your fault! The server is still running though, so you can try again."
    );
}

#[test]
fn app_errors_and_levels() {
    let e = AppError::message(404, "nope");
    assert_eq!(e.log_level(), Level::Warn);
    let (status, body, level) = e.into_response();
    assert_eq!(status, 404);
    assert_eq!(body.error, "nope");
    assert_eq!(level, Level::Warn);
    let e = AppError::internal_error("disk".to_string());
    assert_eq!(e.status, 500);
    assert_eq!(e.message, "something went wrong 💀");
    assert_eq!(e.internal.as_deref(), Some("disk"));
    assert_eq!(e.log_level(), Level::Error);
    let e = AppError::with_message(400, "bad".to_string()).with_internal("why".to_string());
    assert_eq!(e.internal.as_deref(), Some("why"));
    assert_eq!(e.message, "bad");
}

#[test]
fn dns_service_tracks_owned_keys() {
    let mut s = DnsService::new();
    assert!(!s.user_owns_key("u1", &Key::Dummy(1)));
    s.add_user_key("u1", Key::Dummy(1));
    s.add_user_key("u1", Key::Porkbun("p".to_string()));
    assert!(s.user_owns_key("u1", &Key::Dummy(1)));
    assert!(s.user_owns_key("u1", &Key::Porkbun("p".to_string())));
    assert!(!s.user_owns_key("u2", &Key::Dummy(1)));
    assert!(s.remove_user_key("u1", &Key::Dummy(1)));
    assert!(!s.user_owns_key("u1", &Key::Dummy(1)));
    assert!(!s.remove_user_key("u1", &Key::Dummy(1)));
    assert!(s.user_owns_key("u1", &Key::Porkbun("p".to_string())));
}

use fckn_gay::dns::record::{Record, RecordType};
use fckn_gay::server::otel::{provider_plan, valid_trace_id_text, OtelMakeSpan};
use fckn_gay::server::trace::{MakeRequestSpan, RecordStatusOnResponse};
use fckn_gay::secret::Secret;

fn rec(name: &str, content: &str) -> Record {
    Record { name: name.to_string(), record_type: RecordType::A, content: content.to_string(), ttl_seconds: 600, priority: None }
}

#[test]
fn dns_service_filters_and_matches_owned_records() {
    let mut s = DnsService::new();
    s.add_user_key("u1", Key::Dummy(1));
    s.add_user_key("u1", Key::Dummy(3));
    let all = vec![(Key::Dummy(1), rec("a", "1.1.1.1")), (Key::Dummy(2), rec("b", "2.2.2.2")), (Key::Dummy(3), rec("a", "1.1.1.1"))];
    let mine = s.user_records("u1", &all);
    assert_eq!(mine.len(), 2);
    assert!(matches!(mine[0].0, Key::Dummy(1)));
    assert!(matches!(mine[1].0, Key::Dummy(3)));
    assert!(s.user_records("u2", &all).is_empty());
    assert!(matches!(s.matching_owned_key("u1", &all, &rec("a", "1.1.1.1")), Some(Key::Dummy(1))));
    assert!(s.matching_owned_key("u1", &all, &rec("b", "2.2.2.2")).is_none());
    assert!(s.matching_owned_key("u2", &all, &rec("a", "1.1.1.1")).is_none());
}

#[test]
fn request_span_trace_ids() {
    let tp = "00-4bf92f3577b34da6a3ce929d0e0e4736-00f067aa0ba902b7-01";
    let trusted = MakeRequestSpan { trust_incoming_spans: true, trace_id_chars: 8 };
    assert_eq!(trusted.trace_id(Some(tp)), "4bf92f35");
    let untrusted = MakeRequestSpan { trust_incoming_spans: false, trace_id_chars: 8 };
    let id = untrusted.trace_id(Some(tp));
    assert_eq!(id.len(), 8);
    let otel = OtelMakeSpan { trust_incoming_spans: true, trace_id_chars: 12 };
    assert_eq!(otel.trace_id(0x4bf92f3577b34da6a3ce929d0e0e4736), "4bf92f3577b3");
    let random = otel.trace_id(0);
    assert_eq!(random.len(), 12);
    assert!(random.chars().all(|c| c.is_ascii_hexdigit() && !c.is_ascii_uppercase()));
    let wide = OtelMakeSpan { trust_incoming_spans: false, trace_id_chars: 64 };
    assert_eq!(wide.trace_id(0x42), "00000000000000000000000000000042");
    assert_eq!(RecordStatusOnResponse.status_fields(404), (404, false));
    assert_eq!(RecordStatusOnResponse.status_fields(204), (204, true));
}

#[test]
fn keys_name_their_provider() {
    assert_eq!(Key::Dummy(1).provider(), Dns::Dummy);
    assert_eq!(Key::Hickory(1).provider(), Dns::Hickory);
    assert_eq!(Key::Porkbun("x".to_string()).provider(), Dns::Porkbun);
}

#[test]
fn trace_id_text_is_32_hex_digits_unless_invalid() {
    assert_eq!(valid_trace_id_text(0), None);
    assert_eq!(valid_trace_id_text(0x4bf92f3577b34da6a3ce929d0e0e4736).as_deref(), Some("4bf92f3577b34da6a3ce929d0e0e4736"));
    assert_eq!(valid_trace_id_text(1).as_deref(), Some("00000000000000000000000000000001"));
}

fn tracing_with(provider: TracingBackend, trust: bool, headers: Vec<(&str, &str)>) -> TracingConfig {
    let mut t = TracingConfig::default();
    t.provider = provider;
    t.trust_incoming_spans = trust;
    t.otlp.endpoint = "http://collector:4317".to_string();
    t.otlp.headers = headers.into_iter().map(|(k, v)| (k.to_string(), Secret::from_string(v.to_string()))).collect();
    t
}

fn texts(m: &[(Level, String)]) -> Vec<(Level, &str)> {
    m.iter().map(|(l, s)| (*l, s.as_str())).collect()
}

#[test]
fn disabled_tracing_only_says_so() {
    let plan = provider_plan(&tracing_with(TracingBackend::Disabled, true, vec![("x-key", "v")]));
    assert_eq!(plan.backend, TracingBackend::Disabled);
    assert!(!plan.install_propagator);
    assert!(plan.metadata.is_empty());
    assert_eq!(texts(&plan.messages), vec![(Level::Info, "distributed tracing disabled")]);
}

#[test]
fn stdout_tracing_with_trusted_spans() {
    let plan = provider_plan(&tracing_with(TracingBackend::Stdout, true, vec![("x-key", "v")]));
    assert!(plan.install_propagator);
    assert!(plan.metadata.is_empty());
    assert_eq!(
        texts(&plan.messages),
        vec![
            (Level::Info, "W3C trace context propagation enabled (trust_incoming_spans = true)"),
            (Level::Info, "OTel tracing enabled (stdout \u{2014} for debugging only!)"),
        ]
    );
}

#[test]
fn otlp_headers_that_tonic_refuses_are_left_out() {
    let plan = provider_plan(&tracing_with(
        TracingBackend::Otlp,
        false,
        vec![("authorization", "Bearer abc"), ("bad header", "v"), ("trace-bin", "v"), ("x-tenant", "a\u{7f}b"), ("X-Team", "blue")],
    ));
    assert!(!plan.install_propagator);
    assert_eq!(
        plan.metadata,
        vec![("authorization".to_string(), "Bearer abc".to_string()), ("X-Team".to_string(), "blue".to_string())]
    );
    assert_eq!(
        texts(&plan.messages),
        vec![
            (Level::Warn, "invalid OTLP header name: bad header"),
            (Level::Warn, "invalid OTLP header name: trace-bin"),
            (Level::Warn, "invalid OTLP header value for x-tenant"),
            (Level::Info, "OTel tracing enabled (endpoint: http://collector:4317)"),
        ]
    );
}
