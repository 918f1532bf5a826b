use lwd_mixnet_proxy::endpoint::{gathered, health_reply, metrics_for, metrics_reply, route, wants_metrics};
use lwd_mixnet_proxy::health::{Health, State};

fn registry() -> prometheus::Registry {
    let registry = prometheus::Registry::new();
    let connections = prometheus::IntCounter::new(
        "lwd_mixnet_client_connections_total",
        "Local connections accepted.",
    )
    .unwrap();
    registry.register(Box::new(connections.clone())).unwrap();
    connections.inc();
    registry
}

#[test]
fn a_starting_half_is_not_ready_yet() {
    let reply = route("GET", "/health", &Vec::new(), &Health::starting());
    assert_eq!(reply.status, 503);
}

#[test]
fn a_serving_half_reports_itself_ready() {
    let mut health = Health::starting();
    health.advance_to(State::Serving);
    let reply = route("GET", "/health", &Vec::new(), &health);
    assert_eq!(reply.status, 200);
    assert!(reply.body.contains("{\"state\":\"serving\"}"));
    assert_eq!(reply.content_type, "application/json");
}

#[test]
fn the_metrics_endpoint_serves_the_exposition_format() {
    let reply = route("GET", "/metrics", &gathered(&registry()), &Health::starting());
    assert_eq!(reply.status, 200);
    assert_eq!(
        reply.content_type,
        "text/plain; version=0.0.4; charset=utf-8"
    );
    assert!(
        reply.body.contains("lwd_mixnet_client_connections_total 1"),
        "{}",
        reply.body
    );
}

#[test]
fn an_unknown_path_is_not_found() {
    let reply = route("GET", "/", &Vec::new(), &Health::starting());
    assert_eq!(reply.status, 404);
    assert!(reply.body.is_empty());
}

#[test]
fn a_write_is_not_allowed() {
    let reply = route("POST", "/metrics", &gathered(&registry()), &Health::starting());
    assert_eq!(reply.status, 405);
    assert_eq!(reply.content_type, "text/plain");
}

#[test]
fn a_head_request_is_answered_like_a_get() {
    let reply = route("HEAD", "/health", &Vec::new(), &Health::starting());
    assert_eq!(reply.status, 503);
    assert_eq!(reply.body, "{\"state\":\"starting\"}\n");
}

#[test]
fn an_empty_registry_serves_an_empty_exposition() {
    let reply = route("GET", "/metrics", &gathered(&prometheus::Registry::new()), &Health::starting());
    assert_eq!(reply.status, 200);
    assert!(reply.body.is_empty());
}

#[test]
fn a_registered_half_is_not_ready_and_says_so() {
    let mut health = Health::starting();
    health.advance_to(State::Registered);
    let reply = health_reply(&health);
    assert_eq!(reply.status, 503);
    assert_eq!(reply.body, "{\"state\":\"registered\"}\n");
}

#[test]
fn failed_encoding_is_a_server_error() {
    let reply = metrics_reply(Err(prometheus::Error::Msg("broken".to_string())));
    assert_eq!(reply.status, 500);
    assert!(reply.body.is_empty());
    let reply = metrics_reply(Ok("text".to_string()));
    assert_eq!(reply.status, 200);
    assert_eq!(reply.body, "text");
}

/// A collector whose one family is recorded as untyped, which the text encoder cannot write.
struct UntypedCollector {
    desc: prometheus::core::Desc,
}

impl prometheus::core::Collector for UntypedCollector {
    fn desc(&self) -> Vec<&prometheus::core::Desc> {
        vec![&self.desc]
    }

    fn collect(&self) -> Vec<prometheus::proto::MetricFamily> {
        let mut family = prometheus::proto::MetricFamily::default();
        family.set_name("lwd_mixnet_untyped".to_string());
        family.set_field_type(prometheus::proto::MetricType::UNTYPED);
        family.set_metric(vec![prometheus::proto::Metric::default()]);
        vec![family]
    }
}

#[test]
fn an_untyped_family_is_a_server_error_rather_than_a_crash() {
    let registry = prometheus::Registry::new();
    let desc = prometheus::core::Desc::new(
        "lwd_mixnet_untyped".to_string(),
        "A family of no kind.".to_string(),
        Vec::new(),
        std::collections::HashMap::new(),
    )
    .unwrap();
    registry.register(Box::new(UntypedCollector { desc })).unwrap();
    let reply = route("GET", "/metrics", &gathered(&registry), &Health::starting());
    assert_eq!(reply.status, 500);
    assert!(reply.body.is_empty());
}

#[test]
fn only_a_read_of_the_metrics_wants_them_gathered() {
    assert!(wants_metrics("GET", "/metrics"));
    assert!(wants_metrics("HEAD", "/metrics"));
    assert!(!wants_metrics("POST", "/metrics"));
    assert!(!wants_metrics("GET", "/health"));
}

#[test]
fn a_family_without_a_name_is_a_server_error() {
    let mut family = prometheus::proto::MetricFamily::default();
    family.set_field_type(prometheus::proto::MetricType::COUNTER);
    family.set_metric(vec![prometheus::proto::Metric::default()]);
    let reply = metrics_for(&vec![family]);
    assert_eq!(reply.status, 500);
}

#[test]
fn the_served_text_is_the_encoders_text_of_the_gathered_families() {
    let families = gathered(&registry());
    let expected = prometheus::TextEncoder::new()
        .encode_to_string(&families)
        .unwrap();
    let reply = metrics_for(&families);
    assert_eq!(reply.status, 200);
    assert_eq!(reply.body, expected);
}
