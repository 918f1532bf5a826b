//! How the HTTP surface both halves expose answers: `/metrics` for a scraper, `/health` for a
//! supervisor.
//!
//! Deliberately unauthenticated and off unless asked for. What it serves is operational, not
//! private: counts of streams and connections, never a peer, an address, or anything about what a
//! wallet asked. Even so it belongs on loopback or a private network, because it reveals that this
//! machine runs the proxy and how busy it is.
//!
//! Accepting connections and speaking HTTP belong to the caller, which hands each request's method
//! and path to [`route`], with the metrics gathered when [`wants_metrics`] says the request is for
//! them, and sends back the [`Reply`] it gets.

use vstd::prelude::*;

use crate::health::{Health, State};

verus! {

/// A collection of metrics that can be gathered for exposition.
#[verifier::external_type_specification]
#[verifier::external_body]
pub struct ExRegistry(prometheus::Registry);

/// One gathered metric family.
#[verifier::external_type_specification]
#[verifier::external_body]
pub struct ExMetricFamily(prometheus::proto::MetricFamily);

/// Why gathered metrics could not be encoded.
#[verifier::external_type_specification]
#[verifier::external_body]
pub struct ExMetricsError(prometheus::Error);

/// The kinds of metric family there are.
#[derive(Debug, Clone, Copy, PartialEq, Eq, Structural)]
pub enum MetricKind {
    Counter,
    Gauge,
    Summary,
    Untyped,
    Histogram,
}

/// The kind a metric family records itself as: a field of the family, so a function of it alone.
pub uninterp spec fn kind_of(family: prometheus::proto::MetricFamily) -> MetricKind;

/// How many metrics a family holds: the length of a field of the family.
pub uninterp spec fn metric_count(family: prometheus::proto::MetricFamily) -> nat;

/// How long a family's name is, in bytes: the length of a field of the family.
pub uninterp spec fn name_length(family: prometheus::proto::MetricFamily) -> nat;

/// The text exposition of `families`, which is written from the families alone.
pub uninterp spec fn exposition_text(families: Seq<prometheus::proto::MetricFamily>) -> Seq<char>;

/// `prometheus::Registry::gather`: the families the registered collectors hold at the moment of
/// the call. What they hold depends on every update made to the metrics and is not claimed; the
/// one thing claimed is what the registry's source shows it does before handing them out: a
/// family with no metrics is left out.
#[verifier::external_body]
fn gather(registry: &prometheus::Registry) -> (families: Vec<prometheus::proto::MetricFamily>)
    ensures
        forall|i: int| 0 <= i < families@.len() ==> metric_count(#[trigger] families@[i]) > 0,
{
    registry.gather()
}

/// `prometheus::proto::MetricFamily::get_field_type`: the kind the family records, each of the
/// crate's kinds as the kind of the same name.
#[verifier::external_body]
fn family_kind(family: &prometheus::proto::MetricFamily) -> (kind: MetricKind)
    ensures
        kind == kind_of(*family),
{
    match family.get_field_type() {
        prometheus::proto::MetricType::COUNTER => MetricKind::Counter,
        prometheus::proto::MetricType::GAUGE => MetricKind::Gauge,
        prometheus::proto::MetricType::SUMMARY => MetricKind::Summary,
        prometheus::proto::MetricType::UNTYPED => MetricKind::Untyped,
        prometheus::proto::MetricType::HISTOGRAM => MetricKind::Histogram,
    }
}

/// `prometheus::proto::MetricFamily::get_metric`, as how many metrics the family holds.
#[verifier::external_body]
fn family_metrics(family: &prometheus::proto::MetricFamily) -> (count: usize)
    ensures
        count == metric_count(*family),
{
    family.get_metric().len()
}

/// `prometheus::proto::MetricFamily::get_name`, as how long the name is in bytes.
#[verifier::external_body]
fn family_name_length(family: &prometheus::proto::MetricFamily) -> (length: usize)
    ensures
        length == name_length(*family),
{
    family.get_name().len()
}

/// Whether the family can be written out: it has a kind the text exposition is written for, a
/// name, and a metric.
pub open spec fn writable(family: prometheus::proto::MetricFamily) -> bool {
    &&& kind_of(family) != MetricKind::Untyped
    &&& metric_count(family) > 0
    &&& name_length(family) > 0
}

/// Every family the text encoder writes is writable: one of a kind the text is written for, with
/// at least one metric and a name of any length.
pub proof fn lemma_encodable_families_are_writable(family: prometheus::proto::MetricFamily)
    ensures
        writable(family) <==> (kind_of(family) != MetricKind::Untyped && metric_count(family) >= 1
            && name_length(family) >= 1),
{
}

/// Whether every family in `families` can be written out.
pub open spec fn all_writable(families: Seq<prometheus::proto::MetricFamily>) -> bool {
    forall|i: int| 0 <= i < families.len() ==> writable(#[trigger] families[i])
}

/// `prometheus::TextEncoder::encode_to_string`: the text exposition of `families`.
///
/// The encoder checks each family before writing it and fails on one with no metrics or no name;
/// for a family recorded as untyped that passes that check it does not return (it reaches
/// `unimplemented!`). Writing into a string fails on nothing else. So for families that can all be
/// written out it returns their exposition, and for no families at all that text is empty.
#[verifier::external_body]
fn encode_text(families: &Vec<prometheus::proto::MetricFamily>) -> (encoded: Result<
    String,
    prometheus::Error,
>)
    requires
        all_writable(families@),
    ensures
        encoded is Ok,
        encoded->Ok_0@ == exposition_text(families@),
        families@.len() == 0 ==> encoded->Ok_0@.len() == 0,
{
    prometheus::TextEncoder::new().encode_to_string(families)
}

/// The families `registry` holds at this moment, each with at least one metric.
pub fn gathered(registry: &prometheus::Registry) -> (families: Vec<prometheus::proto::MetricFamily>)
    ensures
        forall|i: int| 0 <= i < families@.len() ==> metric_count(#[trigger] families@[i]) > 0,
{
    gather(registry)
}

/// Whether every family can be written out.
fn every_family_writable(families: &Vec<prometheus::proto::MetricFamily>) -> (writable: bool)
    ensures
        writable == all_writable(families@),
{
    let mut i: usize = 0;
    while i < families.len()
        invariant
            0 <= i <= families@.len(),
            forall|j: int| 0 <= j < i ==> writable(#[trigger] families@[j]),
        decreases families@.len() - i,
    {
        let family = &families[i];
        if family_kind(family) == MetricKind::Untyped || family_metrics(family) == 0
            || family_name_length(family) == 0 {
            return false;
        }
        i = i + 1;
    }
    true
}

/// An HTTP answer: its status code, content type and body.
#[derive(Debug)]
pub struct Reply {
    pub status: u16,
    pub content_type: String,
    pub body: String,
}

impl Reply {
    /// Whether this reply is `status`, with `content_type` and `body`.
    pub open spec fn is(self, status: u16, content_type: Seq<char>, body: Seq<char>) -> bool {
        &&& self.status == status
        &&& self.content_type@ == content_type
        &&& self.body@ == body
    }
}

/// The exposition format's own content type, which is what a scraper expects to be handed.
pub open spec fn exposition() -> Seq<char> {
    "text/plain; version=0.0.4; charset=utf-8"@
}

/// The body served on the health endpoint for a half in `state`.
pub open spec fn health_body(state: State) -> Seq<char> {
    "{\"state\":\""@ + state.name() + "\"}\n"@
}

/// The answer on `/health`: the state, with a 200 only for a half that is serving. A half that is
/// still registering answers, and says so, rather than refusing the connection: "starting" and
/// "down" call for different reactions from a supervisor.
pub open spec fn health_answer(reply: Reply, state: State) -> bool {
    reply.is(
        if state == State::Serving {
            200
        } else {
            503
        },
        "application/json"@,
        health_body(state),
    )
}

/// An answer with an empty plain-text body.
pub open spec fn bare_answer(reply: Reply, status: u16) -> bool {
    reply.is(status, "text/plain"@, Seq::empty())
}

fn reply(status: u16, content_type: &str, body: String) -> (reply: Reply)
    ensures
        reply.is(status, content_type@, body@),
{
    Reply { status, content_type: String::from_str(content_type), body }
}

/// The answer on `/health` for `health`.
pub fn health_reply(health: &Health) -> (reply: Reply)
    ensures
        health_answer(reply, health@),
{
    let status: u16 = if health.state().is_ready() {
        200
    } else {
        503
    };
    reply(status, "application/json", health.as_json())
}

/// The answer on `/metrics`, given what encoding the gathered metrics produced: the text in the
/// exposition format, or an empty 500 when encoding failed.
pub fn metrics_reply(encoded: Result<String, prometheus::Error>) -> (reply: Reply)
    ensures
        match encoded {
            Ok(text) => reply.is(200, exposition(), text@),
            Err(_) => bare_answer(reply, 500),
        },
{
    match encoded {
        Ok(text) => reply(200, "text/plain; version=0.0.4; charset=utf-8", text),
        Err(_) => reply(500, "text/plain", String::new()),
    }
}

/// The answer on `/metrics` for the gathered `families`: their text exposition, or an empty 500
/// when one of them cannot be written out.
pub open spec fn metrics_answer(
    reply: Reply,
    families: Seq<prometheus::proto::MetricFamily>,
) -> bool {
    if all_writable(families) {
        reply.is(200, exposition(), exposition_text(families))
    } else {
        bare_answer(reply, 500)
    }
}

/// The answer on `/metrics` for the gathered `families`.
pub fn metrics_for(families: &Vec<prometheus::proto::MetricFamily>) -> (reply: Reply)
    ensures
        metrics_answer(reply, families@),
        // Any families the encoder can write, whatever their names, are served as its text.
        (forall|i: int|
            0 <= i < families@.len() ==> kind_of(#[trigger] families@[i]) != MetricKind::Untyped
                && metric_count(families@[i]) > 0 && name_length(families@[i]) > 0) ==> reply.is(
            200,
            exposition(),
            exposition_text(families@),
        ),
        // A family with no metrics, no name, or no kind the text is written for, is an empty 500.
        (exists|i: int|
            0 <= i < families@.len() && (kind_of(#[trigger] families@[i]) == MetricKind::Untyped
                || metric_count(families@[i]) == 0 || name_length(families@[i]) == 0)) ==> reply.is(
            500,
            "text/plain"@,
            Seq::empty(),
        ),
{
    if every_family_writable(families) {
        metrics_reply(encode_text(families))
    } else {
        reply(500, "text/plain", String::new())
    }
}

/// Whether a request with `method` only reads.
pub open spec fn reads(method: Seq<char>) -> bool {
    method == "GET"@ || method == "HEAD"@
}

/// Whether a request is answered with the metrics, and so wants them gathered first.
pub fn wants_metrics(method: &str, path: &str) -> (wants: bool)
    ensures
        wants == (reads(method@) && path@ == "/metrics"@),
{
    let method = String::from_str(method);
    let path = String::from_str(path);
    (method == String::from_str("GET") || method == String::from_str("HEAD")) && path
        == String::from_str("/metrics")
}

/// Answer a request for `path` with `method`.
///
/// Only reads are allowed. `/metrics` serves the text exposition of `families`, gathered for the
/// request, or an empty 500 when one of them cannot be written out, which includes a family
/// recorded as untyped; `/health` serves the state of `health`, and anything else is not found.
pub fn route(
    method: &str,
    path: &str,
    families: &Vec<prometheus::proto::MetricFamily>,
    health: &Health,
) -> (reply: Reply)
    ensures
        !reads(method@) ==> bare_answer(reply, 405),
        reads(method@) && path@ == "/metrics"@ ==> metrics_answer(reply, families@),
        reads(method@) && path@ == "/metrics"@ && (forall|i: int|
            0 <= i < families@.len() ==> kind_of(#[trigger] families@[i]) != MetricKind::Untyped
                && metric_count(families@[i]) > 0 && name_length(families@[i]) > 0) ==> reply.is(
            200,
            exposition(),
            exposition_text(families@),
        ),
        reads(method@) && path@ == "/health"@ ==> health_answer(reply, health@),
        reads(method@) && path@ != "/metrics"@ && path@ != "/health"@ ==> bare_answer(reply, 404),
{
    let method = String::from_str(method);
    if !(method == String::from_str("GET") || method == String::from_str("HEAD")) {
        return reply(405, "text/plain", String::new());
    }
    let path = String::from_str(path);
    proof {
        reveal_strlit("/metrics");
        reveal_strlit("/health");
        assert("/metrics"@ != "/health"@) by {
            assert("/metrics"@.len() != "/health"@.len());
        }
    }
    if path == String::from_str("/metrics") {
        metrics_for(families)
    } else if path == String::from_str("/health") {
        health_reply(health)
    } else {
        reply(404, "text/plain", String::new())
    }
}

} // verus!
