//! The discovery session controller: opens one subscription to the
//! advertisement-protocol daemon, polls it under a wall-clock deadline,
//! and returns the deduplicated snapshot of resolved endpoints.

use vstd::prelude::*;

verus! {

use crate::collector::{Collector, distinct_fullnames};
use crate::record::{Attribute, EndpointRecord, ResolvedInfo, normalize};

/// Why a discovery call failed: the subscription could not be opened.
/// The payload is the underlying daemon error, rendered as text.
pub enum DiscoveryError {
    Subscription(String),
}

impl DiscoveryError {
    /// The error's descriptive text.
    pub fn message(self) -> (m: String)
        ensures
            (match self {
                DiscoveryError::Subscription(text) => m == text,
            }),
    {
        match self {
            DiscoveryError::Subscription(text) => text,
        }
    }
}

/// Whether `s` ends with one of the two domain suffixes the
/// advertisement protocol accepts in a service type.
pub open spec fn has_valid_domain_suffix(s: Seq<char>) -> bool {
    s.len() >= 12 && (s.subrange(s.len() - 12, s.len() as int) == "._tcp.local."@
        || s.subrange(s.len() - 12, s.len() as int) == "._udp.local."@)
}

#[verifier::external_type_specification]
#[verifier::external_body]
pub struct ExServiceDaemon(mdns_sd::ServiceDaemon);

#[verifier::external_type_specification]
#[verifier::external_body]
pub struct ExServiceEvent(mdns_sd::ServiceEvent);

#[verifier::external_type_specification]
#[verifier::external_body]
#[verifier::reject_recursive_types(T)]
pub struct ExReceiver<T>(mdns_sd::Receiver<T>);

#[verifier::external_type_specification]
#[verifier::external_body]
pub struct ExInstant(std::time::Instant);

/// Relies on mdns_sd::ServiceDaemon::new: starts (or fails to start)
/// the advertisement-protocol daemon; a failure is rendered as text.
#[verifier::external_body]
fn daemon_new() -> (r: Result<mdns_sd::ServiceDaemon, String>) {
    mdns_sd::ServiceDaemon::new().map_err(|e| e.to_string())
}

/// Relies on mdns_sd::ServiceDaemon::browse: opens a subscription for
/// one service type; fails on a malformed service type or a daemon
/// error, and the failure is rendered as text. Browsing rejects, in
/// particular, every type that does not end with "._tcp.local." or
/// "._udp.local.".
#[verifier::external_body]
fn daemon_browse(daemon: &mdns_sd::ServiceDaemon, service_type: &str) -> (r: Result<
    mdns_sd::Receiver<mdns_sd::ServiceEvent>,
    String,
>)
    ensures
        !has_valid_domain_suffix(service_type@) ==> r is Err,
{
    daemon.browse(service_type).map_err(|e| e.to_string())
}

/// Relies on mdns_sd::Receiver::recv_timeout: blocks until the next
/// subscription event arrives or until `timeout_ms` elapses; a timeout
/// and a closed channel both yield `None`.
#[verifier::external_body]
fn recv_next(rx: &mdns_sd::Receiver<mdns_sd::ServiceEvent>, timeout_ms: u64) -> (r: Option<
    mdns_sd::ServiceEvent,
>) {
    rx.recv_timeout(std::time::Duration::from_millis(timeout_ms)).ok()
}

/// Relies on mdns_sd::ServiceEvent and the public fields of
/// mdns_sd::ResolvedService: a resolution event yields its payload,
/// with addresses and metadata rendered as plain strings (the daemon
/// decodes TXT keys unique per event); any other event yields `None`.
#[verifier::external_body]
fn event_payload(ev: mdns_sd::ServiceEvent) -> (r: Option<ResolvedInfo>) {
    match ev {
        mdns_sd::ServiceEvent::ServiceResolved(resolved) => {
            let mdns_sd::ResolvedService { fullname, host, port, addresses, txt_properties, .. } = *resolved;
            let addresses = addresses.iter().map(|a| a.to_string()).collect();
            let properties = txt_properties.iter().map(
                |p| Attribute { key: p.key().to_string(), value: p.val_str().to_string() },
            ).collect();
            Some(ResolvedInfo { hostname: host, fullname, addresses, port, properties })
        },
        _ => None,
    }
}

/// Relies on std::time::Instant::now: the current monotonic instant.
#[verifier::external_body]
fn instant_now() -> (r: std::time::Instant) {
    std::time::Instant::now()
}

/// Relies on std::time::Instant::elapsed: how many whole milliseconds
/// have passed since `start`.
#[verifier::external_body]
fn elapsed_millis(start: &std::time::Instant) -> (r: u64) {
    start.elapsed().as_millis() as u64
}

/// One bounded discovery session. Opens a subscription for
/// `service_type`, then repeatedly waits for the next event with a
/// `poll_ms` timeout and re-checks the deadline, until `duration_ms`
/// of wall-clock time has elapsed; each resolution event is normalized
/// and offered to the collector, every other event and every quiet
/// poll is skipped. The snapshot returned holds the first-seen record
/// of each distinct fully-qualified name, in order of first
/// appearance.
///
/// Fails exactly when the daemon or the subscription cannot be opened,
/// before any polling; a window in which no resolution event arrives
/// yields `Ok` of an empty sequence, not an error.
pub fn discover(service_type: &str, duration_ms: u64, poll_ms: u64) -> (r: Result<
    Vec<EndpointRecord>,
    DiscoveryError,
>)
    requires
        1 <= poll_ms < duration_ms,
    ensures
        r matches Ok(v) ==> distinct_fullnames(v@),
        !has_valid_domain_suffix(service_type@) ==> r is Err,
{
    let daemon = match daemon_new() {
        Ok(d) => d,
        Err(text) => {
            return Err(DiscoveryError::Subscription(text));
        },
    };
    let receiver = match daemon_browse(&daemon, service_type) {
        Ok(rx) => rx,
        Err(text) => {
            return Err(DiscoveryError::Subscription(text));
        },
    };
    let start = instant_now();
    let mut collector = Collector::new();
    // The wall-clock deadline is the operative bound; the counter only
    // witnesses termination and cannot bind within any real window.
    let mut polls: u64 = 0;
    while polls < u64::MAX && elapsed_millis(&start) < duration_ms
        invariant
            collector.wf(),
        decreases u64::MAX - polls,
    {
        polls += 1;
        match recv_next(&receiver, poll_ms) {
            Some(ev) => {
                match event_payload(ev) {
                    Some(info) => {
                        let _ = collector.offer(normalize(info));
                    },
                    None => {},
                }
            },
            None => {},
        }
    }
    Ok(collector.into_records())
}

/// The default session: the host application's service type, a
/// two-second window and a 100 ms poll step, with a failure rendered
/// as text.
pub fn discover_server() -> (r: Result<Vec<EndpointRecord>, String>)
    ensures
        r matches Ok(v) ==> distinct_fullnames(v@),
{
    match discover("_aaxion._tcp.local.", 2000, 100) {
        Ok(v) => Ok(v),
        Err(e) => Err(e.message()),
    }
}

} // verus!
