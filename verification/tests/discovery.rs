use mdns_discover::collector::{collect_events, collect_records, Collector};
use mdns_discover::record::{normalize, Attribute, EndpointRecord, MdnsEvent, ResolvedInfo};
use mdns_discover::session::{discover, discover_server, DiscoveryError};

fn info(fullname: &str, port: u16, addrs: &[&str]) -> ResolvedInfo {
    ResolvedInfo {
        hostname: format!("{}host.local.", fullname),
        fullname: fullname.to_string(),
        addresses: addrs.iter().map(|a| a.to_string()).collect(),
        port,
        properties: Vec::new(),
    }
}

fn record(fullname: &str, port: u16, addrs: &[&str]) -> EndpointRecord {
    normalize(info(fullname, port, addrs))
}

#[test]
fn normalize_carries_every_field_over() {
    let src = ResolvedInfo {
        hostname: "srv.local.".to_string(),
        fullname: "printer._svc._tcp.local.".to_string(),
        addresses: vec!["10.0.0.7".to_string(), "fe80::1".to_string()],
        port: 631,
        properties: vec![
            Attribute {
                key: "path".to_string(),
                value: "/ipp".to_string(),
            },
            Attribute {
                key: "note".to_string(),
                value: "".to_string(),
            },
        ],
    };
    let r = normalize(src);
    assert_eq!(r.hostname, "srv.local.");
    assert_eq!(r.fullname, "printer._svc._tcp.local.");
    assert_eq!(r.addresses, vec!["10.0.0.7".to_string(), "fe80::1".to_string()]);
    assert_eq!(r.port, 631);
    assert_eq!(r.attributes.len(), 2);
    assert_eq!(r.attributes[0].key, "path");
    assert_eq!(r.attributes[0].value, "/ipp");
    assert_eq!(r.attributes[1].key, "note");
    assert_eq!(r.attributes[1].value, "");
}

#[test]
fn duplicate_offer_is_rejected_and_alters_nothing() {
    let mut c = Collector::new();
    let first = record("a._svc._tcp.local.", 8080, &["10.0.0.1"]);
    let second = record("a._svc._tcp.local.", 9090, &["10.0.0.2"]);
    assert!(c.offer(first));
    assert!(!c.offer(second));
    let out = c.into_records();
    assert_eq!(out.len(), 1);
    assert_eq!(out[0].fullname, "a._svc._tcp.local.");
    assert_eq!(out[0].port, 8080);
    assert_eq!(out[0].addresses, vec!["10.0.0.1".to_string()]);
}

#[test]
fn three_resolutions_two_distinct_names() {
    let events = vec![
        MdnsEvent::Resolved(info("a._svc.local.", 8080, &["10.0.0.1"])),
        MdnsEvent::Resolved(info("a._svc.local.", 9090, &["10.0.0.2"])),
        MdnsEvent::Resolved(info("b._svc.local.", 80, &[])),
    ];
    let out = collect_events(events);
    assert_eq!(out.len(), 2);
    assert_eq!(out[0].fullname, "a._svc.local.");
    assert_eq!(out[0].port, 8080);
    assert_eq!(out[0].addresses, vec!["10.0.0.1".to_string()]);
    assert_eq!(out[1].fullname, "b._svc.local.");
    assert_eq!(out[1].port, 80);
    assert!(out[1].addresses.is_empty());
}

#[test]
fn no_events_yield_an_empty_snapshot() {
    let out = collect_events(Vec::new());
    assert!(out.is_empty());
}

#[test]
fn non_resolution_events_are_ignored() {
    let events = vec![
        MdnsEvent::Other,
        MdnsEvent::Resolved(info("a._svc.local.", 1, &[])),
        MdnsEvent::Other,
    ];
    let out = collect_events(events);
    assert_eq!(out.len(), 1);
    assert_eq!(out[0].fullname, "a._svc.local.");
}

#[test]
fn output_names_are_distinct_and_in_first_seen_order() {
    let records = vec![
        record("a._x._tcp.local.", 1, &[]),
        record("b._x._tcp.local.", 2, &[]),
        record("a._x._tcp.local.", 3, &[]),
        record("c._x._tcp.local.", 4, &[]),
        record("b._x._tcp.local.", 5, &[]),
    ];
    let out = collect_records(records);
    let names: Vec<&str> = out.iter().map(|r| r.fullname.as_str()).collect();
    assert_eq!(
        names,
        vec!["a._x._tcp.local.", "b._x._tcp.local.", "c._x._tcp.local."]
    );
    for i in 0..out.len() {
        for j in (i + 1)..out.len() {
            assert_ne!(out[i].fullname, out[j].fullname);
        }
    }
    assert_eq!(out[0].port, 1);
    assert_eq!(out[1].port, 2);
    assert_eq!(out[2].port, 4);
}

#[test]
fn error_message_is_carried_through() {
    let e = DiscoveryError::Subscription("socket failure".to_string());
    assert_eq!(e.message(), "socket failure");
}

#[test]
fn malformed_service_type_fails_before_polling() {
    let begin = std::time::Instant::now();
    let r = discover("not-a-service-type", 5000, 100);
    assert!(r.is_err());
    match r {
        Err(e) => assert!(!e.message().is_empty()),
        Ok(_) => unreachable!(),
    }
    // Failing before any polling: nowhere near the five-second window.
    assert!(begin.elapsed() < std::time::Duration::from_millis(2500));
}

#[test]
fn discover_returns_within_the_deadline_plus_one_poll() {
    let begin = std::time::Instant::now();
    let _ = discover("_nothing-here._tcp.local.", 600, 100);
    // duration + one poll interval + generous scheduling slack.
    assert!(begin.elapsed() < std::time::Duration::from_millis(600 + 100 + 2000));
}

#[test]
fn quiet_window_is_success_with_an_empty_snapshot() {
    match discover("_nothing-here._tcp.local.", 500, 100) {
        Ok(v) => assert!(v.is_empty()),
        // Without a usable network interface the subscription itself
        // fails; that path is exercised above.
        Err(e) => assert!(!e.message().is_empty()),
    }
}

#[test]
fn default_session_returns_distinct_names() {
    match discover_server() {
        Ok(v) => {
            for i in 0..v.len() {
                for j in (i + 1)..v.len() {
                    assert_ne!(v[i].fullname, v[j].fullname);
                }
            }
        }
        Err(e) => assert!(!e.is_empty()),
    }
}
