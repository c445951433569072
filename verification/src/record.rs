//! The data carried by one service-resolution event, and its normalized
//! form: the canonical record of one discovered endpoint.

use vstd::prelude::*;

verus! {

/// One advertised metadata entry: a key/value pair from the service's
/// TXT record. The protocol layer supplies the keys of one event
/// already unique; nothing here filters or merges them.
pub struct Attribute {
    pub key: String,
    pub value: String,
}

/// The payload of one service-resolution event, as plain values: the
/// advertised host label, the fully-qualified instance name, the
/// addresses in textual form, the listening port, and the advertised
/// metadata entries.
pub struct ResolvedInfo {
    pub hostname: String,
    pub fullname: String,
    pub addresses: Vec<String>,
    pub port: u16,
    pub properties: Vec<Attribute>,
}

/// A raw subscription event: either a resolution carrying endpoint
/// data, or any other advertisement event, which discovery ignores
/// because it carries no address or port a caller could use.
pub enum MdnsEvent {
    Resolved(ResolvedInfo),
    Other,
}

/// A discovered server's canonical description. `fullname` is the
/// logical identity: one session returns at most one record per
/// distinct value of it.
pub struct EndpointRecord {
    pub hostname: String,
    pub fullname: String,
    pub addresses: Vec<String>,
    pub port: u16,
    pub attributes: Vec<Attribute>,
}

/// The canonical record that one resolution payload normalizes to:
/// every field carried over unchanged.
pub open spec fn record_of(info: ResolvedInfo) -> EndpointRecord {
    EndpointRecord {
        hostname: info.hostname,
        fullname: info.fullname,
        addresses: info.addresses,
        port: info.port,
        attributes: info.properties,
    }
}

/// Reshapes one resolution payload into the canonical endpoint record.
/// Deterministic and pure; no field is filtered, validated or merged.
pub fn normalize(info: ResolvedInfo) -> (r: EndpointRecord)
    ensures
        r == record_of(info),
{
    let ResolvedInfo { hostname, fullname, addresses, port, properties } = info;
    EndpointRecord { hostname, fullname, addresses, port, attributes: properties }
}

} // verus!
