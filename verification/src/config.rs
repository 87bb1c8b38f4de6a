use vstd::prelude::*;
use crate::executor::ExecutorHandle;

verus! {

#[verifier::external_type_specification]
#[verifier::external_body]
pub struct ExResolvConfConfig(resolv_conf::Config);

/// Whether the bytes are well formed under the standard Unix resolv.conf
/// grammar, as the system-configuration parser decides it.
pub uninterp spec fn resolv_conf_ok(data: Seq<u8>) -> bool;

/// The configuration that the parse yields on well-formed bytes. The
/// parse is a function of the bytes alone, so the value can be named.
pub uninterp spec fn parse_of(data: Seq<u8>) -> resolv_conf::Config;

/// Relies on resolv_conf::Config::parse: a deterministic parse of the
/// resolv.conf grammar over the bytes alone, returning a configuration
/// exactly when the input is well formed.
#[verifier::external_body]
fn parse_resolv_conf_bytes(data: &[u8]) -> (r: Option<resolv_conf::Config>)
    ensures
        r.is_some() == resolv_conf_ok(data@),
        r matches Some(c) ==> c == parse_of(data@),
{
    match resolv_conf::Config::parse(data) {
        Ok(config) => Some(config),
        Err(_) => None,
    }
}

/// The pieces of one resolver session that initialization builds: the
/// parsed resolver configuration for the DNS engine, and the session's
/// fresh private executor. The engine instance itself is assembled by the
/// glue layer around these.
pub struct SessionSeed {
    pub config: resolv_conf::Config,
    pub executor: ExecutorHandle,
}

/// The initialization decision of the bridge: parse the supplied
/// resolv.conf bytes; on a parse failure report nothing, so that the
/// entry point returns failure and registers no session; on success hand
/// back exactly the parsed configuration and an executor that has not
/// been advanced.
pub fn init_session(resolv_conf_data: &[u8]) -> (r: Option<SessionSeed>)
    ensures
        r.is_some() == resolv_conf_ok(resolv_conf_data@),
        r matches Some(s) ==> s.config == parse_of(resolv_conf_data@)
            && s.executor.advance_count() == 0,
{
    match parse_resolv_conf_bytes(resolv_conf_data) {
        Some(config) => Some(SessionSeed { config, executor: ExecutorHandle::new() }),
        None => None,
    }
}

/// The port a plain resolv.conf nameserver is queried on.
pub const NAMESERVER_PORT: u16 = 53;

/// One engine endpoint: a nameserver address, the port, and whether the
/// datagram or the stream transport is tried on it.
#[derive(PartialEq, Eq, Debug)]
pub struct Endpoint {
    pub ip: crate::lookup::IpRepr,
    pub port: u16,
    pub udp: bool,
}

/// The endpoint list the engine is configured with: for each nameserver,
/// in order, one datagram endpoint then one stream endpoint, both on the
/// nameserver port.
pub fn plan_endpoints(ips: &Vec<crate::lookup::IpRepr>) -> (r: Vec<Endpoint>)
    ensures
        r@.len() == 2 * ips@.len(),
        forall|i: int|
            0 <= i < ips@.len() ==> r@[2 * i] == (Endpoint {
                ip: ips@[i],
                port: NAMESERVER_PORT,
                udp: true,
            }) && r@[2 * i + 1] == (Endpoint { ip: ips@[i], port: NAMESERVER_PORT, udp: false }),
{
    let mut r: Vec<Endpoint> = Vec::new();
    let mut i: usize = 0;
    while i < ips.len()
        invariant
            i <= ips@.len(),
            r@.len() == 2 * i,
            forall|k: int|
                0 <= k < i ==> r@[2 * k] == (Endpoint {
                    ip: ips@[k],
                    port: NAMESERVER_PORT,
                    udp: true,
                }) && r@[2 * k + 1] == (Endpoint {
                    ip: ips@[k],
                    port: NAMESERVER_PORT,
                    udp: false,
                }),
        decreases ips@.len() - i,
    {
        r.push(Endpoint { ip: ips[i], port: NAMESERVER_PORT, udp: true });
        r.push(Endpoint { ip: ips[i], port: NAMESERVER_PORT, udp: false });
        i = i + 1;
    }
    r
}

/// The query options the engine is configured with, carried over from the
/// parse, with the engine's own hosts-file lookup always off: the bridge
/// owns the hosts table.
#[derive(PartialEq, Eq, Debug)]
pub struct OptionsPlan {
    pub ndots: u32,
    pub timeout_secs: u32,
    pub attempts: u32,
    pub use_hosts_file: bool,
}

/// Carries the parsed query options into the engine's, forcing the
/// engine's hosts-file lookup off.
pub fn plan_options(ndots: u32, timeout_secs: u32, attempts: u32) -> (r: OptionsPlan)
    ensures
        r.ndots == ndots,
        r.timeout_secs == timeout_secs,
        r.attempts == attempts,
        !r.use_hosts_file,
{
    OptionsPlan { ndots, timeout_secs, attempts, use_hosts_file: false }
}

} // verus!
