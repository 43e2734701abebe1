//! The snapshot data model, as plain values: the basic host facts the
//! collector gathers and the full snapshot the delivery client submits.
//! Timestamps are seconds since the Unix epoch; the surrounding program
//! renders them for the wire. Network addresses map each IPv4 address to
//! the IPv6 addresses of the same interface, in collection order.

use vstd::prelude::*;
use crate::errors::IdentityError;
use crate::fingerprint::{fallback_fingerprint, fallback_fingerprint_chars};

verus! {

/// Which platform's probes and parsers the agent runs with, chosen once at
/// startup.
#[derive(Clone, Copy, Debug, PartialEq, Eq, Structural)]
pub enum Platform {
    MacOs,
    Linux,
    Windows,
    Other,
}

/// Basic host facts, gathered platform-independently.
pub struct BasicInfo {
    pub hostname: String,
    pub os_type: String,
    pub os_version: String,
    pub cpu_info: String,
    pub memory_total: u64,
    pub memory_available: u64,
    pub ip_addresses: Vec<(String, Vec<String>)>,
}

/// One point-in-time snapshot of host telemetry, ready for delivery.
pub struct SystemInfo {
    pub collected_at: i64,
    pub agent_id: String,
    pub agent_name: String,
    pub device_fingerprint: String,
    pub hostname: String,
    pub os_type: String,
    pub os_version: String,
    pub cpu_info: String,
    pub memory_total: u64,
    pub memory_available: u64,
    pub ip_addresses: Vec<(String, Vec<String>)>,
    pub services: Vec<String>,
    pub installed_software: Vec<String>,
}

/// The name this agent reports for each platform.
pub fn get_os_type(platform: Platform) -> (r: String)
    ensures
        platform == Platform::MacOs ==> r@ == "macos"@,
        platform == Platform::Linux ==> r@ == "linux"@,
        platform == Platform::Windows ==> r@ == "windows"@,
        platform == Platform::Other ==> r@ == "unknown"@,
{
    match platform {
        Platform::MacOs => String::from_str("macos"),
        Platform::Linux => String::from_str("linux"),
        Platform::Windows => String::from_str("windows"),
        Platform::Other => String::from_str("unknown"),
    }
}

/// The available-memory figure the snapshot carries: the platform's own
/// figure when it reports one, otherwise total minus used, falling back to
/// the free figure when the used figure exceeds the total.
pub fn get_available_memory(available: u64, total: u64, used: u64, free: u64) -> (r: u64)
    ensures
        available != 0 ==> r == available,
        available == 0 && total > used ==> r == total - used,
        available == 0 && total <= used ==> r == free,
{
    if available == 0 {
        if total > used {
            total - used
        } else {
            free
        }
    } else {
        available
    }
}

/// Assemble one snapshot from the collected pieces. The fingerprint field
/// carries the hardware fingerprint when one was computed; when probing
/// failed, the hostname-derived fallback stands in so a snapshot can still
/// be delivered.
pub fn collect_all_info(
    basic: BasicInfo,
    fingerprint: Result<String, IdentityError>,
    services: Vec<String>,
    installed_software: Vec<String>,
    agent_id: String,
    agent_name: String,
    collected_at: i64,
) -> (r: SystemInfo)
    ensures
        r.collected_at == collected_at,
        r.agent_id == agent_id,
        r.agent_name == agent_name,
        match fingerprint {
            Ok(fp) => r.device_fingerprint == fp,
            Err(_) => r.device_fingerprint@ == fallback_fingerprint_chars(basic.hostname@),
        },
        r.hostname == basic.hostname,
        r.os_type == basic.os_type,
        r.os_version == basic.os_version,
        r.cpu_info == basic.cpu_info,
        r.memory_total == basic.memory_total,
        r.memory_available == basic.memory_available,
        r.ip_addresses == basic.ip_addresses,
        r.services == services,
        r.installed_software == installed_software,
{
    let device_fingerprint = match fingerprint {
        Ok(fp) => fp,
        Err(_) => fallback_fingerprint(basic.hostname.as_str()),
    };
    SystemInfo {
        collected_at,
        agent_id,
        agent_name,
        device_fingerprint,
        hostname: basic.hostname,
        os_type: basic.os_type,
        os_version: basic.os_version,
        cpu_info: basic.cpu_info,
        memory_total: basic.memory_total,
        memory_available: basic.memory_available,
        ip_addresses: basic.ip_addresses,
        services,
        installed_software,
    }
}

} // verus!
