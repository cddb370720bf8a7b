use vstd::prelude::*;
use vstd::string::*;
use crate::text::{decimal, decimal_text, text_eq};
use crate::status::{ServiceStatus, SystemStatus};

verus! {

/// Icon shown beside a service whose state has the given label.
pub open spec fn status_icon(status: Seq<char>) -> Seq<char> {
    if status == "Running"@ { "🟢"@ }
    else if status == "Starting"@ { "🟡"@ }
    else if status == "Stopped"@ { "⚫"@ }
    else if status == "Failed"@ { "🔴"@ }
    else if status == "Unhealthy"@ { "🟠"@ }
    else if status == "Restarting"@ { "🔄"@ }
    else { "⚪"@ }
}

/// Human-readable name of a known service.
pub open spec fn display_name(service: Seq<char>) -> Seq<char> {
    if service == "neo4j"@ { "Neo4j Database"@ }
    else if service == "graphiti"@ { "Graphiti Memory"@ }
    else if service == "agent"@ { "Agent System"@ }
    else { "Unknown Service"@ }
}

/// Compact uptime: seconds, minutes, hours and minutes, or days and hours.
pub open spec fn uptime_text(seconds: nat) -> Seq<char> {
    if seconds < 60 {
        decimal(seconds) + "s"@
    } else if seconds < 3600 {
        decimal(seconds / 60) + "m"@
    } else if seconds < 86400 {
        decimal(seconds / 3600) + "h "@ + decimal((seconds % 3600) / 60) + "m"@
    } else {
        decimal(seconds / 86400) + "d "@ + decimal((seconds % 86400) / 3600) + "h"@
    }
}

/// Icon for an overall health label.
pub open spec fn overall_icon(health: Seq<char>) -> Seq<char> {
    if health == "Healthy"@ { "🟢"@ }
    else if health == "Degraded"@ { "🟡"@ }
    else if health == "Unhealthy"@ { "🔴"@ }
    else { "⚪"@ }
}

/// Menu line for one service: icon, display name, state and, when known, uptime.
pub open spec fn menu_item_text(service: ServiceStatus) -> Seq<char> {
    let head = status_icon(service.status@) + " "@ + display_name(service.name@) + ": "@
        + service.status@;
    match service.uptime {
        Some(u) => head + " ("@ + uptime_text(u as nat) + ")"@,
        None => head,
    }
}

pub fn get_service_status_icon(status: &str) -> (r: &'static str)
    ensures
        r@ == status_icon(status@),
{
    if text_eq(status, "Running") {
        "🟢"
    } else if text_eq(status, "Starting") {
        "🟡"
    } else if text_eq(status, "Stopped") {
        "⚫"
    } else if text_eq(status, "Failed") {
        "🔴"
    } else if text_eq(status, "Unhealthy") {
        "🟠"
    } else if text_eq(status, "Restarting") {
        "🔄"
    } else {
        "⚪"
    }
}

pub fn get_service_display_name(service_name: &str) -> (r: &'static str)
    ensures
        r@ == display_name(service_name@),
{
    if text_eq(service_name, "neo4j") {
        "Neo4j Database"
    } else if text_eq(service_name, "graphiti") {
        "Graphiti Memory"
    } else if text_eq(service_name, "agent") {
        "Agent System"
    } else {
        "Unknown Service"
    }
}

pub fn format_uptime(seconds: u64) -> (r: String)
    ensures
        r@ == uptime_text(seconds as nat),
{
    if seconds < 60 {
        let mut r = decimal_text(seconds);
        r.append("s");
        r
    } else if seconds < 3600 {
        let mut r = decimal_text(seconds / 60);
        r.append("m");
        r
    } else if seconds < 86400 {
        let mut r = decimal_text(seconds / 3600);
        r.append("h ");
        let minutes = decimal_text((seconds % 3600) / 60);
        r.append(minutes.as_str());
        r.append("m");
        r
    } else {
        let mut r = decimal_text(seconds / 86400);
        r.append("d ");
        let hours = decimal_text((seconds % 86400) / 3600);
        r.append(hours.as_str());
        r.append("h");
        r
    }
}

pub fn format_service_menu_item(service: &ServiceStatus) -> (r: String)
    ensures
        r@ == menu_item_text(*service),
{
    let mut r = String::from_str(get_service_status_icon(service.status.as_str()));
    r.append(" ");
    r.append(get_service_display_name(service.name.as_str()));
    r.append(": ");
    r.append(service.status.as_str());
    match service.uptime {
        Some(u) => {
            let up = format_uptime(u);
            r.append(" (");
            r.append(up.as_str());
            r.append(")");
        },
        None => {},
    }
    r
}

pub fn get_overall_status_icon(system_status: &SystemStatus) -> (r: &'static str)
    ensures
        r@ == overall_icon(system_status.overall_health@),
{
    let h = system_status.overall_health.as_str();
    if text_eq(h, "Healthy") {
        "🟢"
    } else if text_eq(h, "Degraded") {
        "🟡"
    } else if text_eq(h, "Unhealthy") {
        "🔴"
    } else {
        "⚪"
    }
}

} // verus!
