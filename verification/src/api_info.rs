//! An earlier cut of the plan-status records, kept for callers that still
//! name this module.

use vstd::prelude::*;

verus! {

/// The plan status the service reports for a credential.
#[derive(Debug, PartialEq)]
pub struct ApiInfoResponse {
    pub scan_credits: u32,
    pub usage_limits: ApiInfoResponseUsageLimits,
    pub plan: String,
    pub https: bool,
    pub unlocked: bool,
    pub query_credits: u32,
    pub monitored_ips: Option<u32>,
    pub unlocked_left: u32,
    pub telnet: bool,
}

/// The plan's limits; a negative value means unlimited.
#[derive(Debug, PartialEq)]
pub struct ApiInfoResponseUsageLimits {
    pub scan_credits: i32,
    pub query_credits: i32,
    pub monitored_ips: i32,
}

} // verus!
