//! Decisions of the error-telemetry forwarder: whether output is captured
//! at all, where it is relayed, and what body is sent.
use vstd::prelude::*;

use crate::json::{is_json_text, json_pair_object, pair_object};

verus! {

/// How a guarded call runs.
#[derive(Debug, Clone)]
pub enum RelayPlan {
    /// No listener: run the work directly, capture nothing, send nothing.
    RunDirect,
    /// Capture the work's error output and post it to `url`.
    Capture { url: String },
}

pub open spec fn relay_url(port: Seq<char>) -> Seq<char> {
    "http://127.0.0.1:"@ + port + "/vuln"@
}

/// The plan for a guarded call, given the configured listener port.
pub fn relay_plan(port: Option<&str>) -> (r: RelayPlan)
    ensures
        port is None <==> r is RunDirect,
        port matches Some(p) ==> (r matches RelayPlan::Capture { url } && url@ == relay_url(p@)),
{
    match port {
        None => RelayPlan::RunDirect,
        Some(p) => {
            let url = String::from_str("http://127.0.0.1:").concat(p).concat("/vuln");
            RelayPlan::Capture { url }
        },
    }
}

/// The body relayed for captured text: JSON is sent as the object
/// `{"crate": unit, "message": <the captured value>}`; anything else is sent
/// as it is.
pub fn relay_body(captured: &str, unit: &str) -> (r: String)
    ensures
        is_json_text(captured@) ==> r@ == json_pair_object("crate"@, unit@, "message"@, captured@),
        !is_json_text(captured@) ==> r@ == captured@,
{
    match pair_object("crate", unit, "message", captured) {
        Some(body) => body,
        None => String::from_str(captured),
    }
}

} // verus!
