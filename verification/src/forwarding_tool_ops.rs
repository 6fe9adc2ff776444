//! Which endpoint tool operations are forwarded to.

use crate::text::owned;
use vstd::prelude::*;

verus! {

/// What is to be done before an operation is forwarded.
#[derive(Debug)]
pub enum EndpointPlan {
    /// No endpoint is set up.
    Unset(String),
    /// The connection that is there is the right one.
    Reuse,
    /// A connection to this endpoint is to be made, and kept in place of the one that is there.
    Connect(String),
}

pub const NO_ENDPOINT: &'static str =
    "daemon has no controller tool endpoint configured (tool_service_addr is unset)";

/// What is to be done before an operation is forwarded, given the endpoint that is set up now
/// and the one that the kept connection was made to. An empty endpoint counts as none.
pub fn endpoint_plan(configured: &Option<String>, connected: &Option<String>) -> (r: EndpointPlan)
    ensures
        match configured {
            Some(addr) => if addr@.len() == 0 {
                r matches EndpointPlan::Unset(m) && m@ == NO_ENDPOINT@
            } else if connected matches Some(c) && c@ == addr@ {
                r is Reuse
            } else {
                r matches EndpointPlan::Connect(a) && a@ == addr@
            },
            None => r matches EndpointPlan::Unset(m) && m@ == NO_ENDPOINT@,
        },
{
    let addr = match configured {
        Some(addr) => addr,
        None => {
            return EndpointPlan::Unset(owned(NO_ENDPOINT));
        },
    };
    if addr.as_str().is_empty() {
        return EndpointPlan::Unset(owned(NO_ENDPOINT));
    }
    if let Some(c) = connected {
        if c.as_str().eq(addr.as_str()) {
            return EndpointPlan::Reuse;
        }
    }
    EndpointPlan::Connect(addr.clone())
}

/// The error of a connection that could not be made.
pub fn connect_error(addr: &str, error: &str) -> (r: String)
    ensures
        r@ == "connect tool service "@ + addr@ + ": "@ + error@,
{
    let mut r = owned("connect tool service ");
    r.push_str(addr);
    r.push_str(": ");
    r.push_str(error);
    r
}

/// What stands in the output of a command in place of a frame that was lost.
pub fn lost_frame(error: &str) -> (r: String)
    ensures
        r@ == "tool forwarding error: "@ + error@ + "\n"@,
{
    let mut r = owned("tool forwarding error: ");
    r.push_str(error);
    r.push_str("\n");
    r
}

} // verus!
