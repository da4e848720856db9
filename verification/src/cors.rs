//! Cross-origin rules for responses, as decisions on plain values.
//!
//! A server adapter reads the status and the method from its own request and
//! response types, asks here what to do, and writes the answer back.

use vstd::prelude::*;

verus! {

/// The status code of a response for which nothing was found.
pub const NOT_FOUND: u16 = 404;

/// The status code of a response that succeeds without a body.
pub const NO_CONTENT: u16 = 204;

/// The status that a response leaves with: a pre-flight request (method
/// `OPTIONS`) that found nothing is answered with "no content"; every other
/// response keeps its status.
pub open spec fn cors_status(status: u16, is_options: bool) -> u16 {
    if status == NOT_FOUND && is_options {
        NO_CONTENT
    } else {
        status
    }
}

/// The rule set that lets every origin read every response.
pub struct CorsFairing;

impl CorsFairing {
    /// The name under which the rule set registers itself.
    pub fn info(&self) -> (name: &'static str)
        ensures
            name@ == "CORS Fairing"@,
    {
        "CORS Fairing"
    }

    /// The header that is set on every response, as name and value: any origin
    /// is allowed.
    pub fn allow_origin_header(&self) -> (header: (&'static str, &'static str))
        ensures
            header.0@ == "Access-Control-Allow-Origin"@,
            header.1@ == "*"@,
    {
        ("Access-Control-Allow-Origin", "*")
    }

    /// The status to send for a response that currently has `status`, where
    /// `is_options` says whether the request's method is `OPTIONS`.
    pub fn on_response(&self, status: u16, is_options: bool) -> (new_status: u16)
        ensures
            new_status == cors_status(status, is_options),
    {
        if status == NOT_FOUND && is_options {
            NO_CONTENT
        } else {
            status
        }
    }
}

} // verus!
