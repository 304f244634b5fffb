//! The command line's settings.

use vstd::prelude::*;
use crate::message::{AgentProvider, provider_named, unknown_provider_message};
use crate::text::lowercased;

verus! {

/// What the command line asks for.
#[derive(Clone, Debug)]
pub struct Cli {
    /// One request to run; without it, requests are read one line at a time.
    pub prompt: Option<String>,
    /// The backend, when chosen on the command line.
    pub provider: Option<AgentProvider>,
}

/// Reads a provider name given on the command line.
pub fn parse_provider(s: &str) -> (r: Result<AgentProvider, String>)
    ensures
        match provider_named(lowercased(s@)) {
            Some(p) => r == Ok::<AgentProvider, String>(p),
            None => r is Err && r->Err_0@ == unknown_provider_message(s@),
        },
{
    AgentProvider::parse(s)
}

} // verus!
