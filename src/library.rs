//! The ad library page: request parameters and the defaults of its client.
use vstd::prelude::*;
use vstd::string::*;

pub mod request;

verus! {

/// The user agent that the library page client sends unless told otherwise.
pub open spec fn default_user_agent() -> Seq<char> {
    "curl/8.16.0"@
}

/// The user agent to send: the one given, else the default.
pub fn user_agent_or_default(user_agent: Option<String>) -> (r: String)
    ensures
        r@ == match user_agent {
            Some(u) => u@,
            None => default_user_agent(),
        },
{
    match user_agent {
        Some(u) => u,
        None => String::from_str("curl/8.16.0"),
    }
}

} // verus!
