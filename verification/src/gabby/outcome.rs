//! How the agent ends.

use super::config::ConfigError;
use super::server::ServerError;
use crate::text::concat;
use vstd::prelude::*;

verus! {

/// Gabby application errors.
#[derive(Debug, Clone)]
pub enum GabbyError {
    Config(ConfigError),
    Server(ServerError),
}

impl GabbyError {
    /// What the error says.
    pub open spec fn text(self) -> Seq<char> {
        match self {
            GabbyError::Config(e) => "Configuration error: "@ + e.text(),
            GabbyError::Server(e) => "Server error: "@ + e.text(),
        }
    }

    /// What the error says.
    pub fn describe(&self) -> (r: String)
        ensures
            r@ == self.text(),
    {
        match self {
            GabbyError::Config(e) => concat("Configuration error: ", e.describe().as_str()),
            GabbyError::Server(e) => concat("Server error: ", e.describe().as_str()),
        }
    }
}

/// What the end of the server means for the application.
pub fn handle_server_result(result: Result<(), ServerError>) -> (r: Result<(), GabbyError>)
    ensures
        match result {
            Ok(()) => r is Ok,
            Err(e) => r matches Err(GabbyError::Server(f)) && f == e,
        },
{
    match result {
        Ok(()) => Ok(()),
        Err(e) => Err(GabbyError::Server(e)),
    }
}

} // verus!
