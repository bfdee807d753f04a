//! The request and response shapes of the render service: a poster
//! description plus an output format comes in; a success/data/error triple
//! goes out.

use vstd::prelude::*;

use crate::model::PosterConfig;
use crate::model::PosterError;
use crate::model::spec_error_message;

verus! {

/// The output format a caller asks for: a data-URL string, or a file
/// written on the server.
#[derive(Clone, Copy, Debug, PartialEq, Eq, Structural)]
pub enum OutputFormat {
    Base64,
    File,
}

/// A render request: the poster description and the desired output form.
#[derive(Debug, Clone, PartialEq, Eq)]
pub struct PosterRequest {
    pub config: PosterConfig,
    pub format: OutputFormat,
}

/// A render response: on success `data` carries the output (a data URL or
/// a file path); on failure `error` carries the description.
#[derive(Debug, Clone, PartialEq, Eq)]
pub struct PosterResponse {
    pub success: bool,
    pub data: Option<String>,
    pub error: Option<String>,
}

/// Builds the response for a finished render: a successful render carries
/// its output and no error; a failed render carries the error's
/// description and no data.
pub fn poster_response(result: Result<String, PosterError>) -> (r: PosterResponse)
    ensures
        result matches Ok(d) ==> r.success && (r.data matches Some(v) && v@ == d@) && r.error
            is None,
        result matches Err(e) ==> !r.success && r.data is None && (r.error matches Some(m) && m@
            == spec_error_message(e)),
{
    match result {
        Ok(d) => PosterResponse { success: true, data: Some(d), error: None },
        Err(e) => PosterResponse { success: false, data: None, error: Some(e.message()) },
    }
}

} // verus!
