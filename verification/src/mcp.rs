//! The MCP-styled request and response shapes: the same lookup as the
//! plain weather endpoint, wrapped in a standard envelope with a tool
//! name, a status word and a caller-supplied timestamp.

use vstd::prelude::*;

use crate::catalog::WeatherCatalog;
use crate::lookup::{MAX_CITIES, ValidationError, error_message, resolved_list};
use crate::record::WeatherData;

verus! {

/// An MCP weather request: the cities to look up.
pub struct McpWeatherRequest {
    pub cities: Vec<String>,
}

/// A successful MCP response: the tool name, a status word, the
/// timestamp the caller supplied, and one record per distinct
/// requested spelling.
#[derive(Debug)]
pub struct McpWeatherResponse {
    pub tool: String,
    pub status: String,
    pub timestamp: String,
    pub results: Vec<WeatherData>,
}

/// A failed MCP response: the envelope fields plus the human-readable
/// message and the numeric code of the rejection.
#[derive(Debug)]
pub struct McpErrorResponse {
    pub tool: String,
    pub status: String,
    pub timestamp: String,
    pub error: String,
    pub code: u16,
}

/// Answers an MCP weather request. The request list is validated as
/// the plain endpoint validates it; a rejection becomes an error
/// envelope carrying the message and code 400, a success an envelope
/// around exactly [`resolved_list`]. The timestamp is the caller's:
/// reading the clock stays outside the library.
pub fn weather_info(
    catalog: &WeatherCatalog,
    req: &McpWeatherRequest,
    timestamp: String,
) -> (r: Result<McpWeatherResponse, McpErrorResponse>)
    ensures
        req.cities@.len() == 0 ==> (r matches Err(e) && e.error@ == error_message(
            ValidationError::Empty,
        )),
        req.cities@.len() > MAX_CITIES ==> (r matches Err(e) && e.error@ == error_message(
            ValidationError::TooMany(req.cities@.len() as usize),
        )),
        1 <= req.cities@.len() <= MAX_CITIES ==> (r matches Ok(resp) && resp.results.deep_view()
            == resolved_list(catalog@, req.cities.deep_view()) && resp.status@ == "success"@),
        r matches Err(e) ==> e.tool@ == "weather_info"@ && e.status@ == "error"@ && e.timestamp@
            == timestamp@ && e.code == 400,
        r matches Ok(resp) ==> resp.tool@ == "weather_info"@ && resp.timestamp@ == timestamp@,
{
    match catalog.resolve(&req.cities) {
        Ok(results) => Ok(
            McpWeatherResponse {
                tool: String::from_str("weather_info"),
                status: String::from_str("success"),
                timestamp,
                results,
            },
        ),
        Err(e) => Err(
            McpErrorResponse {
                tool: String::from_str("weather_info"),
                status: String::from_str("error"),
                timestamp,
                error: e.message(),
                code: 400,
            },
        ),
    }
}

} // verus!
