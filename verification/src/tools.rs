//! The tools that the assistant offers, and what they share.

pub mod get_weather;

pub use crate::tools::get_weather::{GetWeather, GetWeatherParameters};

use crate::error::ToolError;
use vstd::prelude::*;
use vstd::string::*;

verus! {

/// What came of fetching a page over the network.
#[derive(Debug, PartialEq, Eq)]
pub enum Fetched {
    /// The response came, and this is its body.
    Body(String),
    /// The response came, but its body could not be read.
    BodyFailed,
    /// No response came.
    NoResponse,
}

pub enum FetchedView {
    Body(Seq<char>),
    BodyFailed,
    NoResponse,
}

impl View for Fetched {
    type V = FetchedView;

    open spec fn view(&self) -> FetchedView {
        match self {
            Fetched::Body(text) => FetchedView::Body(text@),
            Fetched::BodyFailed => FetchedView::BodyFailed,
            Fetched::NoResponse => FetchedView::NoResponse,
        }
    }
}

/// The address at which the weather of a location is asked for: one line,
/// the condition and the temperature.
pub open spec fn weather_address(location: Seq<char>) -> Seq<char> {
    "https://wttr.in/"@ + location + "?lang=ru&format=%C+%t"@
}

/// What the weather tool answers: the body as it came, or, where the
/// network failed, a line that says which part of the exchange did.
pub open spec fn weather_text(fetched: FetchedView) -> Seq<char> {
    match fetched {
        FetchedView::Body(text) => text,
        FetchedView::BodyFailed => "failed to get body"@,
        FetchedView::NoResponse => "failed to get response"@,
    }
}

/// The address to fetch for the weather of `location`.
pub fn weather_url(location: &str) -> (url: String)
    ensures
        url@ == weather_address(location@),
{
    let mut url = String::from_str("https://wttr.in/");
    url.append(location);
    url.append("?lang=ru&format=%C+%t");
    url
}

/// Retrieves current weather for the given location, from what fetching
/// [`weather_url`] gave. A failure of the network does not fail the tool: it
/// is told in the answer.
pub fn get_weather(fetched: Fetched) -> (answer: Result<String, ToolError>)
    ensures
        answer matches Ok(text) && text@ == weather_text(fetched@),
{
    match fetched {
        Fetched::Body(text) => Ok(text),
        Fetched::BodyFailed => Ok(String::from_str("failed to get body")),
        Fetched::NoResponse => Ok(String::from_str("failed to get response")),
    }
}

} // verus!
