//! The weather tool: its descriptor, the reading of its arguments, and its
//! answer.

use crate::error::{ToolError, ToolErrorKind};
use crate::registry::{ToolDescriptor, ToolDescriptorView};
use crate::schema::{
    accepts, member, validate, violation, Arguments, ArgumentsView, Parameter, ParameterView,
    ValueKind,
};
use crate::tools::{weather_address, weather_text, Fetched};
use vstd::prelude::*;
use vstd::string::*;

verus! {

/// The character is white space, as Unicode defines it.
pub open spec fn is_space(c: char) -> bool {
    let n: u32 = c as u32;
    ||| 0x9 <= n <= 0xD
    ||| n == 0x20
    ||| n == 0x85
    ||| n == 0xA0
    ||| n == 0x1680
    ||| 0x2000 <= n <= 0x200A
    ||| n == 0x2028
    ||| n == 0x2029
    ||| n == 0x202F
    ||| n == 0x205F
    ||| n == 0x3000
}

/// The text is empty once the white space at its ends is taken off: it holds
/// nothing but white space.
pub open spec fn blank(text: Seq<char>) -> bool {
    forall|i: int| 0 <= i < text.len() ==> is_space(#[trigger] text[i])
}

pub fn is_whitespace(c: char) -> (space: bool)
    ensures
        space == is_space(c),
{
    let n: u32 = c as u32;
    (0x9 <= n && n <= 0xD) || n == 0x20 || n == 0x85 || n == 0xA0 || n == 0x1680 || (0x2000 <= n
        && n <= 0x200A) || n == 0x2028 || n == 0x2029 || n == 0x202F || n == 0x205F || n == 0x3000
}

pub fn is_blank(text: &str) -> (empty: bool)
    ensures
        empty == blank(text@),
{
    let len: usize = text.unicode_len();
    let mut i: usize = 0;
    while i < len
        invariant
            i <= len,
            len == text@.len(),
            forall|k: int| 0 <= k < i ==> is_space(#[trigger] text@[k]),
        decreases len - i,
    {
        if !is_whitespace(text.get_char(i)) {
            return false;
        }
        i += 1;
    }
    true
}

/// The parameters of the weather tool.
#[derive(Debug, PartialEq, Eq)]
pub struct GetWeatherParameters {
    location: String,
}

impl View for GetWeatherParameters {
    type V = Seq<char>;

    closed spec fn view(&self) -> Seq<char> {
        self.location@
    }
}

impl GetWeatherParameters {
    /// Location to get the weather for.
    pub fn location(&self) -> (location: &String)
        ensures
            location@ == self@,
    {
        &self.location
    }
}

/// The one parameter of the weather tool.
pub open spec fn location_parameter() -> ParameterView {
    ParameterView {
        name: "location"@,
        kind: ValueKind::Text,
        required: true,
        description: "Location to get the weather for"@,
    }
}

/// What the weather tool tells about itself.
pub open spec fn weather_descriptor() -> ToolDescriptorView {
    ToolDescriptorView {
        name: "get_weather"@,
        description: "Retrieves current weather for the given location."@,
        parameter_schema: seq![location_parameter()],
    }
}

/// The location that arguments name, where they name one the tool can work
/// with: they fit the schema, and the location is not blank.
pub open spec fn named_location(args: ArgumentsView) -> Option<Seq<char>> {
    if accepts(weather_descriptor().parameter_schema, args) && !blank(
        member(args, "location"@)->Some_0.text,
    ) {
        Some(member(args, "location"@)->Some_0.text)
    } else {
        None
    }
}

/// What the tool objects to in arguments that name no location: what the
/// schema objects to or, where it objects to nothing, the blank location.
pub open spec fn location_objection(args: ArgumentsView) -> Seq<char> {
    match violation(weather_descriptor().parameter_schema, args) {
        Some(subject) => subject,
        None => "location"@,
    }
}

/// The weather tool.
#[derive(Debug, PartialEq, Eq)]
pub struct GetWeather {}

impl GetWeather {
    pub fn new() -> Self {
        GetWeather {  }
    }

    pub fn name() -> (name: &'static str)
        ensures
            name@ == weather_descriptor().name,
    {
        "get_weather"
    }

    pub fn description() -> (description: &'static str)
        ensures
            description@ == weather_descriptor().description,
    {
        "Retrieves current weather for the given location."
    }

    /// The descriptor under which the tool is registered and advertised.
    pub fn tool_info() -> (info: ToolDescriptor)
        ensures
            info@ == weather_descriptor(),
    {
        let mut parameter_schema: Vec<Parameter> = Vec::new();
        parameter_schema.push(
            Parameter {
                name: String::from_str("location"),
                kind: ValueKind::Text,
                required: true,
                description: String::from_str("Location to get the weather for"),
            },
        );
        let info = ToolDescriptor {
            name: String::from_str(Self::name()),
            description: String::from_str(Self::description()),
            parameter_schema,
        };
        assert(info@.parameter_schema =~= seq![location_parameter()]);
        info
    }

    /// Reads the arguments of a call. Succeeds exactly where they name a
    /// location; otherwise the error is `InvalidArguments` with the
    /// objection as its detail.
    pub fn call_from_json(&self, json: &Arguments) -> (r: Result<GetWeatherParameters, ToolError>)
        ensures
            match named_location(json@) {
                Some(location) => r matches Ok(parameters) && parameters@ == location,
                None => r matches Err(e) && e@.kind == ToolErrorKind::InvalidArguments && e@.detail
                    == location_objection(json@),
            },
    {
        let info = Self::tool_info();
        proof {
            crate::schema::lemma_violation_none_iff_accepted(info@.parameter_schema, json@);
        }
        match validate(&info.parameter_schema, json) {
            Err(e) => Err(e),
            Ok(()) => {
                let key = String::from_str("location");
                assert(crate::schema::satisfied(info@.parameter_schema[0], json@->Object_0));
                match json.get(&key) {
                    Some(value) => {
                        if is_blank(value.text.as_str()) {
                            Err(ToolError::invalid_arguments(key))
                        } else {
                            Ok(GetWeatherParameters { location: value.text.clone() })
                        }
                    },
                    None => vstd::pervasive::unreached(),
                }
            },
        }
    }

    /// The address to fetch for the weather of the location.
    pub fn request_url(&self, parameters: &GetWeatherParameters) -> (url: String)
        ensures
            url@ == weather_address(parameters@),
    {
        crate::tools::weather_url(parameters.location.as_str())
    }

    /// Retrieves current weather for the given location, from what fetching
    /// the address gave.
    pub fn get_weather(&self, fetched: Fetched) -> (answer: Result<String, ToolError>)
        ensures
            answer matches Ok(text) && text@ == weather_text(fetched@),
    {
        crate::tools::get_weather(fetched)
    }
}

} // verus!
