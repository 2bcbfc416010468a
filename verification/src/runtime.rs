//! Runtime configuration handed to the game by the ONA runtime, and how raw values are read.
use crate::text::{decimal, join, joined, parse_i32, parse_u16, parse_u32, parsed_i32, parsed_u16, parsed_u32, push_decimal, push_signed_decimal, same_text, signed_decimal, text};
use vstd::prelude::*;
use vstd::string::*;

verus! {

/// The protocol version this build speaks.
pub const EXPECTED_PROTOCOL_VERSION: &'static str = "1";

/// A configuration value as it was found: absent, present but unusable, or usable.
#[derive(Debug, Clone, PartialEq)]
pub enum EnvValue<T> {
    Missing,
    Invalid(String),
    Valid(T),
}

/// How the game window is to be shown on the gaming display.
#[derive(Debug, Clone, Copy, PartialEq, Eq, Structural)]
pub enum DisplayMode {
    ConsoleFullscreen,
    Windowed,
}

/// Everything the runtime tells the game through its configuration.
#[derive(Debug, Clone)]
pub struct RuntimeConfig {
    pub runtime_raw: Option<String>,
    pub protocol_raw: Option<String>,
    pub input_host: Option<String>,
    pub input_port_raw: Option<String>,
    pub input_port: Option<u16>,
    pub lifecycle_host: Option<String>,
    pub lifecycle_port_raw: Option<String>,
    pub lifecycle_port: Option<u16>,
    pub player_id_raw: Option<String>,
    pub player_id: Option<u32>,
    pub display: DisplayConfig,
}

/// The gaming display the game is asked to appear on.  The scale factor is a 64-bit
/// float held by its bit pattern (`f64::to_bits`): nothing here computes with it.
#[derive(Debug, Clone)]
pub struct DisplayConfig {
    pub id: EnvValue<String>,
    pub target: EnvValue<String>,
    pub name: EnvValue<String>,
    pub x: EnvValue<i32>,
    pub y: EnvValue<i32>,
    pub width: EnvValue<u32>,
    pub height: EnvValue<u32>,
    pub scale_factor: EnvValue<u64>,
    pub mode: EnvValue<DisplayMode>,
}

/// Whether an optional raw value is exactly the text `expected`.
pub open spec fn raw_is(raw: Option<String>, expected: Seq<char>) -> bool {
    match raw {
        Some(s) => s@ == expected,
        None => false,
    }
}

/// Whether a value was found usable.
pub open spec fn is_valid<T>(v: EnvValue<T>) -> bool {
    v is Valid
}

/// Whether a value was found but could not be used.
pub open spec fn is_invalid<T>(v: EnvValue<T>) -> bool {
    v is Invalid
}

impl RuntimeConfig {
    /// Whether the game runs under the ONA runtime (`ONA_RUNTIME` is `1`).
    pub open spec fn spec_runtime_ok(&self) -> bool {
        raw_is(self.runtime_raw, "1"@)
    }

    /// Whether the runtime speaks the expected protocol version.
    pub open spec fn spec_protocol_ok(&self) -> bool {
        raw_is(self.protocol_raw, EXPECTED_PROTOCOL_VERSION@)
    }

    /// Whether the input bridge worker can be started.
    pub open spec fn spec_can_start_input_worker(&self) -> bool {
        &&& self.spec_runtime_ok()
        &&& self.spec_protocol_ok()
        &&& self.input_host is Some
        &&& self.input_port is Some
    }

    /// Whether the lifecycle bridge worker can be started.
    pub open spec fn spec_can_start_lifecycle_worker(&self) -> bool {
        &&& self.spec_runtime_ok()
        &&& self.spec_protocol_ok()
        &&& self.lifecycle_host is Some
        &&& self.lifecycle_port is Some
    }

    pub fn runtime_ok(&self) -> (r: bool)
        ensures
            r == self.spec_runtime_ok(),
    {
        match &self.runtime_raw {
            Some(s) => same_text(s.as_str(), "1"),
            None => false,
        }
    }

    pub fn protocol_ok(&self) -> (r: bool)
        ensures
            r == self.spec_protocol_ok(),
    {
        match &self.protocol_raw {
            Some(s) => same_text(s.as_str(), EXPECTED_PROTOCOL_VERSION),
            None => false,
        }
    }

    pub fn can_start_input_worker(&self) -> (r: bool)
        ensures
            r == self.spec_can_start_input_worker(),
    {
        self.runtime_ok() && self.protocol_ok() && self.input_host.is_some()
            && self.input_port.is_some()
    }

    pub fn can_start_lifecycle_worker(&self) -> (r: bool)
        ensures
            r == self.spec_can_start_lifecycle_worker(),
    {
        self.runtime_ok() && self.protocol_ok() && self.lifecycle_host.is_some()
            && self.lifecycle_port.is_some()
    }

    /// Builds the configuration from the raw values of the `ONA_*` variables
    /// (`None` where a variable is not set): an empty host counts as absent, and
    /// ports and the player id are parsed as decimal numbers.
    pub fn from_raw(
        runtime_raw: Option<String>,
        protocol_raw: Option<String>,
        input_host_raw: Option<String>,
        input_port_raw: Option<String>,
        lifecycle_host_raw: Option<String>,
        lifecycle_port_raw: Option<String>,
        player_id_raw: Option<String>,
        display: DisplayConfig,
    ) -> (r: RuntimeConfig)
        ensures
            r.runtime_raw == runtime_raw,
            r.protocol_raw == protocol_raw,
            r.input_host == non_empty(input_host_raw),
            r.input_port_raw == input_port_raw,
            r.input_port == parsed_port(input_port_raw),
            r.lifecycle_host == non_empty(lifecycle_host_raw),
            r.lifecycle_port_raw == lifecycle_port_raw,
            r.lifecycle_port == parsed_port(lifecycle_port_raw),
            r.player_id_raw == player_id_raw,
            r.player_id == parsed_player_id(player_id_raw),
            r.display == display,
    {
        let input_host = keep_non_empty(input_host_raw);
        let input_port = parse_port(&input_port_raw);
        let lifecycle_host = keep_non_empty(lifecycle_host_raw);
        let lifecycle_port = parse_port(&lifecycle_port_raw);
        let player_id = match &player_id_raw {
            Some(s) => parse_u32(s.as_str()),
            None => None,
        };
        RuntimeConfig {
            runtime_raw,
            protocol_raw,
            input_host,
            input_port_raw,
            input_port,
            lifecycle_host,
            lifecycle_port_raw,
            lifecycle_port,
            player_id_raw,
            player_id,
            display,
        }
    }
}

/// The raw value, where it is present and not empty.
pub open spec fn non_empty(raw: Option<String>) -> Option<String> {
    match raw {
        Some(s) => if s@.len() == 0 {
            None
        } else {
            Some(s)
        },
        None => None,
    }
}

/// The port that a raw value spells, if any.
pub open spec fn parsed_port(raw: Option<String>) -> Option<u16> {
    match raw {
        Some(s) => parsed_u16(s@),
        None => None,
    }
}

/// The player id that a raw value spells, if any.
pub open spec fn parsed_player_id(raw: Option<String>) -> Option<u32> {
    match raw {
        Some(s) => parsed_u32(s@),
        None => None,
    }
}

fn keep_non_empty(raw: Option<String>) -> (r: Option<String>)
    ensures
        r == non_empty(raw),
{
    match raw {
        Some(s) => if s.as_str().is_empty() {
            None
        } else {
            Some(s)
        },
        None => None,
    }
}

fn parse_port(raw: &Option<String>) -> (r: Option<u16>)
    ensures
        r == parsed_port(*raw),
{
    match raw {
        Some(s) => parse_u16(s.as_str()),
        None => None,
    }
}

/// A text value: an empty text is invalid.
pub open spec fn spec_read_string(raw: Option<String>) -> EnvValue<String> {
    match raw {
        Some(s) => if s@.len() == 0 {
            EnvValue::Invalid(s)
        } else {
            EnvValue::Valid(s)
        },
        None => EnvValue::Missing,
    }
}

/// Reads a text value from its raw form (`None` where the variable is not set).
pub fn read_string(raw: Option<String>) -> (r: EnvValue<String>)
    ensures
        r == spec_read_string(raw),
{
    match raw {
        Some(s) => if s.as_str().is_empty() {
            EnvValue::Invalid(s)
        } else {
            EnvValue::Valid(s)
        },
        None => EnvValue::Missing,
    }
}

/// A signed number: valid where the text parses as an `i32`.
pub open spec fn spec_read_i32(raw: Option<String>) -> EnvValue<i32> {
    match raw {
        Some(s) => match parsed_i32(s@) {
            Some(v) => EnvValue::Valid(v),
            None => EnvValue::Invalid(s),
        },
        None => EnvValue::Missing,
    }
}

/// An unsigned number: valid where the text parses as a `u32`.
pub open spec fn spec_read_u32(raw: Option<String>) -> EnvValue<u32> {
    match raw {
        Some(s) => match parsed_u32(s@) {
            Some(v) => EnvValue::Valid(v),
            None => EnvValue::Invalid(s),
        },
        None => EnvValue::Missing,
    }
}

/// Reads a signed number from its raw form.
pub fn read_parse_i32(raw: Option<String>) -> (r: EnvValue<i32>)
    ensures
        r == spec_read_i32(raw),
{
    match raw {
        Some(s) => match parse_i32(s.as_str()) {
            Some(v) => EnvValue::Valid(v),
            None => EnvValue::Invalid(s),
        },
        None => EnvValue::Missing,
    }
}

/// Reads an unsigned number from its raw form.
pub fn read_parse_u32(raw: Option<String>) -> (r: EnvValue<u32>)
    ensures
        r == spec_read_u32(raw),
{
    match raw {
        Some(s) => match parse_u32(s.as_str()) {
            Some(v) => EnvValue::Valid(v),
            None => EnvValue::Invalid(s),
        },
        None => EnvValue::Missing,
    }
}

/// A display mode: only the two exact names are valid.
pub open spec fn spec_read_display_mode(raw: Option<String>) -> EnvValue<DisplayMode> {
    match raw {
        Some(s) => if s@ == "CONSOLE_FULLSCREEN"@ {
            EnvValue::Valid(DisplayMode::ConsoleFullscreen)
        } else if s@ == "WINDOWED"@ {
            EnvValue::Valid(DisplayMode::Windowed)
        } else {
            EnvValue::Invalid(s)
        },
        None => EnvValue::Missing,
    }
}

/// Reads the display mode from its raw form.
pub fn read_display_mode(raw: Option<String>) -> (r: EnvValue<DisplayMode>)
    ensures
        r == spec_read_display_mode(raw),
{
    match raw {
        Some(s) => if same_text(s.as_str(), "CONSOLE_FULLSCREEN") {
            EnvValue::Valid(DisplayMode::ConsoleFullscreen)
        } else if same_text(s.as_str(), "WINDOWED") {
            EnvValue::Valid(DisplayMode::Windowed)
        } else {
            EnvValue::Invalid(s)
        },
        None => EnvValue::Missing,
    }
}

/// The problem line for one value, if it has one.
pub open spec fn problem_of<T>(key: Seq<char>, value: EnvValue<T>) -> Seq<Seq<char>> {
    match value {
        EnvValue::Missing => seq![key + " missing"@],
        EnvValue::Invalid(raw) => seq![key + " invalid: "@ + raw@],
        EnvValue::Valid(_) => Seq::empty(),
    }
}

/// Records in `problems` what is wrong with `value`, if anything.
pub fn push_problem<T>(problems: &mut Vec<String>, key: &str, value: &EnvValue<T>)
    ensures
        final(problems).deep_view() == old(problems).deep_view() + problem_of(key@, *value),
{
    match value {
        EnvValue::Missing => {
            let mut line = text(key);
            line.append(" missing");
            problems.push(line);
        },
        EnvValue::Invalid(raw) => {
            let mut line = text(key);
            line.append(" invalid: ");
            line.append(raw.as_str());
            problems.push(line);
        },
        EnvValue::Valid(_) => {},
    }
    proof {
        assert(problems.deep_view() =~= old(problems).deep_view() + problem_of(key@, *value));
    }
}

impl DisplayConfig {
    /// Whether position and size of the target display are all usable numbers.
    pub open spec fn spec_has_valid_target_rect(&self) -> bool {
        &&& self.x is Valid
        &&& self.y is Valid
        &&& self.width is Valid
        &&& self.height is Valid
    }

    /// Whether the display data is complete enough to find and use the display.
    pub open spec fn spec_display_data_ok(&self) -> bool {
        &&& self.spec_has_valid_target_rect()
        &&& self.mode is Valid
        &&& !(self.id is Invalid)
        &&& !(self.target is Invalid)
        &&& !(self.name is Invalid)
        &&& !(self.scale_factor is Invalid)
    }

    /// The problems with the display data, one line per missing or invalid value, in
    /// the order x, y, width, height, mode, scale factor.
    pub open spec fn spec_problems(&self) -> Seq<Seq<char>> {
        problem_of("ONA_DISPLAY_X"@, self.x) + problem_of("ONA_DISPLAY_Y"@, self.y) + problem_of(
            "ONA_DISPLAY_WIDTH"@,
            self.width,
        ) + problem_of("ONA_DISPLAY_HEIGHT"@, self.height) + problem_of(
            "ONA_DISPLAY_MODE"@,
            self.mode,
        ) + problem_of("ONA_DISPLAY_SCALE_FACTOR"@, self.scale_factor)
    }

    /// The problems joined by `"; "`, or `None` where there are none.
    pub open spec fn spec_data_problem(&self) -> Option<Seq<char>> {
        if self.spec_problems().len() == 0 {
            None
        } else {
            Some(joined(self.spec_problems(), "; "@))
        }
    }

    pub fn has_valid_target_rect(&self) -> (r: bool)
        ensures
            r == self.spec_has_valid_target_rect(),
    {
        matches!(self.x, EnvValue::Valid(_)) && matches!(self.y, EnvValue::Valid(_)) && matches!(
            self.width,
            EnvValue::Valid(_)
        ) && matches!(self.height, EnvValue::Valid(_))
    }

    /// Position and size of the target display, where all four are usable.
    pub fn target_rect(&self) -> (r: Option<(i32, i32, u32, u32)>)
        ensures
            r is Some == self.spec_has_valid_target_rect(),
            r matches Some(t) ==> self.x == EnvValue::<i32>::Valid(t.0) && self.y
                == EnvValue::<i32>::Valid(t.1) && self.width == EnvValue::<u32>::Valid(t.2)
                && self.height == EnvValue::<u32>::Valid(t.3),
    {
        match (&self.x, &self.y, &self.width, &self.height) {
            (
                EnvValue::Valid(x),
                EnvValue::Valid(y),
                EnvValue::Valid(width),
                EnvValue::Valid(height),
            ) => Some((*x, *y, *width, *height)),
            _ => None,
        }
    }

    pub fn display_data_ok(&self) -> (r: bool)
        ensures
            r == self.spec_display_data_ok(),
    {
        self.has_valid_target_rect() && matches!(self.mode, EnvValue::Valid(_)) && !matches!(
            self.id,
            EnvValue::Invalid(_)
        ) && !matches!(self.target, EnvValue::Invalid(_)) && !matches!(
            self.name,
            EnvValue::Invalid(_)
        ) && !matches!(self.scale_factor, EnvValue::Invalid(_))
    }

    /// What is wrong with the display data, if anything.
    pub fn data_problem(&self) -> (r: Option<String>)
        ensures
            r.deep_view() == self.spec_data_problem(),
    {
        let mut problems: Vec<String> = Vec::new();
        push_problem(&mut problems, "ONA_DISPLAY_X", &self.x);
        push_problem(&mut problems, "ONA_DISPLAY_Y", &self.y);
        push_problem(&mut problems, "ONA_DISPLAY_WIDTH", &self.width);
        push_problem(&mut problems, "ONA_DISPLAY_HEIGHT", &self.height);
        push_problem(&mut problems, "ONA_DISPLAY_MODE", &self.mode);
        push_problem(&mut problems, "ONA_DISPLAY_SCALE_FACTOR", &self.scale_factor);
        proof {
            assert(problems.deep_view() =~= self.spec_problems());
        }
        if problems.len() == 0 {
            None
        } else {
            Some(join(&problems, "; "))
        }
    }
}

impl DisplayMode {
    pub open spec fn spec_label(self) -> Seq<char> {
        match self {
            DisplayMode::ConsoleFullscreen => "CONSOLE_FULLSCREEN"@,
            DisplayMode::Windowed => "WINDOWED"@,
        }
    }

    pub fn label(self) -> (r: &'static str)
        ensures
            r@ == self.spec_label(),
    {
        match self {
            DisplayMode::ConsoleFullscreen => "CONSOLE_FULLSCREEN",
            DisplayMode::Windowed => "WINDOWED",
        }
    }
}

/// The label of a value whose usable form is rendered as `valid`.
pub open spec fn value_label<T>(v: EnvValue<T>, valid: Seq<char>) -> Seq<char> {
    match v {
        EnvValue::Missing => "<missing>"@,
        EnvValue::Invalid(raw) => "<invalid:"@ + raw@ + ">"@,
        EnvValue::Valid(_) => valid,
    }
}

/// How a text value is shown: the text itself where it is usable.
pub open spec fn text_label(v: EnvValue<String>) -> Seq<char> {
    value_label(
        v,
        match v {
            EnvValue::Valid(s) => s@,
            _ => Seq::empty(),
        },
    )
}

/// How a signed number is shown: in decimal where it is usable.
pub open spec fn signed_label(v: EnvValue<i32>) -> Seq<char> {
    value_label(
        v,
        match v {
            EnvValue::Valid(n) => signed_decimal(n as int),
            _ => Seq::empty(),
        },
    )
}

/// How an unsigned number is shown: in decimal where it is usable.
pub open spec fn unsigned_label(v: EnvValue<u32>) -> Seq<char> {
    value_label(
        v,
        match v {
            EnvValue::Valid(n) => decimal(n as nat),
            _ => Seq::empty(),
        },
    )
}

/// How a display mode is shown: its name where it is usable.
pub open spec fn mode_label(v: EnvValue<DisplayMode>) -> Seq<char> {
    value_label(
        v,
        match v {
            EnvValue::Valid(m) => m.spec_label(),
            _ => Seq::empty(),
        },
    )
}

fn missing_or_invalid_label<T>(v: &EnvValue<T>) -> (r: String)
    requires
        !(v is Valid),
    ensures
        r@ == value_label(*v, Seq::empty()),
{
    match v {
        EnvValue::Invalid(raw) => {
            let mut s = text("<invalid:");
            s.append(raw.as_str());
            s.append(">");
            s
        },
        _ => text("<missing>"),
    }
}

impl EnvValue<String> {
    /// How the value is shown on screen.
    pub fn as_label(&self) -> (r: String)
        ensures
            r@ == text_label(*self),
    {
        match self {
            EnvValue::Valid(s) => s.clone(),
            _ => missing_or_invalid_label(self),
        }
    }
}

impl EnvValue<i32> {
    /// How the value is shown on screen.
    pub fn as_label(&self) -> (r: String)
        ensures
            r@ == signed_label(*self),
    {
        match self {
            EnvValue::Valid(v) => {
                let mut s = String::new();
                push_signed_decimal(&mut s, *v as i64);
                s
            },
            _ => missing_or_invalid_label(self),
        }
    }
}

impl EnvValue<u32> {
    /// How the value is shown on screen.
    pub fn as_label(&self) -> (r: String)
        ensures
            r@ == unsigned_label(*self),
    {
        match self {
            EnvValue::Valid(v) => {
                let mut s = String::new();
                push_decimal(&mut s, *v as u64);
                s
            },
            _ => missing_or_invalid_label(self),
        }
    }
}

impl EnvValue<DisplayMode> {
    /// How the value is shown on screen.
    pub fn as_label(&self) -> (r: String)
        ensures
            r@ == mode_label(*self),
    {
        match self {
            EnvValue::Valid(m) => text(m.label()),
            _ => missing_or_invalid_label(self),
        }
    }
}

} // verus!
