//! Input events from the input bridge, as the diagnostic consumes them.
use crate::text::text;
use vstd::prelude::*;

verus! {

/// One joystick axis: the 32-bit float the bridge sent, held by its bit pattern
/// (`f32::to_bits`), together with its rendering with two decimals (`{:.2}`).
#[derive(Debug, Clone)]
pub struct AxisValue {
    pub bits: u32,
    pub text: String,
}

/// An event sent by the input bridge.
#[derive(Debug, Clone)]
pub enum InputEvent {
    Joystick { player_id: u32, x: AxisValue, y: AxisValue },
    Button { player_id: u32, button: String, state: String },
}

/// What the input worker hands to the diagnostic.  An `Event` carries the decoded
/// event, or the decoder's message where the payload was no valid event.
#[derive(Debug)]
pub enum InputWorkerMessage {
    Connecting,
    Connected,
    Disconnected(String),
    InvalidJson(String),
    Event(Result<InputEvent, String>),
}

/// Bit pattern of the joystick dead zone, the `f32` nearest to 0.05.
pub const JOYSTICK_DEAD_ZONE_BITS: u32 = 0x3D4C_CCCD;

/// Bit pattern of positive infinity.
pub const INFINITY_BITS: u32 = 0x7F80_0000;

/// Whether the magnitude of the float with bit pattern `bits` is greater than the dead
/// zone.  Clearing the sign bit gives the magnitude's pattern; non-negative floats up to
/// infinity are ordered as their patterns are, and a NaN (pattern above infinity's)
/// compares greater than nothing.
pub open spec fn beyond_dead_zone(bits: u32) -> bool {
    let magnitude = bits & 0x7FFF_FFFF;
    JOYSTICK_DEAD_ZONE_BITS < magnitude && magnitude <= INFINITY_BITS
}

/// Whether an axis value shows real movement, i.e. `value.abs() > 0.05`.
pub fn is_beyond_dead_zone(bits: u32) -> (r: bool)
    ensures
        r == beyond_dead_zone(bits),
{
    let magnitude = bits & 0x7FFF_FFFF;
    JOYSTICK_DEAD_ZONE_BITS < magnitude && magnitude <= INFINITY_BITS
}

impl AxisValue {
    pub fn new(bits: u32, text: String) -> (r: AxisValue)
        ensures
            r.bits == bits,
            r.text == text,
    {
        AxisValue { bits, text }
    }

    /// The axis at rest: `0.0`, shown as `0.00`.
    pub fn zero() -> (r: AxisValue)
        ensures
            r.bits == 0,
            r.text@ == "0.00"@,
    {
        AxisValue { bits: 0, text: text("0.00") }
    }

    pub fn clone_value(&self) -> (r: AxisValue)
        ensures
            r.bits == self.bits,
            r.text@ == self.text@,
    {
        AxisValue { bits: self.bits, text: self.text.clone() }
    }
}

} // verus!
