//! What the device reports with a request.

use vstd::prelude::*;

use crate::text::clone_option;

verus! {

/// How the device is powered.
#[derive(Clone, Copy, Debug, PartialEq, Eq, Structural)]
pub enum PowerState {
    Battery,
    Charging,
    Full,
    Fault,
}

impl PowerState {
    /// Every variant, in declaration order.
    pub const ALL: [PowerState; 4] = [
        PowerState::Battery,
        PowerState::Charging,
        PowerState::Full,
        PowerState::Fault,
    ];

    /// The name of the state.
    pub open spec fn name(self) -> Seq<char> {
        match self {
            PowerState::Battery => "battery"@,
            PowerState::Charging => "charging"@,
            PowerState::Full => "full"@,
            PowerState::Fault => "fault"@,
        }
    }

    /// The name of the state.
    pub fn as_str(self) -> (r: &'static str)
        ensures
            r@ == self.name(),
    {
        match self {
            PowerState::Battery => "battery",
            PowerState::Charging => "charging",
            PowerState::Full => "full",
            PowerState::Fault => "fault",
        }
    }
}

/// Different power states have different names.
pub proof fn law_power_names_differ(a: PowerState, b: PowerState)
    ensures
        a.name() == b.name() ==> a == b,
{
    reveal_strlit("battery");
    reveal_strlit("charging");
    reveal_strlit("full");
    reveal_strlit("fault");
    assert("battery"@.len() == 7 && "charging"@.len() == 8 && "full"@.len() == 4 && "fault"@.len()
        == 5);
}

/// Sensor readings that came with one request. The device may report any subset of
/// them. Temperature and humidity are kept as the text to publish.
#[derive(Debug)]
pub struct SensorState {
    pub battery_mv: Option<u32>,
    pub battery_pct: Option<u8>,
    pub temperature_c: Option<String>,
    pub humidity_pct: Option<String>,
    pub power: Option<PowerState>,
}

impl Default for SensorState {
    /// No readings.
    fn default() -> (r: Self)
        ensures
            r.battery_mv is None,
            r.battery_pct is None,
            r.temperature_c is None,
            r.humidity_pct is None,
            r.power is None,
    {
        SensorState {
            battery_mv: None,
            battery_pct: None,
            temperature_c: None,
            humidity_pct: None,
            power: None,
        }
    }
}

impl Clone for SensorState {
    fn clone(&self) -> (r: Self)
        ensures
            r == *self,
    {
        SensorState {
            battery_mv: self.battery_mv,
            battery_pct: self.battery_pct,
            temperature_c: clone_option(&self.temperature_c),
            humidity_pct: clone_option(&self.humidity_pct),
            power: self.power,
        }
    }
}

} // verus!
