use vstd::prelude::*;

verus! {

/// Request of the sleep endpoint: how long to sleep.
#[derive(Debug, Clone, Copy, PartialEq, Eq, Structural)]
pub struct SleepMillis {
    pub millis: u16,
}

/// Response of the sleep endpoint: how long the device slept.
#[derive(Debug, Clone, Copy, PartialEq, Eq, Structural)]
pub struct SleptMillis {
    pub millis: u16,
}

/// State of the indicator light.
#[derive(Debug, Clone, Copy, PartialEq, Eq, Structural)]
pub enum LedState {
    Off,
    On,
}

/// One telemetry message: what the host reports about itself.
#[derive(Debug, Clone, Copy, PartialEq, Eq)]
pub struct SysInfo<'a> {
    pub host_name: &'a str,
    pub cpu_freq_text: &'a str,
    pub cpu_usage: u8,
    pub memory_usage: u64,
    pub total_memory: u64,
    pub scroll_text: &'a str,
}

/// The operations that the device offers.
#[derive(Debug, Clone, Copy, PartialEq, Eq, Structural)]
pub enum Endpoint {
    GetUniqueId,
    RebootToPicoBoot,
    Sleep,
    SetLed,
    GetLed,
    SetDisplay,
}

impl Endpoint {
    /// The path under which the operation is known on the wire.
    pub open spec fn spec_path(self) -> Seq<char> {
        match self {
            Endpoint::GetUniqueId => "poststation/unique_id/get"@,
            Endpoint::RebootToPicoBoot => "template/picoboot/reset"@,
            Endpoint::Sleep => "template/sleep"@,
            Endpoint::SetLed => "template/led/set"@,
            Endpoint::GetLed => "template/led/get"@,
            Endpoint::SetDisplay => "template/display/set"@,
        }
    }

    /// The path under which the operation is known on the wire.
    pub fn path(self) -> (p: &'static str)
        ensures
            p@ == self.spec_path(),
    {
        match self {
            Endpoint::GetUniqueId => "poststation/unique_id/get",
            Endpoint::RebootToPicoBoot => "template/picoboot/reset",
            Endpoint::Sleep => "template/sleep",
            Endpoint::SetLed => "template/led/set",
            Endpoint::GetLed => "template/led/get",
            Endpoint::SetDisplay => "template/display/set",
        }
    }
}

} // verus!
