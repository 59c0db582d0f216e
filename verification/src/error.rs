//! What can go wrong while a preset is resolved, applied or stored.

use vstd::prelude::*;
use vstd::string::*;

verus! {

#[derive(Debug, Clone, Copy, PartialEq, Eq, Structural)]
pub enum ThisError {
    /// The display subsystem refused a change; the payload is its status.
    DispChange(i32),
    /// The current settings of a monitor could not be read.
    EnumDisplaySettings,
    /// A preset names a monitor that is not attached.
    MonitorNotFound,
    /// A textual keybind names no key, or a key that does not exist.
    KeybindParsingFailed,
    /// A handle names no record of the preset store, or a deleted one.
    PresetNotFound,
    /// The preset store, or another file, could not be written.
    Persistence,
    /// The console could not be switched to raw input, or not be read.
    Input,
    /// The background process could not be started.
    ProcessSpawn,
}

impl ThisError {
    /// The sentence shown to the user for this failure.
    pub open spec fn message(self) -> Seq<char> {
        match self {
            ThisError::DispChange(_) => "Failed to change display settings"@,
            ThisError::EnumDisplaySettings => "Failed to fetch display settings"@,
            ThisError::MonitorNotFound => "Monitor not found for preset"@,
            ThisError::KeybindParsingFailed => "Failed to parse keybind"@,
            ThisError::PresetNotFound => "Preset not found"@,
            ThisError::Persistence => "Failed to save changes"@,
            ThisError::Input => "Failed to read keyboard input"@,
            ThisError::ProcessSpawn => "Failed to start the background process"@,
        }
    }

    pub fn to_string(&self) -> (text: String)
        ensures
            text@ == self.message(),
    {
        match self {
            ThisError::DispChange(_) => String::from_str("Failed to change display settings"),
            ThisError::EnumDisplaySettings => String::from_str("Failed to fetch display settings"),
            ThisError::MonitorNotFound => String::from_str("Monitor not found for preset"),
            ThisError::KeybindParsingFailed => String::from_str("Failed to parse keybind"),
            ThisError::PresetNotFound => String::from_str("Preset not found"),
            ThisError::Persistence => String::from_str("Failed to save changes"),
            ThisError::Input => String::from_str("Failed to read keyboard input"),
            ThisError::ProcessSpawn => String::from_str("Failed to start the background process"),
        }
    }
}

} // verus!
