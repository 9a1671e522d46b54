//! Recoverable control, queue and device failures of the control API.
use vstd::prelude::*;
use crate::kernel::error::Error as KernelError;

verus! {

/// Recoverable control, queue and device failures. Libraries return these;
/// programs print or display them.
#[derive(Debug, Clone, PartialEq, Eq)]
pub enum Error {
    Kernel(KernelError),
    LockPoisoned,
    InvalidOscillator,
    InvalidGlobal,
    InvalidRoute,
    InvalidMidi,
    QueueFull,
    ConsumerBusy,
    NoOutputDevice,
    InvalidDeviceFormat,
    UnsupportedSampleFormat(String),
    DeviceConfig(String),
    DeviceName(String),
    StreamCreate(String),
    StreamStart(String),
    StreamFailed,
}

impl Error {
    /// The human-readable text of each failure.
    pub open spec fn spec_message(&self) -> Seq<char> {
        match self {
            Error::Kernel(error) => error.spec_message(),
            Error::LockPoisoned => "Synth control lock was poisoned"@,
            Error::InvalidOscillator => "Invalid oscillator index"@,
            Error::InvalidGlobal => "Invalid global index"@,
            Error::InvalidRoute => "Invalid modulation source or target"@,
            Error::InvalidMidi => "MIDI note and velocity must be between 0 and 127"@,
            Error::QueueFull => "Note queue is full; all notes will be released at the next audio buffer"@,
            Error::ConsumerBusy => "This Synth already has an audio consumer"@,
            Error::NoOutputDevice => "No default audio output device is available"@,
            Error::InvalidDeviceFormat => "Audio device returned an invalid channel count or sample rate"@,
            Error::UnsupportedSampleFormat(format) => "Unsupported default audio sample format: "@
                + format@ + "; expected f32, i16, or u16"@,
            Error::DeviceConfig(error) => "Cannot read default audio configuration: "@ + error@,
            Error::DeviceName(error) => "Cannot read audio device name: "@ + error@,
            Error::StreamCreate(error) => "Cannot create audio output stream: "@ + error@,
            Error::StreamStart(error) => "Cannot start audio output: "@ + error@,
            Error::StreamFailed => "Audio output stream failed. Check the output device and restart Plasma."@,
        }
    }

    pub fn message(&self) -> (text: String)
        ensures
            text@ == self.spec_message(),
    {
        match self {
            Error::Kernel(error) => error.message(),
            Error::LockPoisoned => String::from_str("Synth control lock was poisoned"),
            Error::InvalidOscillator => String::from_str("Invalid oscillator index"),
            Error::InvalidGlobal => String::from_str("Invalid global index"),
            Error::InvalidRoute => String::from_str("Invalid modulation source or target"),
            Error::InvalidMidi => String::from_str("MIDI note and velocity must be between 0 and 127"),
            Error::QueueFull => String::from_str(
                "Note queue is full; all notes will be released at the next audio buffer",
            ),
            Error::ConsumerBusy => String::from_str("This Synth already has an audio consumer"),
            Error::NoOutputDevice => String::from_str("No default audio output device is available"),
            Error::InvalidDeviceFormat => String::from_str(
                "Audio device returned an invalid channel count or sample rate",
            ),
            Error::UnsupportedSampleFormat(format) => {
                let mut text = String::from_str("Unsupported default audio sample format: ");
                text.append(format.as_str());
                text.append("; expected f32, i16, or u16");
                text
            },
            Error::DeviceConfig(error) => {
                let mut text = String::from_str("Cannot read default audio configuration: ");
                text.append(error.as_str());
                text
            },
            Error::DeviceName(error) => {
                let mut text = String::from_str("Cannot read audio device name: ");
                text.append(error.as_str());
                text
            },
            Error::StreamCreate(error) => {
                let mut text = String::from_str("Cannot create audio output stream: ");
                text.append(error.as_str());
                text
            },
            Error::StreamStart(error) => {
                let mut text = String::from_str("Cannot start audio output: ");
                text.append(error.as_str());
                text
            },
            Error::StreamFailed => String::from_str(
                "Audio output stream failed. Check the output device and restart Plasma.",
            ),
        }
    }

    /// The kernel failure underneath, if any.
    pub fn source(&self) -> (r: Option<KernelError>)
        ensures
            r == (match self {
                Error::Kernel(error) => Some(*error),
                _ => None,
            }),
    {
        match self {
            Error::Kernel(error) => Some(*error),
            _ => None,
        }
    }
}

impl From<KernelError> for Error {
    fn from(error: KernelError) -> (r: Self) {
        Error::Kernel(error)
    }
}

impl vstd::std_specs::convert::FromSpecImpl<KernelError> for Error {
    open spec fn obeys_from_spec() -> bool {
        true
    }

    open spec fn from_spec(error: KernelError) -> Error {
        Error::Kernel(error)
    }
}

} // verus!
