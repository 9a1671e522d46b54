use vstd::prelude::*;

verus! {

/// Failures reported by the synthesis kernel.
#[derive(Clone, Copy, Debug, PartialEq, Eq)]
pub enum Error {
    InvalidSampleRate,
    InvalidFrequency,
    InvalidOscillatorIndex,
    InvalidParameter(&'static str),
}

impl Error {
    /// The human-readable text of each failure.
    pub open spec fn spec_message(self) -> Seq<char> {
        match self {
            Error::InvalidSampleRate => "sample rate must be finite and positive"@,
            Error::InvalidFrequency => "frequency must be finite and nonnegative"@,
            Error::InvalidOscillatorIndex => "oscillator index must be in 0..3"@,
            Error::InvalidParameter(name) => "invalid oscillator parameter: "@ + name@,
        }
    }

    pub fn message(&self) -> (text: String)
        ensures
            text@ == self.spec_message(),
    {
        match self {
            Error::InvalidSampleRate => String::from_str("sample rate must be finite and positive"),
            Error::InvalidFrequency => String::from_str("frequency must be finite and nonnegative"),
            Error::InvalidOscillatorIndex => String::from_str("oscillator index must be in 0..3"),
            Error::InvalidParameter(name) => {
                let mut text = String::from_str("invalid oscillator parameter: ");
                text.append(name);
                text
            },
        }
    }
}

} // verus!
