//! Command line and request limits of the offline renderer.
use vstd::prelude::*;

verus! {

/// Largest request file accepted, in bytes.
pub const MAX_REQUEST_BYTES: u64 = 65_536;

/// What the renderer was asked to do.
#[derive(Debug, Clone, PartialEq, Eq)]
pub enum Command {
    /// Print the control description.
    Describe,
    /// Print the usage text.
    Help,
    /// Render the request file to the WAV file.
    Render { request: String, output: String },
}

pub open spec fn usage_error() -> Seq<char> {
    "usage: plasma-render --describe | plasma-render REQUEST.json OUTPUT.wav"@
}

/// Reads the arguments after the program name.
pub fn parse_args(args: &Vec<String>) -> (r: Result<Command, String>)
    ensures
        args.len() == 0 ==> (r matches Err(e) && e@ == usage_error()),
        args.len() > 0 && args[0]@ == "--describe"@ ==> (if args.len() == 1 {
            r == Ok::<Command, String>(Command::Describe)
        } else {
            r matches Err(e) && e@ == "--describe takes no additional arguments"@
        }),
        args.len() > 0 && args[0]@ != "--describe"@ && (args[0]@ == "--help"@ || args[0]@
            == "-h"@) ==> r == Ok::<Command, String>(Command::Help),
        args.len() > 0 && args[0]@ != "--describe"@ && args[0]@ != "--help"@ && args[0]@ != "-h"@
            ==> (if args.len() == 1 {
            r matches Err(e) && e@ == "missing OUTPUT.wav; usage: plasma-render REQUEST.json OUTPUT.wav"@
        } else if args.len() > 2 {
            r matches Err(e) && e@ == "too many arguments; usage: plasma-render REQUEST.json OUTPUT.wav"@
        } else {
            r matches Ok(Command::Render { request, output }) && request@ == args[0]@ && output@
                == args[1]@
        }),
{
    if args.len() == 0 {
        return Err(
            String::from_str("usage: plasma-render --describe | plasma-render REQUEST.json OUTPUT.wav"),
        );
    }
    let first = &args[0];
    if first.eq(&String::from_str("--describe")) {
        if args.len() > 1 {
            return Err(String::from_str("--describe takes no additional arguments"));
        }
        return Ok(Command::Describe);
    }
    if first.eq(&String::from_str("--help")) || first.eq(&String::from_str("-h")) {
        return Ok(Command::Help);
    }
    if args.len() == 1 {
        return Err(
            String::from_str("missing OUTPUT.wav; usage: plasma-render REQUEST.json OUTPUT.wav"),
        );
    }
    if args.len() > 2 {
        return Err(
            String::from_str("too many arguments; usage: plasma-render REQUEST.json OUTPUT.wav"),
        );
    }
    Ok(Command::Render { request: first.clone(), output: args[1].clone() })
}

/// A request file larger than MAX_REQUEST_BYTES is refused.
pub fn check_request_size(bytes: u64) -> (r: Result<(), String>)
    ensures
        bytes <= MAX_REQUEST_BYTES ==> r is Ok,
        bytes > MAX_REQUEST_BYTES ==> (r matches Err(e) && e@ == "request exceeds 65536 bytes"@),
{
    if bytes > MAX_REQUEST_BYTES {
        Err(String::from_str("request exceeds 65536 bytes"))
    } else {
        Ok(())
    }
}

/// The render sample rate must be an integer in [8000, 192000] Hz.
pub fn check_render_rate(sample_rate: u32) -> (r: Result<(), String>)
    ensures
        8_000 <= sample_rate <= 192_000 ==> r is Ok,
        !(8_000 <= sample_rate <= 192_000) ==> (r matches Err(e) && e@
            == "sample_rate must be an integer in [8000, 192000] Hz"@),
{
    if sample_rate < 8_000 || sample_rate > 192_000 {
        Err(String::from_str("sample_rate must be an integer in [8000, 192000] Hz"))
    } else {
        Ok(())
    }
}

/// The request velocity must be a MIDI velocity.
pub fn check_velocity(velocity: u8) -> (r: Result<(), String>)
    ensures
        velocity <= 127 ==> r is Ok,
        velocity > 127 ==> (r matches Err(e) && e@ == "velocity must be an integer in 0..=127"@),
{
    if velocity > 127 {
        Err(String::from_str("velocity must be an integer in 0..=127"))
    } else {
        Ok(())
    }
}

} // verus!
