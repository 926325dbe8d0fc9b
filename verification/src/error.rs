use vstd::prelude::*;
use crate::config::SampleFormat;

verus! {

/// Why a decimal argument string could not be read as an integer.
#[derive(Clone, Copy, PartialEq, Eq, Structural, Debug)]
pub enum IntParseError {
    /// The string held no characters at all.
    Empty,
    /// Some character of the string was not an ASCII decimal digit.
    InvalidDigit,
    /// The string was all digits but its value does not fit the target type.
    Overflow,
}

/// Everything that can go wrong while setting up playback.
///
/// Argument text travels as raw bytes (`Vec<u8>`); the unverified shell turns
/// it back into printable text when it reports the error. Failures raised by
/// the audio subsystem itself carry no payload here: the shell that talks to
/// that subsystem keeps the underlying error value alongside.
#[derive(Debug, PartialEq, Eq)]
pub enum Error {
    /// The host argument was not a readable index.
    MalformedHost { what: IntParseError, value: Vec<u8> },
    /// The host index named no available host.
    NoSuchHost { name: usize },
    /// The host exists but could not be initialised.
    HostUnavailable { name: usize },
    /// The chosen host offers no audio output device.
    NoOutputDevice { host_pick: Option<(usize, String)> },
    /// Device enumeration failed in the audio subsystem.
    DevicesError,
    /// The channel-count argument was not a readable number.
    MalformedChannels(IntParseError),
    /// The sample-rate argument was not a readable number.
    MalformedSampleRate(IntParseError),
    /// The sample-format argument named no known format.
    MalformedSampleFormat { got: Vec<u8> },
    /// Querying the device's supported configurations failed.
    SupportedStreamConfigsError,
    /// No advertised configuration satisfied the hard constraints; the fields
    /// say which constraints the requirement had fixed.
    NoSuitableStreamConfig {
        required_format: Option<SampleFormat>,
        required_sample_rate: Option<u32>,
        required_channels: Option<u16>,
    },
}

} // verus!
