use vstd::prelude::*;
use crate::config::CapabilityRange;
use crate::config::Endianness;
use crate::config::SampleFormat;
use crate::config::SelectedConfig;
use crate::config::StreamRequirement;
use crate::config::is_winner;
use crate::config::passes_hard;
use crate::config::select;
use crate::config::spec_no_suitable;
use crate::config::spec_selected;
use crate::error::Error;

verus! {

/// When no sample rate is fixed, selection aims for the supported rate
/// closest to this one.
pub const PREFERRED_SAMPLE_RATE: u32 = 48000;

/// When no channel count is fixed, selection aims for the supported count
/// closest to this one.
pub const PREFERRED_CHANNELS: u16 = 2;

/// When no sample format is fixed, selection prefers this one.
pub const PREFERRED_SAMPLE_FORMAT: SampleFormat = SampleFormat::I16;

/// When no byte order is fixed, the input is read with this one.
pub const PREFERRED_SAMPLE_ENDIAN: Endianness = Endianness::Little;

/// What one attempt to fill a callback chunk learned from the byte source.
#[derive(PartialEq, Eq, Debug)]
pub enum SourceRead {
    /// The bytes the source yielded, at most the requested chunk size; fewer
    /// than requested means the source is exhausted.
    Bytes(Vec<u8>),
    /// The source failed with an error other than end-of-stream.
    Failed,
}

/// What the callback tells the controlling thread after filling a chunk.
#[derive(Copy, Clone, PartialEq, Eq, Structural, Debug)]
pub enum DriverSignal {
    /// The chunk was filled completely; playback goes on.
    Playing,
    /// The source is exhausted; the rest of the chunk was padded with
    /// silence and the controlling thread should stop the stream.
    Exhausted,
    /// The source failed; the chunk is silence and the controlling thread
    /// must stop the stream and report the failure.
    Fatal,
}

/// Picks the concrete output configuration for a requirement using the
/// built-in soft preferences, as playback start does. Failure means no
/// advertised capability range satisfied the hard constraints; it names the
/// constraints that were fixed, and playback never starts.
pub fn negotiate(req: &StreamRequirement, candidates: &Vec<CapabilityRange>) -> (r: Result<
    SelectedConfig,
    Error,
>)
    requires
        forall|i: int| 0 <= i < candidates@.len() ==> candidates@[i].wf(),
    ensures
        (r is Ok) <==> (exists|i: int|
            0 <= i < candidates@.len() && passes_hard(*req, candidates@[i])),
        r matches Ok(sc) ==> exists|i: int|
            is_winner(
                *req,
                candidates@,
                PREFERRED_SAMPLE_RATE,
                PREFERRED_CHANNELS,
                PREFERRED_SAMPLE_FORMAT,
                i,
            ) && sc == spec_selected(*req, candidates@[i], PREFERRED_SAMPLE_RATE),
        r matches Err(e) ==> e == spec_no_suitable(*req),
{
    select(req, candidates, PREFERRED_SAMPLE_RATE, PREFERRED_CHANNELS, PREFERRED_SAMPLE_FORMAT)
}

/// The byte order playback actually uses: the fixed one when the
/// requirement has one, otherwise the built-in preference.
pub fn effective_endianness(req: &StreamRequirement) -> (r: Endianness)
    ensures
        r == (match req.sample_format {
            Some(p) => p.1,
            None => PREFERRED_SAMPLE_ENDIAN,
        }),
{
    match req.sample_format {
        Some((_, e)) => e,
        None => PREFERRED_SAMPLE_ENDIAN,
    }
}

/// Builds the bytes one audio-callback invocation hands to the device, from
/// what the byte source yielded for a chunk of `want` bytes.
///
/// A complete read plays as is. A short read means the source is exhausted:
/// the remainder of the chunk is padded with silence (zero bytes) and the
/// controlling thread is signalled to stop. A failed read yields a chunk of
/// silence and the fatal signal.
pub fn fill_chunk(want: usize, read: SourceRead) -> (r: (Vec<u8>, DriverSignal))
    requires
        read matches SourceRead::Bytes(b) ==> b@.len() <= want,
    ensures
        r.0@.len() == want,
        match read {
            SourceRead::Bytes(b) => {
                &&& r.0@ == b@ + Seq::new((want - b@.len()) as nat, |k: int| 0u8)
                &&& r.1 == (if b@.len() == want {
                    DriverSignal::Playing
                } else {
                    DriverSignal::Exhausted
                })
            },
            SourceRead::Failed => {
                &&& r.0@ == Seq::new(want as nat, |k: int| 0u8)
                &&& r.1 == DriverSignal::Fatal
            },
        },
{
    match read {
        SourceRead::Bytes(b) => {
            let ghost orig = b@;
            let got: usize = b.len();
            let mut out: Vec<u8> = b;
            proof {
                assert(out@ =~= orig + Seq::new(0nat, |k: int| 0u8));
            }
            while out.len() < want
                invariant
                    got == orig.len(),
                    got <= want,
                    got <= out@.len() <= want,
                    out@ == orig + Seq::new((out@.len() - got) as nat, |k: int| 0u8),
                decreases want - out@.len(),
            {
                out.push(0u8);
                proof {
                    assert(out@ =~= orig + Seq::new((out@.len() - got) as nat, |k: int| 0u8));
                }
            }
            let signal = if got == want {
                DriverSignal::Playing
            } else {
                DriverSignal::Exhausted
            };
            (out, signal)
        },
        SourceRead::Failed => {
            let mut out: Vec<u8> = Vec::new();
            while out.len() < want
                invariant
                    out@.len() <= want,
                    out@ == Seq::new(out@.len(), |k: int| 0u8),
                decreases want - out@.len(),
            {
                out.push(0u8);
                proof {
                    assert(out@ =~= Seq::new(out@.len(), |k: int| 0u8));
                }
            }
            proof {
                assert(out@ =~= Seq::new(want as nat, |k: int| 0u8));
            }
            (out, DriverSignal::Fatal)
        },
    }
}

} // verus!
