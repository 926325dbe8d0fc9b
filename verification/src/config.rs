use vstd::prelude::*;
use crate::error::Error;

verus! {

/// Byte order in which a sample is laid out in the raw input.
#[derive(Copy, Clone, Eq, PartialEq, Structural, Hash, Debug)]
pub enum Endianness {
    Little,
    Big,
    Native,
}

/// The encodings a sample can have on the output device.
#[derive(Copy, Clone, Eq, PartialEq, Structural, Hash, Debug)]
pub enum SampleFormat {
    I16,
    U16,
    F32,
}

/// One device-advertised output configuration: a fixed channel count and
/// sample format together with an inclusive range of supported sample rates.
#[derive(Copy, Clone, Eq, PartialEq, Structural, Debug)]
pub struct CapabilityRange {
    pub channels: u16,
    pub sample_format: SampleFormat,
    pub min_sample_rate: u32,
    pub max_sample_rate: u32,
}

impl CapabilityRange {
    /// The advertised rate interval is a real interval.
    pub open spec fn wf(self) -> bool {
        self.min_sample_rate <= self.max_sample_rate
    }
}

/// What the user demands of the output stream. A `Some` field is a hard
/// constraint; a `None` field is left to the built-in soft preferences.
#[derive(Copy, Clone, Eq, PartialEq, Debug)]
pub struct StreamRequirement {
    pub channels: Option<u16>,
    pub sample_rate: Option<u32>,
    pub sample_format: Option<(SampleFormat, Endianness)>,
}

impl StreamRequirement {
    /// A requirement with every field left to the soft preferences.
    pub fn unconstrained() -> (r: StreamRequirement)
        ensures
            r.channels is None,
            r.sample_rate is None,
            r.sample_format is None,
    {
        StreamRequirement { channels: None, sample_rate: None, sample_format: None }
    }

    /// The byte order the input should be read with, if one was fixed.
    pub fn endianness(&self) -> (r: Option<Endianness>)
        ensures
            r == (match self.sample_format {
                Some(p) => Some(p.1),
                None => None::<Endianness>,
            }),
    {
        match self.sample_format {
            Some((_, e)) => Some(e),
            None => None,
        }
    }
}

/// The concrete configuration the selector settled on, always drawn from
/// exactly one [`CapabilityRange`] with the rate clamped into its interval.
#[derive(Copy, Clone, Eq, PartialEq, Structural, Debug)]
pub struct SelectedConfig {
    pub channels: u16,
    pub sample_rate: u32,
    pub sample_format: SampleFormat,
}

/// A candidate survives hard filtering when every fixed field of the
/// requirement matches it exactly. A fixed sample rate never eliminates a
/// candidate; it only steers scoring.
pub open spec fn passes_hard(req: StreamRequirement, c: CapabilityRange) -> bool {
    &&& (req.channels matches Some(ch) ==> c.channels == ch)
    &&& (req.sample_format matches Some(p) ==> c.sample_format == p.0)
}

/// The rate scoring aims at: the fixed rate when the requirement has one,
/// otherwise the soft preference.
pub open spec fn spec_target_rate(req: StreamRequirement, preferred_rate: u32) -> u32 {
    match req.sample_rate {
        Some(r) => r,
        None => preferred_rate,
    }
}

/// The channel count scoring aims at.
pub open spec fn spec_target_channels(req: StreamRequirement, preferred_channels: u16) -> u16 {
    match req.channels {
        Some(c) => c,
        None => preferred_channels,
    }
}

/// The sample format scoring aims at.
pub open spec fn spec_target_format(
    req: StreamRequirement,
    preferred_format: SampleFormat,
) -> SampleFormat {
    match req.sample_format {
        Some(p) => p.0,
        None => preferred_format,
    }
}

/// The rate a candidate can actually deliver: the target clamped into the
/// candidate's advertised interval.
pub open spec fn spec_achievable_rate(target: u32, c: CapabilityRange) -> u32 {
    if target < c.min_sample_rate {
        c.min_sample_rate
    } else if target > c.max_sample_rate {
        c.max_sample_rate
    } else {
        target
    }
}

pub open spec fn abs_diff(a: int, b: int) -> int {
    if a >= b {
        a - b
    } else {
        b - a
    }
}

/// How far a candidate lands from the target: rate miss plus channel miss
/// plus one when the format differs. Smaller is better.
pub open spec fn spec_distance(
    req: StreamRequirement,
    c: CapabilityRange,
    preferred_rate: u32,
    preferred_channels: u16,
    preferred_format: SampleFormat,
) -> int {
    abs_diff(
        spec_achievable_rate(spec_target_rate(req, preferred_rate), c) as int,
        spec_target_rate(req, preferred_rate) as int,
    ) + abs_diff(c.channels as int, spec_target_channels(req, preferred_channels) as int) + (
    if c.sample_format == spec_target_format(req, preferred_format) {
        0int
    } else {
        1int
    })
}

/// The configuration drawn from candidate `c` for this requirement.
pub open spec fn spec_selected(
    req: StreamRequirement,
    c: CapabilityRange,
    preferred_rate: u32,
) -> SelectedConfig {
    SelectedConfig {
        channels: c.channels,
        sample_rate: spec_achievable_rate(spec_target_rate(req, preferred_rate), c),
        sample_format: c.sample_format,
    }
}

/// Candidate `i` wins: it survives hard filtering, no survivor scores
/// strictly better, and every earlier survivor scores strictly worse, so on
/// ties the first candidate in device order is the winner.
pub open spec fn is_winner(
    req: StreamRequirement,
    candidates: Seq<CapabilityRange>,
    preferred_rate: u32,
    preferred_channels: u16,
    preferred_format: SampleFormat,
    i: int,
) -> bool {
    &&& 0 <= i < candidates.len()
    &&& passes_hard(req, candidates[i])
    &&& forall|j: int|
        0 <= j < candidates.len() && passes_hard(req, candidates[j]) ==> spec_distance(
            req,
            candidates[j],
            preferred_rate,
            preferred_channels,
            preferred_format,
        ) >= spec_distance(req, candidates[i], preferred_rate, preferred_channels, preferred_format)
    &&& forall|j: int|
        0 <= j < i && passes_hard(req, candidates[j]) ==> spec_distance(
            req,
            candidates[j],
            preferred_rate,
            preferred_channels,
            preferred_format,
        ) > spec_distance(req, candidates[i], preferred_rate, preferred_channels, preferred_format)
}

/// The failure value `select` reports: it names exactly the constraints the
/// requirement had fixed.
pub open spec fn spec_no_suitable(req: StreamRequirement) -> Error {
    Error::NoSuitableStreamConfig {
        required_format: match req.sample_format {
            Some(p) => Some(p.0),
            None => None,
        },
        required_sample_rate: req.sample_rate,
        required_channels: req.channels,
    }
}

/// The selection is deterministic: two winning candidates are the same one.
pub proof fn lemma_winner_unique(
    req: StreamRequirement,
    candidates: Seq<CapabilityRange>,
    preferred_rate: u32,
    preferred_channels: u16,
    preferred_format: SampleFormat,
    i: int,
    j: int,
)
    requires
        is_winner(req, candidates, preferred_rate, preferred_channels, preferred_format, i),
        is_winner(req, candidates, preferred_rate, preferred_channels, preferred_format, j),
    ensures
        i == j,
{
    if i < j {
        assert(spec_distance(req, candidates[i], preferred_rate, preferred_channels,
            preferred_format) > spec_distance(req, candidates[j], preferred_rate,
            preferred_channels, preferred_format));
    }
    if j < i {
        assert(spec_distance(req, candidates[j], preferred_rate, preferred_channels,
            preferred_format) > spec_distance(req, candidates[i], preferred_rate,
            preferred_channels, preferred_format));
    }
}

/// If exactly one candidate survives hard filtering, it is the winner,
/// whatever distance it scores, and no other candidate can be.
pub proof fn lemma_single_survivor_wins(
    req: StreamRequirement,
    candidates: Seq<CapabilityRange>,
    preferred_rate: u32,
    preferred_channels: u16,
    preferred_format: SampleFormat,
    i: int,
)
    requires
        0 <= i < candidates.len(),
        passes_hard(req, candidates[i]),
        forall|j: int|
            0 <= j < candidates.len() && j != i ==> !passes_hard(req, candidates[j]),
    ensures
        is_winner(req, candidates, preferred_rate, preferred_channels, preferred_format, i),
        forall|k: int|
            is_winner(req, candidates, preferred_rate, preferred_channels, preferred_format, k)
                ==> k == i,
{
}

/// Ties go to device order: of two surviving candidates with the same
/// distance, the later one is never the winner.
pub proof fn lemma_tie_prefers_earlier(
    req: StreamRequirement,
    candidates: Seq<CapabilityRange>,
    preferred_rate: u32,
    preferred_channels: u16,
    preferred_format: SampleFormat,
    i: int,
    j: int,
    k: int,
)
    requires
        0 <= i < j < candidates.len(),
        passes_hard(req, candidates[i]),
        passes_hard(req, candidates[j]),
        spec_distance(req, candidates[i], preferred_rate, preferred_channels, preferred_format)
            == spec_distance(req, candidates[j], preferred_rate, preferred_channels,
            preferred_format),
        is_winner(req, candidates, preferred_rate, preferred_channels, preferred_format, k),
    ensures
        k != j,
{
}

/// Picks the best output configuration among the device's advertised
/// capability ranges, in their original enumeration order.
///
/// Hard-fixed channel count and sample format eliminate candidates; the
/// sample rate only steers scoring and is clamped into the winning range.
/// Among the survivors the strictly smallest distance wins and ties go to
/// the earliest candidate. With no survivors the call fails, naming the
/// constraints that were fixed.
pub fn select(
    req: &StreamRequirement,
    candidates: &Vec<CapabilityRange>,
    preferred_rate: u32,
    preferred_channels: u16,
    preferred_format: SampleFormat,
) -> (r: Result<SelectedConfig, Error>)
    requires
        forall|i: int| 0 <= i < candidates@.len() ==> candidates@[i].wf(),
    ensures
        (r is Ok) <==> (exists|i: int|
            0 <= i < candidates@.len() && passes_hard(*req, candidates@[i])),
        r matches Ok(sc) ==> exists|i: int|
            is_winner(*req, candidates@, preferred_rate, preferred_channels, preferred_format, i)
                && sc == spec_selected(*req, candidates@[i], preferred_rate)
                && candidates@[i].min_sample_rate <= sc.sample_rate
                <= candidates@[i].max_sample_rate,
        r matches Ok(sc) ==> {
            &&& (req.channels matches Some(ch) ==> sc.channels == ch)
            &&& (req.sample_format matches Some(p) ==> sc.sample_format == p.0)
        },
        r matches Err(e) ==> e == spec_no_suitable(*req),
{
    let target_rate: u32 = match req.sample_rate {
        Some(r) => r,
        None => preferred_rate,
    };
    let target_channels: u16 = match req.channels {
        Some(c) => c,
        None => preferred_channels,
    };
    let target_format: SampleFormat = match req.sample_format {
        Some((f, _)) => f,
        None => preferred_format,
    };

    let mut best: Option<(u64, SelectedConfig)> = None;
    let ghost mut best_idx: int = 0;

    let mut i: usize = 0;
    while i < candidates.len()
        invariant
            0 <= i <= candidates@.len(),
            forall|k: int| 0 <= k < candidates@.len() ==> candidates@[k].wf(),
            target_rate == spec_target_rate(*req, preferred_rate),
            target_channels == spec_target_channels(*req, preferred_channels),
            target_format == spec_target_format(*req, preferred_format),
            best is None ==> forall|j: int| 0 <= j < i ==> !passes_hard(*req, candidates@[j]),
            best matches Some(b) ==> {
                &&& 0 <= best_idx < i as int
                &&& passes_hard(*req, candidates@[best_idx])
                &&& b.0 as int == spec_distance(
                    *req,
                    candidates@[best_idx],
                    preferred_rate,
                    preferred_channels,
                    preferred_format,
                )
                &&& b.1 == spec_selected(*req, candidates@[best_idx], preferred_rate)
                &&& forall|j: int|
                    0 <= j < i as int && passes_hard(*req, candidates@[j]) ==> spec_distance(
                        *req,
                        candidates@[j],
                        preferred_rate,
                        preferred_channels,
                        preferred_format,
                    ) >= b.0 as int
                &&& forall|j: int|
                    0 <= j < best_idx && passes_hard(*req, candidates@[j]) ==> spec_distance(
                        *req,
                        candidates@[j],
                        preferred_rate,
                        preferred_channels,
                        preferred_format,
                    ) > b.0 as int
            },
        decreases candidates@.len() - i,
    {
        let c = candidates[i];

        let channels_ok = match req.channels {
            Some(ch) => c.channels == ch,
            None => true,
        };
        let format_ok = match req.sample_format {
            Some((f, _)) => c.sample_format == f,
            None => true,
        };

        if channels_ok && format_ok {
            let achievable: u32 = if target_rate < c.min_sample_rate {
                c.min_sample_rate
            } else if target_rate > c.max_sample_rate {
                c.max_sample_rate
            } else {
                target_rate
            };
            let rate_diff: u64 = if achievable >= target_rate {
                (achievable - target_rate) as u64
            } else {
                (target_rate - achievable) as u64
            };
            let channel_diff: u64 = if c.channels >= target_channels {
                (c.channels - target_channels) as u64
            } else {
                (target_channels - c.channels) as u64
            };
            let format_diff: u64 = if c.sample_format == target_format {
                0
            } else {
                1
            };
            let dist: u64 = rate_diff + channel_diff + format_diff;
            assert(dist as int == spec_distance(
                *req,
                c,
                preferred_rate,
                preferred_channels,
                preferred_format,
            ));

            let candidate_config = SelectedConfig {
                channels: c.channels,
                sample_rate: achievable,
                sample_format: c.sample_format,
            };

            let replace = match best {
                None => true,
                Some((best_dist, _)) => dist < best_dist,
            };
            if replace {
                best = Some((dist, candidate_config));
                proof {
                    best_idx = i as int;
                }
            }
        }

        i = i + 1;
    }

    match best {
        Some((_, config)) => {
            assert(is_winner(
                *req,
                candidates@,
                preferred_rate,
                preferred_channels,
                preferred_format,
                best_idx,
            ));
            Ok(config)
        },
        None => Err(
            Error::NoSuitableStreamConfig {
                required_format: match req.sample_format {
                    Some((f, _)) => Some(f),
                    None => None,
                },
                required_sample_rate: req.sample_rate,
                required_channels: req.channels,
            },
        ),
    }
}

} // verus!
