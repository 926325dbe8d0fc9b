use vstd::prelude::*;
use crate::config::Endianness;
use crate::config::SampleFormat;
use crate::error::Error;
use crate::error::IntParseError;

verus! {

/// ASCII `'0'` through `'9'`.
pub open spec fn is_ascii_digit(b: u8) -> bool {
    48 <= b <= 57
}

pub open spec fn all_digits(s: Seq<u8>) -> bool {
    forall|i: int| 0 <= i < s.len() ==> is_ascii_digit(s[i])
}

/// The number a string of decimal digits denotes, most significant first.
pub open spec fn digits_value(s: Seq<u8>) -> int
    decreases s.len(),
{
    if s.len() == 0 {
        0
    } else {
        10 * digits_value(s.drop_last()) + (s.last() - 48)
    }
}

proof fn lemma_digits_value_nonneg(s: Seq<u8>)
    requires
        all_digits(s),
    ensures
        digits_value(s) >= 0,
    decreases s.len(),
{
    if s.len() > 0 {
        assert(all_digits(s.drop_last()));
        lemma_digits_value_nonneg(s.drop_last());
    }
}

/// A longer digit string never denotes a smaller number, so overflow seen on
/// a prefix settles overflow of the whole string.
proof fn lemma_digits_value_prefix_le(s: Seq<u8>, i: int)
    requires
        all_digits(s),
        0 <= i <= s.len(),
    ensures
        digits_value(s.take(i)) <= digits_value(s),
    decreases s.len() - i,
{
    if i == s.len() {
        assert(s.take(i) =~= s);
    } else {
        assert(s.take(i + 1).drop_last() =~= s.take(i));
        assert(all_digits(s.take(i + 1)));
        lemma_digits_value_nonneg(s.take(i));
        assert(digits_value(s.take(i)) <= digits_value(s.take(i + 1)));
        lemma_digits_value_prefix_le(s, i + 1);
    }
}

/// Reads an unsigned decimal number, every byte a digit. The first
/// applicable failure wins: an empty string, then any non-digit byte, then a
/// value too large for the type.
pub fn parse_u64_dec(s: &Vec<u8>) -> (r: Result<u64, IntParseError>)
    ensures
        match r {
            Ok(n) => s@.len() > 0 && all_digits(s@) && n == digits_value(s@),
            Err(IntParseError::Empty) => s@.len() == 0,
            Err(IntParseError::InvalidDigit) => s@.len() > 0 && !all_digits(s@),
            Err(IntParseError::Overflow) => s@.len() > 0 && all_digits(s@) && digits_value(s@)
                > u64::MAX,
        },
{
    if s.len() == 0 {
        return Err(IntParseError::Empty);
    }
    let mut i: usize = 0;
    while i < s.len()
        invariant
            0 <= i <= s@.len(),
            forall|j: int| 0 <= j < i ==> is_ascii_digit(s@[j]),
        decreases s@.len() - i,
    {
        let b: u8 = s[i];
        if b < 48 || b > 57 {
            return Err(IntParseError::InvalidDigit);
        }
        i = i + 1;
    }
    let mut acc: u64 = 0;
    let mut k: usize = 0;
    proof {
        assert(s@.take(0) =~= Seq::<u8>::empty());
    }
    while k < s.len()
        invariant
            0 <= k <= s@.len(),
            all_digits(s@),
            acc == digits_value(s@.take(k as int)),
        decreases s@.len() - k,
    {
        let d: u64 = (s[k] - 48) as u64;
        proof {
            assert(s@.take(k + 1).drop_last() =~= s@.take(k as int));
            assert(digits_value(s@.take(k + 1)) == 10 * (acc as int) + d);
        }
        if acc > (u64::MAX - d) / 10 {
            proof {
                lemma_digits_value_nonneg(s@.take(k as int));
                assert(10 * (acc as int) + d > u64::MAX) by (nonlinear_arith)
                    requires
                        acc > (u64::MAX - d) / 10,
                        0 <= d <= 9,
                ;
                lemma_digits_value_prefix_le(s@, k + 1);
            }
            return Err(IntParseError::Overflow);
        }
        proof {
            assert(10 * (acc as int) + d <= u64::MAX) by (nonlinear_arith)
                requires
                    acc <= (u64::MAX - d) / 10,
                    0 <= d <= 9,
            ;
        }
        acc = acc * 10 + d;
        k = k + 1;
    }
    proof {
        assert(s@.take(s@.len() as int) =~= s@);
    }
    Ok(acc)
}

/// Reads a decimal channel count as the channel-count argument demands:
/// digits only, fitting a `u16`. Failure is reported as the malformed
/// channel-count error.
pub fn parse_channels(s: &Vec<u8>) -> (r: Result<u16, Error>)
    ensures
        match r {
            Ok(n) => s@.len() > 0 && all_digits(s@) && n == digits_value(s@),
            Err(e) => {
                &&& (e matches Error::MalformedChannels(w) ==> (match w {
                    IntParseError::Empty => s@.len() == 0,
                    IntParseError::InvalidDigit => s@.len() > 0 && !all_digits(s@),
                    IntParseError::Overflow => s@.len() > 0 && all_digits(s@) && digits_value(s@)
                        > u16::MAX,
                }))
                &&& (e matches Error::MalformedChannels(w))
            },
        },
        (r is Ok) <==> (s@.len() > 0 && all_digits(s@) && digits_value(s@) <= u16::MAX),
{
    match parse_u64_dec(s) {
        Ok(n) => {
            if n <= u16::MAX as u64 {
                Ok(n as u16)
            } else {
                Err(Error::MalformedChannels(IntParseError::Overflow))
            }
        },
        Err(e) => Err(Error::MalformedChannels(e)),
    }
}

/// Reads a decimal sample rate as the sample-rate argument demands: digits
/// only, fitting a `u32`. Failure is reported as the malformed sample-rate
/// error.
pub fn parse_sample_rate(s: &Vec<u8>) -> (r: Result<u32, Error>)
    ensures
        match r {
            Ok(n) => s@.len() > 0 && all_digits(s@) && n == digits_value(s@),
            Err(e) => {
                &&& (e matches Error::MalformedSampleRate(w) ==> (match w {
                    IntParseError::Empty => s@.len() == 0,
                    IntParseError::InvalidDigit => s@.len() > 0 && !all_digits(s@),
                    IntParseError::Overflow => s@.len() > 0 && all_digits(s@) && digits_value(s@)
                        > u32::MAX,
                }))
                &&& (e matches Error::MalformedSampleRate(w))
            },
        },
        (r is Ok) <==> (s@.len() > 0 && all_digits(s@) && digits_value(s@) <= u32::MAX),
{
    match parse_u64_dec(s) {
        Ok(n) => {
            if n <= u32::MAX as u64 {
                Ok(n as u32)
            } else {
                Err(Error::MalformedSampleRate(IntParseError::Overflow))
            }
        },
        Err(e) => Err(Error::MalformedSampleRate(e)),
    }
}

/// Reads the decimal index that names an audio host. Failure is reported as
/// the malformed-host error, carrying the offending text.
pub fn parse_host_index(s: Vec<u8>) -> (r: Result<usize, Error>)
    ensures
        match r {
            Ok(n) => s@.len() > 0 && all_digits(s@) && n == digits_value(s@),
            Err(e) => {
                &&& (e matches (Error::MalformedHost { what, value }) ==> value@ == s@ && (
                match what {
                    IntParseError::Empty => s@.len() == 0,
                    IntParseError::InvalidDigit => s@.len() > 0 && !all_digits(s@),
                    IntParseError::Overflow => s@.len() > 0 && all_digits(s@) && digits_value(s@)
                        > usize::MAX,
                }))
                &&& (e matches (Error::MalformedHost { what, value }))
            },
        },
        (r is Ok) <==> (s@.len() > 0 && all_digits(s@) && digits_value(s@) <= usize::MAX),
{
    match parse_u64_dec(&s) {
        Ok(n) => {
            if n <= usize::MAX as u64 {
                Ok(n as usize)
            } else {
                Err(Error::MalformedHost { what: IntParseError::Overflow, value: s })
            }
        },
        Err(e) => Err(Error::MalformedHost { what: e, value: s }),
    }
}

/// ASCII upper case folded to lower case; every other byte unchanged.
pub open spec fn to_lower_byte(b: u8) -> u8 {
    if 65 <= b <= 90 {
        (b + 32) as u8
    } else {
        b
    }
}

pub open spec fn to_lower(s: Seq<u8>) -> Seq<u8> {
    s.map_values(|b: u8| to_lower_byte(b))
}

/// The sample format a three- or five-byte name denotes, on the ASCII
/// lower-cased text: `f32`, `s16` or `u16`, read from the first three bytes.
pub open spec fn spec_format_of(l: Seq<u8>) -> Option<SampleFormat> {
    if l.len() != 3 && l.len() != 5 {
        None
    } else if l[0] == 102 && l[1] == 51 && l[2] == 50 {  // "f32"
        Some(SampleFormat::F32)
    } else if l[0] == 115 && l[1] == 49 && l[2] == 54 {  // "s16"
        Some(SampleFormat::I16)
    } else if l[0] == 117 && l[1] == 49 && l[2] == 54 {  // "u16"
        Some(SampleFormat::U16)
    } else {
        None
    }
}

/// The byte order a format name's suffix denotes: none for native order,
/// `le` or `be` for an explicit one.
pub open spec fn spec_endianness_of(l: Seq<u8>) -> Option<Endianness> {
    if l.len() == 3 {
        Some(Endianness::Native)
    } else if l.len() == 5 && l[3] == 108 && l[4] == 101 {  // "le"
        Some(Endianness::Little)
    } else if l.len() == 5 && l[3] == 98 && l[4] == 101 {  // "be"
        Some(Endianness::Big)
    } else {
        None
    }
}

/// What a sample-format argument denotes, case-insensitively: one of the
/// nine names `f32`, `s16`, `u16`, each bare or with an `le` or `be` suffix.
pub open spec fn spec_format_name(s: Seq<u8>) -> Option<(SampleFormat, Endianness)> {
    match (spec_format_of(to_lower(s)), spec_endianness_of(to_lower(s))) {
        (Some(f), Some(e)) => Some((f, e)),
        _ => None,
    }
}

fn lower_bytes(s: &Vec<u8>) -> (r: Vec<u8>)
    ensures
        r@ == to_lower(s@),
{
    let mut out: Vec<u8> = Vec::new();
    let mut i: usize = 0;
    proof {
        assert(out@ =~= to_lower(s@).take(0));
    }
    while i < s.len()
        invariant
            0 <= i <= s@.len(),
            out@ == to_lower(s@).take(i as int),
        decreases s@.len() - i,
    {
        let b: u8 = s[i];
        let low: u8 = if b >= 65 && b <= 90 {
            b + 32
        } else {
            b
        };
        out.push(low);
        proof {
            assert(out@ =~= to_lower(s@).take(i + 1));
        }
        i = i + 1;
    }
    proof {
        assert(to_lower(s@).take(s@.len() as int) =~= to_lower(s@));
    }
    out
}

/// Reads a sample-format argument, case-insensitively, into the sample
/// format and byte order it names. An unknown name is reported as the
/// malformed-sample-format error, carrying the text as given.
pub fn parse_sample_format(s: Vec<u8>) -> (r: Result<(SampleFormat, Endianness), Error>)
    ensures
        match spec_format_name(s@) {
            Some(fe) => r == Ok::<(SampleFormat, Endianness), Error>(fe),
            None => r matches Err(e) && e matches (Error::MalformedSampleFormat { got }) && got@
                == s@,
        },
{
    let l = lower_bytes(&s);
    let format: Option<SampleFormat> = if l.len() == 3 || l.len() == 5 {
        let b0: u8 = l[0];
        let b1: u8 = l[1];
        let b2: u8 = l[2];
        if b0 == 102 && b1 == 51 && b2 == 50 {
            Some(SampleFormat::F32)
        } else if b0 == 115 && b1 == 49 && b2 == 54 {
            Some(SampleFormat::I16)
        } else if b0 == 117 && b1 == 49 && b2 == 54 {
            Some(SampleFormat::U16)
        } else {
            None
        }
    } else {
        None
    };
    let endianness: Option<Endianness> = if l.len() == 3 {
        Some(Endianness::Native)
    } else if l.len() == 5 {
        let b3: u8 = l[3];
        let b4: u8 = l[4];
        if b3 == 108 && b4 == 101 {
            Some(Endianness::Little)
        } else if b3 == 98 && b4 == 101 {
            Some(Endianness::Big)
        } else {
            None
        }
    } else {
        None
    };
    match (format, endianness) {
        (Some(f), Some(e)) => Ok((f, e)),
        _ => Err(Error::MalformedSampleFormat { got: s }),
    }
}

} // verus!
