use pcmplay::config::Endianness;
use pcmplay::config::SampleFormat;
use pcmplay::error::Error;
use pcmplay::error::IntParseError;
use pcmplay::parse::parse_channels;
use pcmplay::parse::parse_host_index;
use pcmplay::parse::parse_sample_format;
use pcmplay::parse::parse_sample_rate;
use pcmplay::parse::parse_u64_dec;

#[test]
fn decimal_parsing_reads_plain_digits() {
    assert_eq!(parse_u64_dec(&b"0".to_vec()), Ok(0));
    assert_eq!(parse_u64_dec(&b"48000".to_vec()), Ok(48000));
    assert_eq!(parse_u64_dec(&b"007".to_vec()), Ok(7));
    assert_eq!(parse_u64_dec(&b"18446744073709551615".to_vec()), Ok(u64::MAX));
}

#[test]
fn decimal_parsing_rejects_bad_input() {
    assert_eq!(parse_u64_dec(&Vec::new()), Err(IntParseError::Empty));
    assert_eq!(parse_u64_dec(&b"12a".to_vec()), Err(IntParseError::InvalidDigit));
    assert_eq!(parse_u64_dec(&b"-1".to_vec()), Err(IntParseError::InvalidDigit));
    assert_eq!(parse_u64_dec(&b" 1".to_vec()), Err(IntParseError::InvalidDigit));
    assert_eq!(parse_u64_dec(&b"18446744073709551616".to_vec()), Err(IntParseError::Overflow));
}

#[test]
fn channel_count_parsing() {
    assert_eq!(parse_channels(&b"2".to_vec()), Ok(2));
    assert_eq!(parse_channels(&b"65535".to_vec()), Ok(65535));
    assert_eq!(parse_channels(&Vec::new()), Err(Error::MalformedChannels(IntParseError::Empty)));
    assert_eq!(
        parse_channels(&b"two".to_vec()),
        Err(Error::MalformedChannels(IntParseError::InvalidDigit))
    );
    assert_eq!(
        parse_channels(&b"65536".to_vec()),
        Err(Error::MalformedChannels(IntParseError::Overflow))
    );
}

#[test]
fn sample_rate_parsing() {
    assert_eq!(parse_sample_rate(&b"44100".to_vec()), Ok(44100));
    assert_eq!(parse_sample_rate(&b"4294967295".to_vec()), Ok(u32::MAX));
    assert_eq!(
        parse_sample_rate(&Vec::new()),
        Err(Error::MalformedSampleRate(IntParseError::Empty))
    );
    assert_eq!(
        parse_sample_rate(&b"44.1k".to_vec()),
        Err(Error::MalformedSampleRate(IntParseError::InvalidDigit))
    );
    assert_eq!(
        parse_sample_rate(&b"4294967296".to_vec()),
        Err(Error::MalformedSampleRate(IntParseError::Overflow))
    );
}

#[test]
fn host_index_parsing() {
    assert_eq!(parse_host_index(b"3".to_vec()), Ok(3));
    assert_eq!(
        parse_host_index(b"alsa".to_vec()),
        Err(Error::MalformedHost { what: IntParseError::InvalidDigit, value: b"alsa".to_vec() })
    );
    assert_eq!(
        parse_host_index(Vec::new()),
        Err(Error::MalformedHost { what: IntParseError::Empty, value: Vec::new() })
    );
}

#[test]
fn sample_format_names() {
    assert_eq!(
        parse_sample_format(b"f32le".to_vec()),
        Ok((SampleFormat::F32, Endianness::Little))
    );
    assert_eq!(
        parse_sample_format(b"s16le".to_vec()),
        Ok((SampleFormat::I16, Endianness::Little))
    );
    assert_eq!(
        parse_sample_format(b"u16le".to_vec()),
        Ok((SampleFormat::U16, Endianness::Little))
    );
    assert_eq!(parse_sample_format(b"f32be".to_vec()), Ok((SampleFormat::F32, Endianness::Big)));
    assert_eq!(parse_sample_format(b"s16be".to_vec()), Ok((SampleFormat::I16, Endianness::Big)));
    assert_eq!(parse_sample_format(b"u16be".to_vec()), Ok((SampleFormat::U16, Endianness::Big)));
    assert_eq!(parse_sample_format(b"f32".to_vec()), Ok((SampleFormat::F32, Endianness::Native)));
    assert_eq!(parse_sample_format(b"s16".to_vec()), Ok((SampleFormat::I16, Endianness::Native)));
    assert_eq!(parse_sample_format(b"u16".to_vec()), Ok((SampleFormat::U16, Endianness::Native)));
}

#[test]
fn sample_format_names_fold_case() {
    assert_eq!(
        parse_sample_format(b"F32LE".to_vec()),
        Ok((SampleFormat::F32, Endianness::Little))
    );
    assert_eq!(parse_sample_format(b"S16".to_vec()), Ok((SampleFormat::I16, Endianness::Native)));
}

#[test]
fn unknown_sample_format_is_reported_with_its_text() {
    assert_eq!(
        parse_sample_format(b"f64le".to_vec()),
        Err(Error::MalformedSampleFormat { got: b"f64le".to_vec() })
    );
    assert_eq!(
        parse_sample_format(b"s16xx".to_vec()),
        Err(Error::MalformedSampleFormat { got: b"s16xx".to_vec() })
    );
    assert_eq!(
        parse_sample_format(Vec::new()),
        Err(Error::MalformedSampleFormat { got: Vec::new() })
    );
}
