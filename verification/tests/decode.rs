use spectrum_ares::backend::pipewire::decode::{
    decode_audio_buffer, decode_sample,
    interleaved_frame_stride, max_planar_frames, planar_stride, sample_width_bytes,
    sliced_data_bytes, AudioFormat, BufferPlane, DecodeError, ObservedAudioFormat, RawSample,
};

struct Levels {
    rms: f32,
    peak: f32,
    frames: usize,
}

fn scaled(sample: RawSample) -> f32 {
    match sample {
        RawSample::Float32(bits) => f32::from_bits(bits),
        RawSample::Float64(bits) => f64::from_bits(bits) as f32,
        RawSample::Signed16(value) => value as f32 / i16::MAX as f32,
        RawSample::Signed32(value) => value as f32 / i32::MAX as f32,
        RawSample::Unsigned8(value) => (value as f32 - 128.0) / 128.0,
        RawSample::Signed8(value) => value as f32 / i8::MAX as f32,
    }
}

fn levels_of(frames: Option<Vec<Vec<RawSample>>>) -> Option<Levels> {
    let frames = frames?;
    let mut sum_squares = 0.0_f32;
    let mut peak = 0.0_f32;
    for frame in &frames {
        let mut mono = 0.0_f32;
        for sample in frame {
            mono += scaled(*sample);
        }
        mono /= frame.len() as f32;
        sum_squares += mono * mono;
        peak = peak.max(mono.abs());
    }
    Some(Levels {
        rms: (sum_squares / frames.len() as f32).sqrt(),
        peak,
        frames: frames.len(),
    })
}

fn plane(bytes: &[u8]) -> BufferPlane<'_> {
    BufferPlane {
        offset: 0,
        size: bytes.len() as u32,
        stride: 0,
        bytes: Some(bytes),
    }
}

fn format(sample_format: AudioFormat, channels: u32) -> ObservedAudioFormat {
    ObservedAudioFormat {
        sample_format,
        sample_rate: 48_000,
        channels,
    }
}

#[test]
fn interleaved_f32_stereo_downmix_produces_expected_levels() {
    let samples = [
        1.0_f32.to_le_bytes(),
        0.0_f32.to_le_bytes(),
        (-1.0_f32).to_le_bytes(),
        0.0_f32.to_le_bytes(),
    ]
    .concat();

    let levels = levels_of(
        decode_audio_buffer(&[plane(&samples)], format(AudioFormat::F32LE, 2))
            .expect("interleaved levels should parse"),
    )
    .expect("levels should be present");

    assert!((levels.rms - 0.5).abs() < 0.0001);
    assert!((levels.peak - 0.5).abs() < 0.0001);
    assert_eq!(levels.frames, 2);
}

#[test]
fn planar_s16_stereo_downmix_produces_expected_levels() {
    let left = [32767_i16.to_le_bytes(), 0_i16.to_le_bytes()].concat();
    let right = [0_i16.to_le_bytes(), 32767_i16.to_le_bytes()].concat();

    let levels = levels_of(
        decode_audio_buffer(
            &[plane(left.as_slice()), plane(right.as_slice())],
            format(AudioFormat::S16P, 2),
        )
        .expect("planar levels should parse"),
    )
    .expect("levels should be present");

    assert!((levels.rms - 0.5).abs() < 0.01);
    assert!((levels.peak - 0.5).abs() < 0.01);
    assert_eq!(levels.frames, 2);
}

#[test]
fn unsupported_formats_are_rejected() {
    let result = decode_audio_buffer(&[plane(&[0_u8; 8])], format(AudioFormat::S24_32LE, 2));

    assert!(result.is_err());
}

#[test]
fn samples_are_read_back_from_their_bytes() {
    for value in [0_i16, 1, -1, 255, 256, i16::MAX, i16::MIN] {
        let wanted = Ok(RawSample::Signed16(value));
        assert_eq!(decode_sample(AudioFormat::S16LE, &value.to_le_bytes()), wanted);
        assert_eq!(decode_sample(AudioFormat::S16P, &value.to_le_bytes()), wanted);
        assert_eq!(decode_sample(AudioFormat::S16BE, &value.to_be_bytes()), wanted);
    }
    for value in [0_i32, 1, -1, 65_536, i32::MAX, i32::MIN, -123_456_789] {
        let wanted = Ok(RawSample::Signed32(value));
        assert_eq!(decode_sample(AudioFormat::S32LE, &value.to_le_bytes()), wanted);
        assert_eq!(decode_sample(AudioFormat::S32P, &value.to_le_bytes()), wanted);
        assert_eq!(decode_sample(AudioFormat::S32BE, &value.to_be_bytes()), wanted);
    }
    for value in [0.0_f32, -0.5, 1.0, f32::MIN_POSITIVE, f32::INFINITY] {
        let wanted = Ok(RawSample::Float32(value.to_bits()));
        assert_eq!(decode_sample(AudioFormat::F32LE, &value.to_le_bytes()), wanted);
        assert_eq!(decode_sample(AudioFormat::F32P, &value.to_le_bytes()), wanted);
        assert_eq!(decode_sample(AudioFormat::F32BE, &value.to_be_bytes()), wanted);
    }
    for value in [0.0_f64, -0.25, 1.0e300] {
        let wanted = Ok(RawSample::Float64(value.to_bits()));
        assert_eq!(decode_sample(AudioFormat::F64LE, &value.to_le_bytes()), wanted);
        assert_eq!(decode_sample(AudioFormat::F64P, &value.to_le_bytes()), wanted);
        assert_eq!(decode_sample(AudioFormat::F64BE, &value.to_be_bytes()), wanted);
    }
    for byte in 0..=255_u8 {
        let wanted = Ok(RawSample::Unsigned8(byte));
        assert_eq!(decode_sample(AudioFormat::U8, &[byte, 7]), wanted);
        assert_eq!(decode_sample(AudioFormat::U8P, &[byte]), wanted);
        let wanted = Ok(RawSample::Signed8(byte as i8));
        assert_eq!(decode_sample(AudioFormat::S8, &[byte]), wanted);
        assert_eq!(decode_sample(AudioFormat::S8P, &[byte]), wanted);
    }
}

#[test]
fn samples_of_the_wrong_size_are_refused() {
    for (format, error, text) in [
        (AudioFormat::F32LE, DecodeError::InvalidF32Width, "invalid f32 sample width"),
        (AudioFormat::F32BE, DecodeError::InvalidF32Width, "invalid f32 sample width"),
        (AudioFormat::F64P, DecodeError::InvalidF64Width, "invalid f64 sample width"),
        (AudioFormat::F64BE, DecodeError::InvalidF64Width, "invalid f64 sample width"),
        (AudioFormat::S16LE, DecodeError::InvalidS16Width, "invalid s16 sample width"),
        (AudioFormat::S16BE, DecodeError::InvalidS16Width, "invalid s16 sample width"),
        (AudioFormat::S32P, DecodeError::InvalidS32Width, "invalid s32 sample width"),
        (AudioFormat::S32BE, DecodeError::InvalidS32Width, "invalid s32 sample width"),
    ] {
        assert_eq!(decode_sample(format, &[0; 3]), Err(error));
        assert_eq!(error.message("X"), text);
    }
    assert_eq!(
        decode_sample(AudioFormat::ULAW, &[0]),
        Err(DecodeError::UnsupportedFormat)
    );
    assert_eq!(
        DecodeError::UnsupportedFormat.message("ULAW"),
        "unsupported negotiated sample format for prototype capture: ULAW"
    );
    assert_eq!(
        DecodeError::ZeroChannels.message("F32LE"),
        "PipeWire negotiated zero audio channels"
    );
}

#[test]
fn sample_widths() {
    for (format, width) in [
        (AudioFormat::F32LE, 4),
        (AudioFormat::F32BE, 4),
        (AudioFormat::F32P, 4),
        (AudioFormat::S32LE, 4),
        (AudioFormat::S32BE, 4),
        (AudioFormat::S32P, 4),
        (AudioFormat::F64LE, 8),
        (AudioFormat::F64BE, 8),
        (AudioFormat::F64P, 8),
        (AudioFormat::S16LE, 2),
        (AudioFormat::S16BE, 2),
        (AudioFormat::S16P, 2),
        (AudioFormat::U8, 1),
        (AudioFormat::U8P, 1),
        (AudioFormat::S8, 1),
        (AudioFormat::S8P, 1),
    ] {
        assert_eq!(sample_width_bytes(format), Ok(width));
    }
    for format in [
        AudioFormat::Unknown,
        AudioFormat::U16LE,
        AudioFormat::S24P,
        AudioFormat::Unlisted { planar: true },
    ] {
        assert_eq!(sample_width_bytes(format), Err(DecodeError::UnsupportedFormat));
    }
}

#[test]
fn chunks_are_cut_out_of_their_block() {
    let bytes = [0_u8, 1, 2, 3, 4, 5];
    let mut block = plane(&bytes);
    assert_eq!(sliced_data_bytes(&block), Some(&bytes[..]));
    block.offset = 2;
    assert_eq!(sliced_data_bytes(&block), Some(&bytes[2..]));
    block.size = 3;
    assert_eq!(sliced_data_bytes(&block), Some(&bytes[2..5]));
    block.size = u32::MAX;
    block.offset = u32::MAX;
    assert_eq!(sliced_data_bytes(&block), None);
    block.offset = 6;
    assert_eq!(sliced_data_bytes(&block), None);
    block.offset = 0;
    block.size = 0;
    assert_eq!(sliced_data_bytes(&block), None);
    block.size = 6;
    block.bytes = None;
    assert_eq!(sliced_data_bytes(&block), None);
}

#[test]
fn strides_that_leave_no_room_are_ignored() {
    let mut block = plane(&[]);
    block.stride = 8;
    assert_eq!(planar_stride(&block, 4), 8);
    assert_eq!(interleaved_frame_stride(&block, 4, 2), 8);
    assert_eq!(interleaved_frame_stride(&block, 4, 3), 12);
    block.stride = -8;
    assert_eq!(planar_stride(&block, 4), 4);
    block.stride = i32::MAX;
    assert_eq!(planar_stride(&block, 4), i32::MAX as usize);
}

#[test]
fn frames_that_fit_are_counted() {
    assert_eq!(max_planar_frames(0, 4, 4), 0);
    assert_eq!(max_planar_frames(3, 4, 4), 0);
    assert_eq!(max_planar_frames(4, 4, 4), 1);
    assert_eq!(max_planar_frames(7, 4, 4), 1);
    assert_eq!(max_planar_frames(8, 4, 4), 2);
    assert_eq!(max_planar_frames(10, 8, 2), 2);
    assert_eq!(max_planar_frames(10, 0, 2), 0);
}

#[test]
fn interleaved_frames_follow_the_stride() {
    let bytes = [1_u8, 2, 9, 3, 4, 9, 5, 6];
    let mut block = plane(&bytes);
    block.stride = 3;
    assert_eq!(
        decode_audio_buffer(&[block], format(AudioFormat::U8, 2)),
        Ok(Some(vec![
            vec![RawSample::Unsigned8(1), RawSample::Unsigned8(2)],
            vec![RawSample::Unsigned8(3), RawSample::Unsigned8(4)],
            vec![RawSample::Unsigned8(5), RawSample::Unsigned8(6)],
        ]))
    );
    block.size = 7;
    let frames = decode_audio_buffer(&[block], format(AudioFormat::U8, 2));
    assert_eq!(frames.unwrap().unwrap().len(), 2);
}

#[test]
fn planes_without_data_are_left_out() {
    let left = [1_u8, 2, 3];
    let right = [4_u8, 5];
    let mut unmapped = plane(&left);
    unmapped.bytes = None;
    assert_eq!(
        decode_audio_buffer(
            &[plane(&left), unmapped, plane(&right), plane(&left)],
            format(AudioFormat::S8P, 3)
        ),
        Ok(Some(vec![
            vec![RawSample::Signed8(1), RawSample::Signed8(4)],
            vec![RawSample::Signed8(2), RawSample::Signed8(5)],
        ]))
    );
    assert_eq!(
        decode_audio_buffer(&[unmapped], format(AudioFormat::S8P, 2)),
        Ok(None)
    );
    assert_eq!(
        decode_audio_buffer(&[plane(&left), plane(&[])], format(AudioFormat::S16P, 1)),
        Ok(Some(vec![vec![RawSample::Signed16(0x201)]]))
    );
}

#[test]
fn buffers_without_a_whole_frame_give_nothing() {
    assert_eq!(decode_audio_buffer(&[], format(AudioFormat::F32LE, 2)), Ok(None));
    assert_eq!(decode_audio_buffer(&[], format(AudioFormat::F32P, 2)), Ok(None));
    let short = [0_u8; 7];
    assert_eq!(
        decode_audio_buffer(&[plane(&short)], format(AudioFormat::F32LE, 2)),
        Ok(None)
    );
    assert_eq!(
        decode_audio_buffer(&[plane(&short)], format(AudioFormat::F32LE, u32::MAX)),
        Ok(None)
    );
    assert_eq!(
        decode_audio_buffer(&[plane(&short), plane(&short[..3])], format(AudioFormat::F32P, 2)),
        Ok(None)
    );
}

#[test]
fn single_channel_layouts_agree() {
    let bytes = [1_u8, 0, 2, 0, 3];
    assert_eq!(
        decode_audio_buffer(&[plane(&bytes)], format(AudioFormat::S16LE, 1)),
        decode_audio_buffer(&[plane(&bytes)], format(AudioFormat::S16P, 1))
    );
}

#[test]
fn formats_that_cannot_be_decoded() {
    assert_eq!(
        decode_audio_buffer(&[], format(AudioFormat::ALAW, 0)),
        Err(DecodeError::ZeroChannels)
    );
    assert_eq!(
        decode_audio_buffer(&[], format(AudioFormat::ALAW, 1)),
        Err(DecodeError::UnsupportedFormat)
    );
    assert_eq!(
        decode_audio_buffer(&[], format(AudioFormat::S24P, 1)),
        Err(DecodeError::UnsupportedFormat)
    );
}

#[test]
fn formats_in_words() {
    assert_eq!(
        format(AudioFormat::F32LE, 2).describe("AudioFormat::F32LE"),
        "AudioFormat::F32LE, 48000 Hz, 2 channel(s), interleaved"
    );
    assert_eq!(format(AudioFormat::F32P, 2).layout_name(), "planar");
    assert!(format(AudioFormat::S24_32P, 2).is_planar());
    assert!(!format(AudioFormat::S24_32LE, 2).is_planar());
    assert!(AudioFormat::Unlisted { planar: true }.is_planar());
    assert!(!AudioFormat::Unlisted { planar: false }.is_planar());
}
