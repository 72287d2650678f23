//! From the bytes of captured audio buffers to frames of raw samples.

use crate::spans;
use crate::text;
use vstd::prelude::*;

verus! {

/// A negotiated sample format.
#[allow(non_camel_case_types)]
#[derive(Debug, Clone, Copy, PartialEq, Eq, Structural)]
pub enum AudioFormat {
    Unknown,
    Encoded,
    S8,
    U8,
    S16LE,
    S16BE,
    U16LE,
    U16BE,
    S24_32LE,
    S24_32BE,
    U24_32LE,
    U24_32BE,
    S32LE,
    S32BE,
    U32LE,
    U32BE,
    S24LE,
    S24BE,
    U24LE,
    U24BE,
    S20LE,
    S20BE,
    U20LE,
    U20BE,
    S18LE,
    S18BE,
    U18LE,
    U18BE,
    F32LE,
    F32BE,
    F64LE,
    F64BE,
    ULAW,
    ALAW,
    U8P,
    S16P,
    S24_32P,
    S32P,
    S24P,
    F32P,
    F64P,
    S8P,
    /// A format without a name here; `planar` says whether its channels are kept apart.
    Unlisted { planar: bool },
}

impl AudioFormat {
    /// Each channel has a plane of its own.
    pub open spec fn planar(self) -> bool {
        match self {
            AudioFormat::U8P
            | AudioFormat::S16P
            | AudioFormat::S24_32P
            | AudioFormat::S32P
            | AudioFormat::S24P
            | AudioFormat::F32P
            | AudioFormat::F64P
            | AudioFormat::S8P => true,
            AudioFormat::Unlisted { planar } => planar,
            _ => false,
        }
    }

    /// The number of bytes of one sample, for a format that can be decoded.
    pub open spec fn width(self) -> Option<nat> {
        match self {
            AudioFormat::F32LE
            | AudioFormat::F32BE
            | AudioFormat::F32P
            | AudioFormat::S32LE
            | AudioFormat::S32BE
            | AudioFormat::S32P => Some(4),
            AudioFormat::F64LE | AudioFormat::F64BE | AudioFormat::F64P => Some(8),
            AudioFormat::S16LE | AudioFormat::S16BE | AudioFormat::S16P => Some(2),
            AudioFormat::U8 | AudioFormat::U8P | AudioFormat::S8 | AudioFormat::S8P => Some(1),
            _ => None,
        }
    }

    /// Whether each channel has a plane of its own.
    pub fn is_planar(&self) -> (r: bool)
        ensures
            r == self.planar(),
    {
        match self {
            AudioFormat::U8P
            | AudioFormat::S16P
            | AudioFormat::S24_32P
            | AudioFormat::S32P
            | AudioFormat::S24P
            | AudioFormat::F32P
            | AudioFormat::F64P
            | AudioFormat::S8P => true,
            AudioFormat::Unlisted { planar } => *planar,
            _ => false,
        }
    }
}

/// Why a buffer could not be decoded.
#[derive(Debug, Clone, Copy, PartialEq, Eq, Structural)]
pub enum DecodeError {
    ZeroChannels,
    UnsupportedFormat,
    InvalidF32Width,
    InvalidF64Width,
    InvalidS16Width,
    InvalidS32Width,
}

impl DecodeError {
    /// The message of the error, given the name of the negotiated sample format.
    pub open spec fn text(self, format_name: Seq<char>) -> Seq<char> {
        match self {
            DecodeError::ZeroChannels => "PipeWire negotiated zero audio channels"@,
            DecodeError::UnsupportedFormat =>
                "unsupported negotiated sample format for prototype capture: "@ + format_name,
            DecodeError::InvalidF32Width => "invalid f32 sample width"@,
            DecodeError::InvalidF64Width => "invalid f64 sample width"@,
            DecodeError::InvalidS16Width => "invalid s16 sample width"@,
            DecodeError::InvalidS32Width => "invalid s32 sample width"@,
        }
    }

    /// The message of the error, given the name of the negotiated sample format.
    pub fn message(&self, format_name: &str) -> (r: String)
        ensures
            r@ == self.text(format_name@),
    {
        match self {
            DecodeError::ZeroChannels => "PipeWire negotiated zero audio channels".to_string(),
            DecodeError::UnsupportedFormat => {
                let mut r: String =
                    "unsupported negotiated sample format for prototype capture: ".to_string();
                r.append(format_name);
                r
            },
            DecodeError::InvalidF32Width => "invalid f32 sample width".to_string(),
            DecodeError::InvalidF64Width => "invalid f64 sample width".to_string(),
            DecodeError::InvalidS16Width => "invalid s16 sample width".to_string(),
            DecodeError::InvalidS32Width => "invalid s32 sample width".to_string(),
        }
    }
}

/// A sample as it stands in a buffer, before it is scaled. Floating-point samples are given by
/// their bits.
#[derive(Debug, Clone, Copy, PartialEq, Eq, Structural)]
pub enum RawSample {
    Float32(u32),
    Float64(u64),
    Signed16(i16),
    Signed32(i32),
    Unsigned8(u8),
    Signed8(i8),
}

/// The number that two bytes denote, the low one first.
pub open spec fn le2(s: Seq<u8>) -> int {
    s[0] + 0x100 * s[1]
}

/// The number that four bytes denote, the low one first.
pub open spec fn le4(s: Seq<u8>) -> int {
    s[0] + 0x100 * s[1] + 0x1_0000 * s[2] + 0x100_0000 * s[3]
}

/// The number that eight bytes denote, the low one first.
pub open spec fn le8(s: Seq<u8>) -> int {
    le4(s.take(4)) + 0x1_0000_0000 * le4(s.skip(4))
}

/// A number of `2 * half` values, read as a signed one.
pub open spec fn signed(n: int, half: int) -> int {
    if n >= half {
        n - 2 * half
    } else {
        n
    }
}

/// The sample that the bytes hold, for a format that can be decoded and the bytes of one sample.
pub open spec fn sample_value(format: AudioFormat, bytes: Seq<u8>) -> RawSample {
    match format {
        AudioFormat::F32LE | AudioFormat::F32P => RawSample::Float32(le4(bytes) as u32),
        AudioFormat::F32BE => RawSample::Float32(le4(bytes.reverse()) as u32),
        AudioFormat::F64LE | AudioFormat::F64P => RawSample::Float64(le8(bytes) as u64),
        AudioFormat::F64BE => RawSample::Float64(le8(bytes.reverse()) as u64),
        AudioFormat::S16LE | AudioFormat::S16P => RawSample::Signed16(
            signed(le2(bytes), 0x8000) as i16,
        ),
        AudioFormat::S16BE => RawSample::Signed16(signed(le2(bytes.reverse()), 0x8000) as i16),
        AudioFormat::S32LE | AudioFormat::S32P => RawSample::Signed32(
            signed(le4(bytes), 0x8000_0000) as i32,
        ),
        AudioFormat::S32BE => RawSample::Signed32(signed(le4(bytes.reverse()), 0x8000_0000) as i32),
        AudioFormat::U8 | AudioFormat::U8P => RawSample::Unsigned8(bytes[0]),
        _ => RawSample::Signed8(signed(bytes[0] as int, 0x80) as i8),
    }
}

/// The error about bytes that are not as many as one sample has.
pub open spec fn width_error(format: AudioFormat) -> DecodeError {
    match format {
        AudioFormat::F32LE | AudioFormat::F32BE | AudioFormat::F32P => DecodeError::InvalidF32Width,
        AudioFormat::F64LE | AudioFormat::F64BE | AudioFormat::F64P => DecodeError::InvalidF64Width,
        AudioFormat::S16LE | AudioFormat::S16BE | AudioFormat::S16P => DecodeError::InvalidS16Width,
        _ => DecodeError::InvalidS32Width,
    }
}

/// The number of bytes of one sample.
pub fn sample_width_bytes(sample_format: AudioFormat) -> (r: Result<usize, DecodeError>)
    ensures
        match sample_format.width() {
            Some(width) => r is Ok && r->Ok_0 == width,
            None => r is Err && r->Err_0 == DecodeError::UnsupportedFormat,
        },
{
    match sample_format {
        AudioFormat::F32LE
        | AudioFormat::F32BE
        | AudioFormat::F32P
        | AudioFormat::S32LE
        | AudioFormat::S32BE
        | AudioFormat::S32P => Ok(4),
        AudioFormat::F64LE | AudioFormat::F64BE | AudioFormat::F64P => Ok(8),
        AudioFormat::S16LE | AudioFormat::S16BE | AudioFormat::S16P => Ok(2),
        AudioFormat::U8 | AudioFormat::U8P | AudioFormat::S8 | AudioFormat::S8P => Ok(1),
        _ => Err(DecodeError::UnsupportedFormat),
    }
}

/// The number that two bytes denote, the low one given first.
fn number2(low: u8, high: u8) -> (r: u16)
    ensures
        r == low + 0x100 * high,
{
    (low as u16) + 0x100 * (high as u16)
}

/// The number that four bytes denote, the low one given first.
fn number4(a: u8, b: u8, c: u8, d: u8) -> (r: u32)
    ensures
        r == a + 0x100 * b + 0x1_0000 * c + 0x100_0000 * d,
{
    (a as u32) + 0x100 * (b as u32) + 0x1_0000 * (c as u32) + 0x100_0000 * (d as u32)
}

/// The number that two halves denote.
fn number8(low: u32, high: u32) -> (r: u64)
    ensures
        r == low + 0x1_0000_0000 * high,
{
    (low as u64) + 0x1_0000_0000 * (high as u64)
}

/// A 16-bit number, read as a signed one.
fn signed16(n: u16) -> (r: i16)
    ensures
        r == signed(n as int, 0x8000),
{
    if n >= 0x8000 {
        ((n as i32) - 0x1_0000) as i16
    } else {
        n as i16
    }
}

/// A 32-bit number, read as a signed one.
fn signed32(n: u32) -> (r: i32)
    ensures
        r == signed(n as int, 0x8000_0000),
{
    if n >= 0x8000_0000 {
        ((n as i64) - 0x1_0000_0000) as i32
    } else {
        n as i32
    }
}

/// An 8-bit number, read as a signed one.
fn signed8(n: u8) -> (r: i8)
    ensures
        r == signed(n as int, 0x80),
{
    if n >= 0x80 {
        ((n as i16) - 0x100) as i8
    } else {
        n as i8
    }
}

/// The sample that the bytes hold. Of the one-byte formats only the first byte counts; for the
/// others the bytes must be exactly as many as one sample has.
pub fn decode_sample(sample_format: AudioFormat, bytes: &[u8]) -> (r: Result<
    RawSample,
    DecodeError,
>)
    requires
        sample_format.width() == Some(1nat) ==> bytes@.len() > 0,
    ensures
        match sample_format.width() {
            Some(width) => if width == 1 || bytes@.len() == width {
                r is Ok && r->Ok_0 == sample_value(sample_format, bytes@)
            } else {
                r is Err && r->Err_0 == width_error(sample_format)
            },
            None => r is Err && r->Err_0 == DecodeError::UnsupportedFormat,
        },
{
    match sample_format {
        AudioFormat::F32LE | AudioFormat::F32P => if bytes.len() == 4 {
            Ok(RawSample::Float32(number4(bytes[0], bytes[1], bytes[2], bytes[3])))
        } else {
            Err(DecodeError::InvalidF32Width)
        },
        AudioFormat::F32BE => if bytes.len() == 4 {
            Ok(RawSample::Float32(number4(bytes[3], bytes[2], bytes[1], bytes[0])))
        } else {
            Err(DecodeError::InvalidF32Width)
        },
        AudioFormat::F64LE | AudioFormat::F64P => if bytes.len() == 8 {
            let low: u32 = number4(bytes[0], bytes[1], bytes[2], bytes[3]);
            let high: u32 = number4(bytes[4], bytes[5], bytes[6], bytes[7]);
            Ok(RawSample::Float64(number8(low, high)))
        } else {
            Err(DecodeError::InvalidF64Width)
        },
        AudioFormat::F64BE => if bytes.len() == 8 {
            let low: u32 = number4(bytes[7], bytes[6], bytes[5], bytes[4]);
            let high: u32 = number4(bytes[3], bytes[2], bytes[1], bytes[0]);
            Ok(RawSample::Float64(number8(low, high)))
        } else {
            Err(DecodeError::InvalidF64Width)
        },
        AudioFormat::S16LE | AudioFormat::S16P => if bytes.len() == 2 {
            Ok(RawSample::Signed16(signed16(number2(bytes[0], bytes[1]))))
        } else {
            Err(DecodeError::InvalidS16Width)
        },
        AudioFormat::S16BE => if bytes.len() == 2 {
            Ok(RawSample::Signed16(signed16(number2(bytes[1], bytes[0]))))
        } else {
            Err(DecodeError::InvalidS16Width)
        },
        AudioFormat::S32LE | AudioFormat::S32P => if bytes.len() == 4 {
            Ok(RawSample::Signed32(signed32(number4(bytes[0], bytes[1], bytes[2], bytes[3]))))
        } else {
            Err(DecodeError::InvalidS32Width)
        },
        AudioFormat::S32BE => if bytes.len() == 4 {
            Ok(RawSample::Signed32(signed32(number4(bytes[3], bytes[2], bytes[1], bytes[0]))))
        } else {
            Err(DecodeError::InvalidS32Width)
        },
        AudioFormat::U8 | AudioFormat::U8P => Ok(RawSample::Unsigned8(bytes[0])),
        AudioFormat::S8 | AudioFormat::S8P => Ok(RawSample::Signed8(signed8(bytes[0]))),
        _ => Err(DecodeError::UnsupportedFormat),
    }
}

/// The audio format that a stream negotiated.
#[derive(Debug, Clone, Copy, PartialEq, Eq, Structural)]
pub struct ObservedAudioFormat {
    pub sample_format: AudioFormat,
    pub sample_rate: u32,
    pub channels: u32,
}

impl ObservedAudioFormat {
    /// How the channels are laid out.
    pub open spec fn layout(self) -> Seq<char> {
        if self.sample_format.planar() {
            "planar"@
        } else {
            "interleaved"@
        }
    }

    /// The format in words, given the name of its sample format.
    pub open spec fn text(self, format_name: Seq<char>) -> Seq<char> {
        format_name + ", "@ + text::decimal(self.sample_rate as nat) + " Hz, "@ + text::decimal(
            self.channels as nat,
        ) + " channel(s), "@ + self.layout()
    }

    /// Whether each channel has a plane of its own.
    pub fn is_planar(&self) -> (r: bool)
        ensures
            r == self.sample_format.planar(),
    {
        self.sample_format.is_planar()
    }

    /// How the channels are laid out.
    pub fn layout_name(&self) -> (r: &'static str)
        ensures
            r@ == self.layout(),
    {
        if self.is_planar() {
            "planar"
        } else {
            "interleaved"
        }
    }

    /// The format in words, given the name of its sample format.
    pub fn describe(&self, format_name: &str) -> (r: String)
        ensures
            r@ == self.text(format_name@),
    {
        let mut r: String = format_name.to_string();
        r.append(", ");
        text::append_decimal(&mut r, self.sample_rate as u64);
        r.append(" Hz, ");
        text::append_decimal(&mut r, self.channels as u64);
        r.append(" channel(s), ");
        r.append(self.layout_name());
        r
    }
}

/// One memory block of a captured buffer: where in it the audio data lies, how far apart frames
/// are, and its bytes where they are mapped.
#[derive(Debug, Clone, Copy)]
pub struct BufferPlane<'a> {
    pub offset: u32,
    pub size: u32,
    pub stride: i32,
    pub bytes: Option<&'a [u8]>,
}

impl<'a> BufferPlane<'a> {
    /// The audio data of the block, if there is any.
    pub open spec fn chunk(self) -> Option<Seq<u8>> {
        match self.bytes {
            Some(bytes) => {
                let end = if self.offset + self.size <= bytes@.len() {
                    self.offset + self.size
                } else {
                    bytes@.len() as int
                };
                if self.offset < end {
                    Some(bytes@.subrange(self.offset as int, end))
                } else {
                    None
                }
            },
            None => None,
        }
    }

    /// The distance between frames of `width` bytes: the stride of the block where it leaves room
    /// for a frame.
    pub open spec fn step(self, width: nat) -> nat {
        if self.stride >= width {
            self.stride as nat
        } else {
            width
        }
    }
}

/// The sample at position `at`.
pub open spec fn sample_at(format: AudioFormat, bytes: Seq<u8>, at: int) -> RawSample {
    sample_value(format, bytes.subrange(at, at + format.width()->0))
}

/// The frames of interleaved audio: the first block holds, `stride` bytes apart, the samples of
/// all channels one after the other.
pub open spec fn interleaved_frames(
    planes: Seq<BufferPlane>,
    format: AudioFormat,
    channels: nat,
) -> Seq<Seq<RawSample>> {
    let width = format.width()->0;
    if planes.len() == 0 || planes[0].chunk() is None {
        Seq::empty()
    } else {
        let bytes = planes[0].chunk()->0;
        let stride = planes[0].step(width * channels);
        Seq::new(
            spans::item_count(bytes.len(), stride, width * channels),
            |f: int| Seq::new(channels, |c: int| sample_at(format, bytes, f * stride + c * width)),
        )
    }
}

/// The audio data of those of the blocks that hold any, each with the distance between samples.
pub open spec fn usable(planes: Seq<BufferPlane>, width: nat) -> Seq<(Seq<u8>, nat)>
    decreases planes.len(),
{
    if planes.len() == 0 {
        Seq::empty()
    } else if planes.last().chunk() is Some {
        usable(planes.drop_last(), width).push(
            (planes.last().chunk()->0, planes.last().step(width)),
        )
    } else {
        usable(planes.drop_last(), width)
    }
}

/// The number of samples that each of the planes holds at least; without planes, none.
pub open spec fn common_count(planes: Seq<(Seq<u8>, nat)>, width: nat) -> nat
    decreases planes.len(),
{
    if planes.len() == 0 {
        0
    } else {
        let last = spans::item_count(planes.last().0.len(), planes.last().1, width);
        let others = common_count(planes.drop_last(), width);
        if planes.len() == 1 || last < others {
            last
        } else {
            others
        }
    }
}

/// The frames of planar audio: the first blocks, one for each channel, hold the samples of their
/// channel. Blocks without data are left out.
pub open spec fn planar_frames(
    planes: Seq<BufferPlane>,
    format: AudioFormat,
    channels: nat,
) -> Seq<Seq<RawSample>> {
    let width = format.width()->0;
    let used = usable(
        if channels <= planes.len() {
            planes.take(channels as int)
        } else {
            planes
        },
        width,
    );
    Seq::new(
        common_count(used, width),
        |f: int|
            Seq::new(used.len(), |p: int| sample_at(format, used[p].0, f * used[p].1)),
    )
}

/// The frames of a captured buffer.
pub open spec fn buffer_frames(
    planes: Seq<BufferPlane>,
    format: ObservedAudioFormat,
) -> Seq<Seq<RawSample>> {
    if format.sample_format.planar() {
        planar_frames(planes, format.sample_format, format.channels as nat)
    } else {
        interleaved_frames(planes, format.sample_format, format.channels as nat)
    }
}

/// The error with which decoding fails, if it does.
pub open spec fn buffer_error(format: ObservedAudioFormat) -> Option<DecodeError> {
    if format.channels == 0 {
        Some(DecodeError::ZeroChannels)
    } else if format.sample_format.width() is None {
        Some(DecodeError::UnsupportedFormat)
    } else {
        None
    }
}

/// The frames in a vector of vectors.
pub open spec fn frames_view(frames: Seq<Vec<RawSample>>) -> Seq<Seq<RawSample>> {
    Seq::new(frames.len(), |i: int| frames[i]@)
}

/// The audio data of a block, if there is any.
pub fn sliced_data_bytes<'a>(plane: &BufferPlane<'a>) -> (r: Option<&'a [u8]>)
    ensures
        match r {
            Some(bytes) => plane.chunk() == Some(bytes@),
            None => plane.chunk() is None,
        },
{
    let bytes: &'a [u8] = match plane.bytes {
        Some(bytes) => bytes,
        None => {
            return None;
        },
    };
    let offset: usize = plane.offset as usize;
    let room: usize = bytes.len();
    if offset >= room {
        return None;
    }
    let wanted: u64 = (plane.offset as u64) + (plane.size as u64);
    let end: usize = if wanted <= room as u64 {
        wanted as usize
    } else {
        room
    };
    if end > offset {
        Some(&bytes[offset..end])
    } else {
        None
    }
}

/// The distance between samples of `sample_width` bytes in a block of one channel.
pub fn planar_stride(plane: &BufferPlane, sample_width: usize) -> (r: usize)
    ensures
        r == plane.step(sample_width as nat),
{
    if plane.stride >= 0 && plane.stride as usize >= sample_width {
        plane.stride as usize
    } else {
        sample_width
    }
}

/// The distance between frames in a block that holds all channels.
pub fn interleaved_frame_stride(
    plane: &BufferPlane,
    sample_width: usize,
    channels: usize,
) -> (r: usize)
    requires
        sample_width * channels <= usize::MAX,
    ensures
        r == plane.step((sample_width * channels) as nat),
{
    planar_stride(plane, sample_width * channels)
}

/// The number of samples of `sample_width` bytes, `stride` bytes apart, that fit into `len` bytes.
pub fn max_planar_frames(len: usize, stride: usize, sample_width: usize) -> (r: usize)
    requires
        len < usize::MAX || sample_width > 0 || stride > 1,
    ensures
        r == spans::item_count(len as nat, stride as nat, sample_width as nat),
{
    if stride == 0 || len < sample_width {
        0
    } else {
        assert(((len - sample_width) as nat) / (stride as nat) <= (len - sample_width) as nat)
            by (nonlinear_arith)
            requires
                stride > 0,
                len >= sample_width,
        ;
        if len == usize::MAX && sample_width == 0 {
            assert(((len - sample_width) as nat) / (stride as nat) < (len - sample_width) as nat)
                by (nonlinear_arith)
                requires
                    stride > 1,
                    len > 0,
                    sample_width == 0,
            ;
        }
        1 + (len - sample_width) / stride
    }
}

/// The samples of one frame of interleaved audio.
fn interleaved_frame(
    bytes: &[u8],
    format: AudioFormat,
    width: usize,
    channels: usize,
    at: usize,
) -> (r: Vec<RawSample>)
    requires
        format.width() == Some(width as nat),
        at + width * channels <= bytes.len(),
    ensures
        r@ == Seq::new(
            channels as nat,
            |c: int| sample_at(format, bytes@, at + c * width),
        ),
{
    let mut frame: Vec<RawSample> = Vec::new();
    for c in 0..channels
        invariant
            format.width() == Some(width as nat),
            at + width * channels <= bytes.len(),
            frame@.len() == c,
            forall|k: int|
                0 <= k < c ==> #[trigger] frame@[k] == sample_at(format, bytes@, at + k * width),
    {
        proof {
            assert(0 <= c * width && c * width + width <= width * channels) by (nonlinear_arith)
                requires
                    0 <= c,
                    c + 1 <= channels,
                    0 <= width,
            ;
        }
        let start: usize = at + c * width;
        let end: usize = start + width;
        match decode_sample(format, &bytes[start..end]) {
            Ok(sample) => frame.push(sample),
            Err(_) => {},
        }
    }
    assert(frame@ =~= Seq::new(
        channels as nat,
        |c: int| sample_at(format, bytes@, at + c * width),
    ));
    frame
}

/// The frames of interleaved audio, if there are any.
fn decode_interleaved_audio(
    planes: &[BufferPlane],
    sample_format: AudioFormat,
    channels: usize,
) -> (r: Result<Option<Vec<Vec<RawSample>>>, DecodeError>)
    requires
        channels > 0,
    ensures
        match sample_format.width() {
            Some(width) => match r {
                Ok(Some(frames)) => frames@.len() > 0 && frames_view(frames@) == interleaved_frames(
                    planes@,
                    sample_format,
                    channels as nat,
                ),
                Ok(None) => interleaved_frames(planes@, sample_format, channels as nat).len() == 0,
                Err(_) => false,
            },
            None => r is Err && r->Err_0 == DecodeError::UnsupportedFormat,
        },
{
    let width: usize = match sample_width_bytes(sample_format) {
        Ok(width) => width,
        Err(error) => {
            return Err(error);
        },
    };
    if planes.len() == 0 {
        return Ok(None);
    }
    let bytes: &[u8] = match sliced_data_bytes(&planes[0]) {
        Some(bytes) => bytes,
        None => {
            return Ok(None);
        },
    };
    if channels > bytes.len() / width {
        proof {
            assert(bytes@.len() < width * channels) by (nonlinear_arith)
                requires
                    channels > (bytes@.len() as int) / (width as int),
                    width > 0,
            ;
        }
        return Ok(None);
    }
    proof {
        assert(width * channels <= bytes@.len()) by (nonlinear_arith)
            requires
                channels <= (bytes@.len() as int) / (width as int),
                width > 0,
        ;
        assert(width * channels > 0) by (nonlinear_arith)
            requires
                width > 0,
                channels > 0,
        ;
    }
    let frame_width: usize = width * channels;
    let stride: usize = interleaved_frame_stride(&planes[0], width, channels);
    let count: usize = max_planar_frames(bytes.len(), stride, frame_width);
    let mut frames: Vec<Vec<RawSample>> = Vec::new();
    let ghost wanted = interleaved_frames(planes@, sample_format, channels as nat);
    for f in 0..count
        invariant
            sample_format.width() == Some(width as nat),
            frame_width == width * channels,
            count == spans::item_count(bytes.len() as nat, stride as nat, frame_width as nat),
            wanted.len() == count,
            forall|k: int|
                0 <= k < count ==> #[trigger] wanted[k] == Seq::new(
                    channels as nat,
                    |c: int| sample_at(sample_format, bytes@, k * stride + c * width),
                ),
            frames@.len() == f,
            forall|k: int| 0 <= k < f ==> (#[trigger] frames@[k])@ == wanted[k],
    {
        proof {
            spans::lemma_item_inside(bytes.len() as nat, stride as nat, frame_width as nat, f as int);
        }
        let at: usize = f * stride;
        let frame: Vec<RawSample> = interleaved_frame(bytes, sample_format, width, channels, at);
        assert(frame@ == wanted[f as int]);
        frames.push(frame);
    }
    assert(frames_view(frames@) =~= wanted);
    if count == 0 {
        Ok(None)
    } else {
        Ok(Some(frames))
    }
}

/// The audio data of one channel: its bytes and the distance between samples.
struct ChannelData<'a> {
    bytes: &'a [u8],
    stride: usize,
}

/// The channel data of a list, as pairs.
spec fn channel_pairs(data: Seq<ChannelData>) -> Seq<(Seq<u8>, nat)> {
    Seq::new(data.len(), |i: int| (data[i].bytes@, data[i].stride as nat))
}

/// The audio data of those of the first `channels` blocks that hold any.
fn usable_planes<'a>(planes: &[BufferPlane<'a>], channels: usize, width: usize) -> (r: Vec<
    ChannelData<'a>,
>)
    ensures
        channel_pairs(r@) == usable(
            if channels <= planes@.len() {
                planes@.take(channels as int)
            } else {
                planes@
            },
            width as nat,
        ),
{
    let count: usize = if channels <= planes.len() {
        channels
    } else {
        planes.len()
    };
    let mut data: Vec<ChannelData<'a>> = Vec::new();
    assert(channel_pairs(data@) =~= usable(planes@.take(0), width as nat));
    for i in 0..count
        invariant
            count <= planes@.len(),
            channel_pairs(data@) == usable(planes@.take(i as int), width as nat),
    {
        assert(planes@.take(i + 1).drop_last() =~= planes@.take(i as int));
        assert(planes@.take(i + 1).last() == planes@[i as int]);
        let ghost before = channel_pairs(data@);
        let stride: usize = planar_stride(&planes[i], width);
        if let Some(bytes) = sliced_data_bytes(&planes[i]) {
            data.push(ChannelData { bytes, stride });
            assert(channel_pairs(data@) =~= before.push((bytes@, stride as nat)));
        }
    }
    assert(planes@.take(planes@.len() as int) =~= planes@);
    data
}

/// The common count is at most the count of each plane.
proof fn lemma_common_count(planes: Seq<(Seq<u8>, nat)>, width: nat, index: int)
    requires
        0 <= index < planes.len(),
    ensures
        common_count(planes, width) <= spans::item_count(planes[index].0.len(), planes[index].1, width),
    decreases planes.len(),
{
    if index < planes.len() - 1 {
        lemma_common_count(planes.drop_last(), width, index);
    }
}

/// The number of samples that each channel holds at least; without channels, none.
fn shared_frame_count(data: &Vec<ChannelData>, width: usize) -> (r: usize)
    requires
        width > 0,
    ensures
        r == common_count(channel_pairs(data@), width as nat),
{
    let mut count: usize = 0;
    let ghost pairs = channel_pairs(data@);
    for i in 0..data.len()
        invariant
            width > 0,
            pairs == channel_pairs(data@),
            count == common_count(pairs.take(i as int), width as nat),
    {
        assert(pairs.take(i + 1).drop_last() =~= pairs.take(i as int));
        let here: usize = max_planar_frames(data[i].bytes.len(), data[i].stride, width);
        assert(pairs.take(i + 1).last() == (data@[i as int].bytes@, data@[i as int].stride as nat));
        if i == 0 || here < count {
            count = here;
        }
    }
    assert(pairs.take(data@.len() as int) =~= pairs);
    count
}

/// The samples of one frame of planar audio.
fn planar_frame(data: &Vec<ChannelData>, format: AudioFormat, width: usize, index: usize) -> (r: Vec<
    RawSample,
>)
    requires
        format.width() == Some(width as nat),
        index < common_count(channel_pairs(data@), width as nat),
    ensures
        r@ == Seq::new(
            data@.len(),
            |p: int|
                sample_at(
                    format,
                    channel_pairs(data@)[p].0,
                    index * channel_pairs(data@)[p].1,
                ),
        ),
{
    let mut frame: Vec<RawSample> = Vec::new();
    let ghost pairs = channel_pairs(data@);
    for p in 0..data.len()
        invariant
            format.width() == Some(width as nat),
            pairs == channel_pairs(data@),
            index < common_count(pairs, width as nat),
            frame@.len() == p,
            forall|k: int|
                0 <= k < p ==> #[trigger] frame@[k] == sample_at(
                    format,
                    pairs[k].0,
                    index * pairs[k].1,
                ),
    {
        let bytes: &[u8] = data[p].bytes;
        let stride: usize = data[p].stride;
        proof {
            lemma_common_count(pairs, width as nat, p as int);
            spans::lemma_item_inside(bytes.len() as nat, stride as nat, width as nat, index as int);
        }
        let start: usize = index * stride;
        let end: usize = start + width;
        match decode_sample(format, &bytes[start..end]) {
            Ok(sample) => frame.push(sample),
            Err(_) => {},
        }
    }
    assert(frame@ =~= Seq::new(
        data@.len(),
        |p: int| sample_at(format, pairs[p].0, index * pairs[p].1),
    ));
    frame
}

/// The frames of planar audio, if there are any.
fn decode_planar_audio(
    planes: &[BufferPlane],
    sample_format: AudioFormat,
    channels: usize,
) -> (r: Result<Option<Vec<Vec<RawSample>>>, DecodeError>)
    ensures
        match sample_format.width() {
            Some(width) => match r {
                Ok(Some(frames)) => frames@.len() > 0 && frames_view(frames@) == planar_frames(
                    planes@,
                    sample_format,
                    channels as nat,
                ),
                Ok(None) => planar_frames(planes@, sample_format, channels as nat).len() == 0,
                Err(_) => false,
            },
            None => r is Err && r->Err_0 == DecodeError::UnsupportedFormat,
        },
{
    let width: usize = match sample_width_bytes(sample_format) {
        Ok(width) => width,
        Err(error) => {
            return Err(error);
        },
    };
    let data: Vec<ChannelData> = usable_planes(planes, channels, width);
    let count: usize = shared_frame_count(&data, width);
    let mut frames: Vec<Vec<RawSample>> = Vec::new();
    let ghost wanted = planar_frames(planes@, sample_format, channels as nat);
    let ghost pairs = channel_pairs(data@);
    for f in 0..count
        invariant
            sample_format.width() == Some(width as nat),
            pairs == channel_pairs(data@),
            count == common_count(pairs, width as nat),
            wanted.len() == count,
            forall|k: int|
                0 <= k < count ==> #[trigger] wanted[k] == Seq::new(
                    pairs.len(),
                    |p: int| sample_at(sample_format, pairs[p].0, k * pairs[p].1),
                ),
            frames@.len() == f,
            forall|k: int| 0 <= k < f ==> (#[trigger] frames@[k])@ == wanted[k],
    {
        let frame: Vec<RawSample> = planar_frame(&data, sample_format, width, f);
        assert(frame@ =~= wanted[f as int]);
        frames.push(frame);
    }
    assert(frames_view(frames@) =~= wanted);
    if count == 0 {
        Ok(None)
    } else {
        Ok(Some(frames))
    }
}

/// The frames of a captured buffer, each with one sample for every channel that has data, or
/// none if the buffer holds no whole frame.
pub fn decode_audio_buffer(planes: &[BufferPlane], observed_format: ObservedAudioFormat) -> (r:
    Result<Option<Vec<Vec<RawSample>>>, DecodeError>)
    ensures
        match buffer_error(observed_format) {
            Some(error) => r is Err && r->Err_0 == error,
            None => match r {
                Ok(Some(frames)) => frames@.len() > 0 && frames_view(frames@) == buffer_frames(
                    planes@,
                    observed_format,
                ),
                Ok(None) => buffer_frames(planes@, observed_format).len() == 0,
                Err(_) => false,
            },
        },
{
    let channels: usize = observed_format.channels as usize;
    if channels == 0 {
        return Err(DecodeError::ZeroChannels);
    }
    if observed_format.is_planar() {
        decode_planar_audio(planes, observed_format.sample_format, channels)
    } else {
        decode_interleaved_audio(planes, observed_format.sample_format, channels)
    }
}

/// A big-endian sample is the little-endian one with its bytes in reverse.
pub proof fn law_byte_orders_mirror_each_other(bytes: Seq<u8>)
    ensures
        sample_value(AudioFormat::F32BE, bytes) == sample_value(
            AudioFormat::F32LE,
            bytes.reverse(),
        ),
        sample_value(AudioFormat::F64BE, bytes) == sample_value(
            AudioFormat::F64LE,
            bytes.reverse(),
        ),
        sample_value(AudioFormat::S16BE, bytes) == sample_value(
            AudioFormat::S16LE,
            bytes.reverse(),
        ),
        sample_value(AudioFormat::S32BE, bytes) == sample_value(
            AudioFormat::S32LE,
            bytes.reverse(),
        ),
{
}

/// The lowest `count` bytes of a number, the low one first.
pub open spec fn le_bytes(n: nat, count: nat) -> Seq<u8>
    decreases count,
{
    if count == 0 {
        Seq::empty()
    } else {
        seq![(n % 256) as u8] + le_bytes(n / 256, (count - 1) as nat)
    }
}

/// The number of `2 * half` values that stands for a signed one.
pub open spec fn unsigned(n: int, half: int) -> nat {
    (if n < 0 {
        n + 2 * half
    } else {
        n
    }) as nat
}

/// A sample is read back from its bytes.
pub proof fn law_samples_are_read_back(s8: i8, s16: i16, s32: i32, bits32: u32, bits64: u64)
    ensures
        sample_value(AudioFormat::S8, le_bytes(unsigned(s8 as int, 0x80), 1))
            == RawSample::Signed8(s8),
        sample_value(AudioFormat::S16LE, le_bytes(unsigned(s16 as int, 0x8000), 2))
            == RawSample::Signed16(s16),
        sample_value(AudioFormat::S32LE, le_bytes(unsigned(s32 as int, 0x8000_0000), 4))
            == RawSample::Signed32(s32),
        sample_value(AudioFormat::F32LE, le_bytes(bits32 as nat, 4)) == RawSample::Float32(bits32),
        sample_value(AudioFormat::F64LE, le_bytes(bits64 as nat, 8)) == RawSample::Float64(bits64),
{
    reveal_with_fuel(le_bytes, 9);
    let bytes = le_bytes(bits64 as nat, 8);
    let high = (bits64 as nat) / 0x1_0000_0000;
    assert(le4(bytes.take(4)) == bits64 % 0x1_0000_0000);
    assert(le4(bytes.skip(4)) == high);
}

/// All frames of a buffer have as many samples: one for each channel in interleaved audio, and in
/// planar audio one for each channel with data, of which there is at least one.
pub proof fn law_frames_have_one_size(
    planes: Seq<BufferPlane>,
    format: AudioFormat,
    channels: nat,
    f: int,
    g: int,
)
    ensures
        0 <= f < interleaved_frames(planes, format, channels).len() ==> interleaved_frames(
            planes,
            format,
            channels,
        )[f].len() == channels,
        0 <= f < planar_frames(planes, format, channels).len() ==> 1 <= planar_frames(
            planes,
            format,
            channels,
        )[f].len() <= channels,
        0 <= f < planar_frames(planes, format, channels).len() && 0 <= g < planar_frames(
            planes,
            format,
            channels,
        ).len() ==> planar_frames(planes, format, channels)[f].len() == planar_frames(
            planes,
            format,
            channels,
        )[g].len(),
{
    let first = if channels <= planes.len() {
        planes.take(channels as int)
    } else {
        planes
    };
    lemma_usable_len(first, format.width()->0);
}

/// No more planes are usable than there are.
proof fn lemma_usable_len(planes: Seq<BufferPlane>, width: nat)
    ensures
        usable(planes, width).len() <= planes.len(),
    decreases planes.len(),
{
    if planes.len() > 0 {
        lemma_usable_len(planes.drop_last(), width);
    }
}

/// With a single channel the two layouts give the same frames.
pub proof fn law_single_channel_layouts_agree(planes: Seq<BufferPlane>, format: AudioFormat)
    requires
        format.width() is Some,
    ensures
        interleaved_frames(planes, format, 1) == planar_frames(planes, format, 1),
{
    let width = format.width()->0;
    assert(width * 1 == width) by (nonlinear_arith);
    let inter = interleaved_frames(planes, format, 1);
    let planar = planar_frames(planes, format, 1);
    if planes.len() > 0 {
        let first = planes.take(1);
        assert(first.drop_last() =~= Seq::<BufferPlane>::empty());
        assert(first.last() == planes[0]);
        reveal_with_fuel(usable, 2);
        let used = usable(first, width);
        if planes[0].chunk() is Some {
            let pair = (planes[0].chunk()->0, planes[0].step(width));
            assert(used =~= seq![pair]);
            reveal_with_fuel(common_count, 2);
            assert(inter.len() == planar.len());
            assert forall|f: int| 0 <= f < inter.len() implies inter[f] =~= planar[f] by {
                assert(0 * width == 0) by (nonlinear_arith);
            }
        }
    }
    assert(inter =~= planar);
}

/// The number of bytes of a sample, and whether channels have planes of their own, by the name of
/// the format: the number of bits is in the name, and planar formats end in `P`.
pub proof fn law_formats_by_name(planar: bool)
    ensures
        AudioFormat::U8.width() == Some(1nat) && !AudioFormat::U8.planar(),
        AudioFormat::S8.width() == Some(1nat) && !AudioFormat::S8.planar(),
        AudioFormat::S16LE.width() == Some(2nat) && !AudioFormat::S16LE.planar(),
        AudioFormat::S16BE.width() == Some(2nat) && !AudioFormat::S16BE.planar(),
        AudioFormat::S32LE.width() == Some(4nat) && !AudioFormat::S32LE.planar(),
        AudioFormat::S32BE.width() == Some(4nat) && !AudioFormat::S32BE.planar(),
        AudioFormat::F32LE.width() == Some(4nat) && !AudioFormat::F32LE.planar(),
        AudioFormat::F32BE.width() == Some(4nat) && !AudioFormat::F32BE.planar(),
        AudioFormat::F64LE.width() == Some(8nat) && !AudioFormat::F64LE.planar(),
        AudioFormat::F64BE.width() == Some(8nat) && !AudioFormat::F64BE.planar(),
        AudioFormat::U8P.width() == Some(1nat) && AudioFormat::U8P.planar(),
        AudioFormat::S8P.width() == Some(1nat) && AudioFormat::S8P.planar(),
        AudioFormat::S16P.width() == Some(2nat) && AudioFormat::S16P.planar(),
        AudioFormat::S32P.width() == Some(4nat) && AudioFormat::S32P.planar(),
        AudioFormat::F32P.width() == Some(4nat) && AudioFormat::F32P.planar(),
        AudioFormat::F64P.width() == Some(8nat) && AudioFormat::F64P.planar(),
        AudioFormat::S24_32LE.width() is None && AudioFormat::S24_32BE.width() is None,
        AudioFormat::S24LE.width() is None && AudioFormat::S24BE.width() is None,
        AudioFormat::U16LE.width() is None && AudioFormat::U16BE.width() is None,
        AudioFormat::U32LE.width() is None && AudioFormat::U32BE.width() is None,
        AudioFormat::ULAW.width() is None && AudioFormat::ALAW.width() is None,
        AudioFormat::S24P.width() is None && AudioFormat::S24P.planar(),
        AudioFormat::S24_32P.width() is None && AudioFormat::S24_32P.planar(),
        (AudioFormat::Unlisted { planar }).width() is None,
        (AudioFormat::Unlisted { planar }).planar() == planar,
{
}

/// The bytes of a little-endian sample weigh 1, 256, 65536 and so on; in signed samples the upper
/// half of the numbers stands for the negative ones.
pub proof fn law_bytes_of_a_sample_weigh_by_position(b: Seq<u8>)
    requires
        b.len() == 8,
    ensures
        match sample_value(AudioFormat::S16LE, b.take(2)) {
            RawSample::Signed16(v) => v == b[0] + 256 * b[1] - (if b[1] >= 128 {
                65536int
            } else {
                0
            }),
            _ => false,
        },
        match sample_value(AudioFormat::S32LE, b.take(4)) {
            RawSample::Signed32(v) => v == b[0] + 256 * b[1] + 65536 * b[2] + 16777216 * b[3] - (
            if b[3] >= 128 {
                4294967296int
            } else {
                0
            }),
            _ => false,
        },
        match sample_value(AudioFormat::F32LE, b.take(4)) {
            RawSample::Float32(bits) => bits == b[0] + 256 * b[1] + 65536 * b[2] + 16777216 * b[3],
            _ => false,
        },
        match sample_value(AudioFormat::F64LE, b) {
            RawSample::Float64(bits) => bits == b[0] + 256 * b[1] + 65536 * b[2] + 16777216 * b[3]
                + 4294967296 * (b[4] + 256 * b[5] + 65536 * b[6] + 16777216 * b[7]),
            _ => false,
        },
        sample_value(AudioFormat::U8, b.take(1)) == RawSample::Unsigned8(b[0]),
        match sample_value(AudioFormat::S8, b.take(1)) {
            RawSample::Signed8(v) => v == b[0] - (if b[0] >= 128 {
                256int
            } else {
                0
            }),
            _ => false,
        },
{
}

/// Planar formats hold their samples as the little-endian or one-byte formats of the same width do.
pub proof fn law_planar_samples_are_little_endian(bytes: Seq<u8>)
    ensures
        sample_value(AudioFormat::S16P, bytes) == sample_value(AudioFormat::S16LE, bytes),
        sample_value(AudioFormat::S32P, bytes) == sample_value(AudioFormat::S32LE, bytes),
        sample_value(AudioFormat::F32P, bytes) == sample_value(AudioFormat::F32LE, bytes),
        sample_value(AudioFormat::F64P, bytes) == sample_value(AudioFormat::F64LE, bytes),
        sample_value(AudioFormat::U8P, bytes) == sample_value(AudioFormat::U8, bytes),
        sample_value(AudioFormat::S8P, bytes) == sample_value(AudioFormat::S8, bytes),
{
}

/// The sample is one that the format can hold.
pub open spec fn suits(format: AudioFormat, sample: RawSample) -> bool {
    match format {
        AudioFormat::F32LE | AudioFormat::F32BE | AudioFormat::F32P => sample is Float32,
        AudioFormat::F64LE | AudioFormat::F64BE | AudioFormat::F64P => sample is Float64,
        AudioFormat::S16LE | AudioFormat::S16BE | AudioFormat::S16P => sample is Signed16,
        AudioFormat::S32LE | AudioFormat::S32BE | AudioFormat::S32P => sample is Signed32,
        AudioFormat::U8 | AudioFormat::U8P => sample is Unsigned8,
        AudioFormat::S8 | AudioFormat::S8P => sample is Signed8,
        _ => false,
    }
}

/// The bytes that a sample is written as.
pub open spec fn sample_bytes(format: AudioFormat, sample: RawSample) -> Seq<u8> {
    let low_first = match sample {
        RawSample::Float32(bits) => le_bytes(bits as nat, 4),
        RawSample::Float64(bits) => le_bytes(bits as nat, 8),
        RawSample::Signed16(v) => le_bytes(unsigned(v as int, 0x8000), 2),
        RawSample::Signed32(v) => le_bytes(unsigned(v as int, 0x8000_0000), 4),
        RawSample::Unsigned8(v) => le_bytes(v as nat, 1),
        RawSample::Signed8(v) => le_bytes(unsigned(v as int, 0x80), 1),
    };
    match format {
        AudioFormat::F32BE | AudioFormat::F64BE | AudioFormat::S16BE | AudioFormat::S32BE => {
            low_first.reverse()
        },
        _ => low_first,
    }
}

/// Whatever is written in a format is read back from it.
pub proof fn law_written_samples_are_read_back(format: AudioFormat, sample: RawSample)
    requires
        suits(format, sample),
    ensures
        sample_bytes(format, sample).len() == format.width()->0,
        sample_value(format, sample_bytes(format, sample)) == sample,
{
    reveal_with_fuel(le_bytes, 9);
    match sample {
        RawSample::Float32(bits) => law_samples_are_read_back(0, 0, 0, bits, 0),
        RawSample::Float64(bits) => law_samples_are_read_back(0, 0, 0, 0, bits),
        RawSample::Signed16(v) => law_samples_are_read_back(0, v, 0, 0, 0),
        RawSample::Signed32(v) => law_samples_are_read_back(0, 0, v, 0, 0),
        RawSample::Unsigned8(v) => {},
        RawSample::Signed8(v) => law_samples_are_read_back(v, 0, 0, 0, 0),
    }
    let bytes = sample_bytes(format, sample);
    assert(bytes.reverse().reverse() =~= bytes);
    let low_first = bytes.reverse();
    assert(low_first.reverse() =~= bytes);
}

/// The bytes of a block that hold audio data are those from its offset on, as many as its size says
/// and the block has.
pub proof fn law_chunks_lie_behind_the_offset(plane: BufferPlane)
    ensures
        match plane.bytes {
            None => plane.chunk() is None,
            Some(bytes) => {
                &&& plane.chunk() is None <==> plane.offset >= bytes@.len() || plane.size == 0
                &&& plane.chunk() is Some ==> {
                    let chunk = plane.chunk()->0;
                    &&& chunk.len() <= plane.size
                    &&& plane.offset + chunk.len() <= bytes@.len()
                    &&& chunk.len() == plane.size || plane.offset + chunk.len() == bytes@.len()
                    &&& forall|i: int|
                        0 <= i < chunk.len() ==> #[trigger] chunk[i] == bytes@[plane.offset + i]
                }
            },
        },
{
}

/// Frames that were written one stride apart into the data of a block, the samples of all channels
/// one after the other, are what the block is decoded to, however many they are.
pub proof fn law_interleaved_frames_come_back(
    planes: Seq<BufferPlane>,
    format: ObservedAudioFormat,
    data: Seq<u8>,
    frames: Seq<Seq<RawSample>>,
    width: nat,
    stride: nat,
)
    requires
        format.channels > 0,
        !format.sample_format.planar(),
        format.sample_format.width() == Some(width),
        planes.len() > 0,
        planes[0].chunk() == Some(data),
        stride == (if planes[0].stride >= width * format.channels {
            planes[0].stride as int
        } else {
            width * format.channels
        }),
        frames.len() > 0 ==> (frames.len() - 1) * stride + width * format.channels <= data.len(),
        frames.len() * stride + width * format.channels > data.len(),
        forall|f: int| 0 <= f < frames.len() ==> (#[trigger] frames[f]).len() == format.channels,
        forall|f: int, c: int|
            0 <= f < frames.len() && 0 <= c < format.channels ==> suits(
                format.sample_format,
                #[trigger] frames[f][c],
            ) && data.subrange(f * stride + c * width, f * stride + c * width + width)
                == sample_bytes(format.sample_format, frames[f][c]),
    ensures
        buffer_frames(planes, format) == frames,
{
    let channels = format.channels as nat;
    let got = buffer_frames(planes, format);
    assert(width * channels >= 1) by (nonlinear_arith)
        requires
            width >= 1,
            channels >= 1,
    ;
    spans::law_as_many_items_as_fit(data.len(), stride, width * channels, frames.len());
    assert(got.len() == frames.len());
    assert forall|f: int| 0 <= f < frames.len() implies got[f] =~= frames[f] by {
        assert forall|c: int| 0 <= c < channels implies got[f][c] == frames[f][c] by {
            law_written_samples_are_read_back(format.sample_format, frames[f][c]);
        }
    }
    assert(got =~= frames);
}

/// Changing the data of a block outside of one frame leaves that frame as it is.
pub proof fn law_interleaved_frames_keep_apart(
    planes: Seq<BufferPlane>,
    others: Seq<BufferPlane>,
    format: ObservedAudioFormat,
    width: nat,
    stride: nat,
    f: int,
)
    requires
        format.channels > 0,
        !format.sample_format.planar(),
        format.sample_format.width() == Some(width),
        planes.len() > 0,
        others.len() > 0,
        planes[0].chunk() is Some,
        others[0].chunk() is Some,
        planes[0].chunk()->0.len() == others[0].chunk()->0.len(),
        planes[0].stride == others[0].stride,
        stride == (if planes[0].stride >= width * format.channels {
            planes[0].stride as int
        } else {
            width * format.channels
        }),
        0 <= f < buffer_frames(planes, format).len(),
        forall|i: int|
            f * stride <= i < f * stride + width * format.channels ==> planes[0].chunk()->0[i]
                == #[trigger] others[0].chunk()->0[i],
    ensures
        buffer_frames(others, format).len() == buffer_frames(planes, format).len(),
        buffer_frames(others, format)[f] == buffer_frames(planes, format)[f],
{
    let channels = format.channels as nat;
    let a = planes[0].chunk()->0;
    let b = others[0].chunk()->0;
    spans::lemma_item_inside(a.len(), stride, width * channels, f);
    assert forall|c: int| 0 <= c < channels implies buffer_frames(planes, format)[f][c]
        == buffer_frames(others, format)[f][c] by {
        let at = f * stride + c * width;
        assert(0 <= c * width && c * width + width <= width * channels) by (nonlinear_arith)
            requires
                0 <= c,
                c + 1 <= channels,
                width >= 0,
        ;
        assert(a.subrange(at, at + width) =~= b.subrange(at, at + width));
    }
    assert(buffer_frames(planes, format)[f] =~= buffer_frames(others, format)[f]);
}

/// The positions of the blocks that a planar buffer is decoded from: those of the first ones, one
/// for each channel, that hold data, in order.
pub open spec fn are_used(picks: Seq<int>, planes: Seq<BufferPlane>, channels: int) -> bool {
    &&& forall|p: int|
        0 <= p < picks.len() ==> 0 <= #[trigger] picks[p] < planes.len() && picks[p] < channels
            && planes[picks[p]].chunk() is Some
    &&& forall|p: int, q: int|
        0 <= p < q < picks.len() ==> #[trigger] picks[p] < #[trigger] picks[q]
    &&& forall|i: int|
        0 <= i < planes.len() && i < channels && (#[trigger] planes[i]).chunk() is Some
            ==> picks.contains(i)
}

/// The usable blocks are those at the picked positions.
proof fn lemma_usable_picks(planes: Seq<BufferPlane>, width: nat, picks: Seq<int>)
    requires
        are_used(picks, planes, planes.len() as int),
    ensures
        usable(planes, width).len() == picks.len(),
        forall|p: int|
            0 <= p < picks.len() ==> #[trigger] usable(planes, width)[p] == (
                planes[picks[p]].chunk()->0,
                planes[picks[p]].step(width),
            ),
    decreases planes.len(),
{
    if planes.len() == 0 {
        if picks.len() > 0 {
            assert(picks[0] < 0);
        }
    } else {
        let init = planes.drop_last();
        let last = planes.len() - 1;
        if planes.last().chunk() is Some {
            assert(planes[last].chunk() is Some);
            assert(picks.contains(last));
            let at = choose|at: int| 0 <= at < picks.len() && picks[at] == last;
            if at < picks.len() - 1 {
                assert(picks[at] < picks[at + 1]);
            }
            let rest = picks.drop_last();
            assert forall|i: int|
                0 <= i < init.len() && (#[trigger] init[i]).chunk() is Some implies rest.contains(
                i,
            ) by {
                assert(planes[i].chunk() is Some);
                let q = choose|q: int| 0 <= q < picks.len() && picks[q] == i;
                assert(rest[q] == i);
            }
            assert forall|p: int| 0 <= p < rest.len() implies 0 <= #[trigger] rest[p] < init.len()
                && init[rest[p]].chunk() is Some by {
                assert(rest[p] == picks[p] && picks[p] < picks[at]);
            }
            lemma_usable_picks(init, width, rest);
            assert forall|p: int| 0 <= p < picks.len() implies #[trigger] usable(planes, width)[p]
                == (planes[picks[p]].chunk()->0, planes[picks[p]].step(width)) by {
                if p < rest.len() {
                    assert(usable(init, width)[p] == (
                        init[rest[p]].chunk()->0,
                        init[rest[p]].step(width),
                    ));
                }
            }
        } else {
            assert forall|p: int| 0 <= p < picks.len() implies 0 <= #[trigger] picks[p]
                < init.len() && init[picks[p]].chunk() is Some by {
                assert(planes[picks[p]].chunk() is Some);
            }
            assert forall|i: int|
                0 <= i < init.len() && (#[trigger] init[i]).chunk() is Some implies picks.contains(
                i,
            ) by {
                assert(planes[i].chunk() is Some);
            }
            lemma_usable_picks(init, width, picks);
        }
    }
}

/// The common count is the count of some plane.
proof fn lemma_common_count_reached(planes: Seq<(Seq<u8>, nat)>, width: nat)
    requires
        planes.len() > 0,
    ensures
        exists|p: int|
            0 <= p < planes.len() && common_count(planes, width) == #[trigger] spans::item_count(
                planes[p].0.len(),
                planes[p].1,
                width,
            ),
    decreases planes.len(),
{
    let last = planes.len() - 1;
    assert(planes.last() == planes[last]);
    let count = spans::item_count(planes[last].0.len(), planes[last].1, width);
    if common_count(planes, width) != count {
        let init = planes.drop_last();
        lemma_common_count_reached(init, width);
        let p = choose|p: int|
            0 <= p < init.len() && common_count(init, width) == #[trigger] spans::item_count(
                init[p].0.len(),
                init[p].1,
                width,
            );
        assert(spans::item_count(planes[p].0.len(), planes[p].1, width) == common_count(
            planes,
            width,
        ));
    }
}

/// Frames of which each channel was written, sample by sample one stride apart, into the data of a
/// block of its own are what the blocks are decoded to, however many they are, as far as every
/// channel goes.
pub proof fn law_planar_frames_come_back(
    planes: Seq<BufferPlane>,
    format: ObservedAudioFormat,
    picks: Seq<int>,
    strides: Seq<int>,
    frames: Seq<Seq<RawSample>>,
    width: nat,
)
    requires
        format.channels > 0,
        format.sample_format.planar(),
        format.sample_format.width() == Some(width),
        are_used(picks, planes, format.channels as int),
        picks.len() > 0,
        strides.len() == picks.len(),
        forall|p: int|
            0 <= p < picks.len() ==> #[trigger] strides[p] == (if planes[picks[p]].stride >= width {
                planes[picks[p]].stride as int
            } else {
                width as int
            }),
        frames.len() > 0 ==> forall|p: int|
            0 <= p < picks.len() ==> (frames.len() - 1) * (#[trigger] strides[p]) + width
                <= planes[picks[p]].chunk()->0.len(),
        exists|p: int|
            0 <= p < picks.len() && frames.len() * (#[trigger] strides[p]) + width
                > planes[picks[p]].chunk()->0.len(),
        forall|f: int| 0 <= f < frames.len() ==> (#[trigger] frames[f]).len() == picks.len(),
        forall|f: int, p: int|
            0 <= f < frames.len() && 0 <= p < picks.len() ==> suits(
                format.sample_format,
                #[trigger] frames[f][p],
            ) && planes[picks[p]].chunk()->0.subrange(f * strides[p], f * strides[p] + width)
                == sample_bytes(format.sample_format, frames[f][p]),
    ensures
        buffer_frames(planes, format) == frames,
{
    let channels = format.channels as nat;
    let first = if channels <= planes.len() {
        planes.take(channels as int)
    } else {
        planes
    };
    assert(are_used(picks, first, first.len() as int)) by {
        assert forall|p: int| 0 <= p < picks.len() implies 0 <= #[trigger] picks[p] < first.len()
            && first[picks[p]].chunk() is Some by {
            assert(planes[picks[p]].chunk() is Some);
        }
        assert forall|i: int|
            0 <= i < first.len() && (#[trigger] first[i]).chunk() is Some implies picks.contains(
            i,
        ) by {
            assert(planes[i].chunk() is Some);
        }
    }
    lemma_usable_picks(first, width, picks);
    let used = usable(first, width);
    let n = frames.len();
    assert forall|p: int| 0 <= p < picks.len() implies (#[trigger] used[p]).0
        == planes[picks[p]].chunk()->0 && used[p].1 == strides[p] by {
        assert(first[picks[p]] == planes[picks[p]]);
        assert(strides[p] == (if planes[picks[p]].stride >= width {
            planes[picks[p]].stride as int
        } else {
            width as int
        }));
    }
    let got = buffer_frames(planes, format);
    let count = common_count(used, width);
    lemma_common_count_reached(used, width);
    let least = choose|p: int|
        0 <= p < used.len() && common_count(used, width) == #[trigger] spans::item_count(
            used[p].0.len(),
            used[p].1,
            width,
        );
    spans::law_as_many_items_as_fit(used[least].0.len(), used[least].1, width, count);
    let full = choose|p: int|
        0 <= p < picks.len() && frames.len() * (#[trigger] strides[p]) + width
            > planes[picks[p]].chunk()->0.len();
    lemma_common_count(used, width, full);
    let at_full = spans::item_count(used[full].0.len(), used[full].1, width);
    spans::law_as_many_items_as_fit(used[full].0.len(), used[full].1, width, at_full);
    if count < n {
        let s = strides[least];
        assert(count * s <= (n - 1) * s) by (nonlinear_arith)
            requires
                count <= n - 1,
                s >= 0,
        ;
        assert(used[least].1 == strides[least]);
    }
    if count > n {
        let s = strides[full];
        assert(n * s <= (at_full - 1) * s) by (nonlinear_arith)
            requires
                n <= at_full - 1,
                s >= 0,
        ;
        assert(used[full].1 == strides[full]);
    }
    assert(got.len() == n);
    assert forall|f: int| 0 <= f < n implies got[f] =~= frames[f] by {
        assert forall|p: int| 0 <= p < picks.len() implies got[f][p] == frames[f][p] by {
            law_written_samples_are_read_back(format.sample_format, frames[f][p]);
            assert(used[p].1 == strides[p]);
        }
    }
    assert(got =~= frames);
}

/// Without a block that holds data a buffer is decoded to no frame at all.
pub proof fn law_buffers_without_data_are_empty(
    planes: Seq<BufferPlane>,
    format: ObservedAudioFormat,
)
    requires
        format.channels > 0,
        format.sample_format.width() is Some,
        forall|i: int| 0 <= i < planes.len() ==> (#[trigger] planes[i]).chunk() is None,
    ensures
        buffer_frames(planes, format).len() == 0,
{
    let channels = format.channels as nat;
    let first = if channels <= planes.len() {
        planes.take(channels as int)
    } else {
        planes
    };
    lemma_usable_picks(first, format.sample_format.width()->0, Seq::<int>::empty());
}

/// Decoding fails exactly without channels, and for formats whose samples have no known width.
pub proof fn law_decoding_fails_only_on_the_format(format: ObservedAudioFormat)
    ensures
        buffer_error(format) == Some(DecodeError::ZeroChannels) <==> format.channels == 0,
        buffer_error(format) == Some(DecodeError::UnsupportedFormat) <==> format.channels != 0
            && format.sample_format.width() is None,
        buffer_error(format) is None <==> format.channels != 0
            && format.sample_format.width() is Some,
{
}

/// A format is told with its rate and its channels in full, and an unsupported one by its name.
pub proof fn law_formats_are_told_in_full(format: ObservedAudioFormat, name: Seq<char>)
    ensures
        format.text(name) == name + ", "@ + text::decimal(format.sample_rate as nat) + " Hz, "@
            + text::decimal(format.channels as nat) + " channel(s), "@ + (
        if format.sample_format.planar() {
            "planar"@
        } else {
            "interleaved"@
        }),
        DecodeError::UnsupportedFormat.text(name)
            == "unsupported negotiated sample format for prototype capture: "@ + name,
        DecodeError::ZeroChannels.text(name) == "PipeWire negotiated zero audio channels"@,
{
}

/// The sample of channel `c` in frame `f` of an interleaved buffer is made of the bytes that lie
/// `f` strides and `c` samples behind the beginning of its data, for every frame that fits.
pub proof fn law_interleaved_samples_lie_at_their_stride(
    planes: Seq<BufferPlane>,
    format: ObservedAudioFormat,
    data: Seq<u8>,
    width: nat,
    stride: nat,
    f: int,
    c: int,
)
    requires
        format.channels > 0,
        !format.sample_format.planar(),
        format.sample_format.width() == Some(width),
        planes.len() > 0,
        planes[0].chunk() == Some(data),
        stride == (if planes[0].stride >= width * format.channels {
            planes[0].stride as int
        } else {
            width * format.channels
        }),
        0 <= f,
        0 <= c < format.channels,
    ensures
        f < buffer_frames(planes, format).len() <==> f * stride + width * format.channels
            <= data.len(),
        f < buffer_frames(planes, format).len() ==> {
            &&& buffer_frames(planes, format)[f].len() == format.channels
            &&& buffer_frames(planes, format)[f][c] == sample_value(
                format.sample_format,
                data.subrange(f * stride + c * width, f * stride + c * width + width),
            )
        },
{
    let channels = format.channels as nat;
    let n = buffer_frames(planes, format).len();
    assert(width * channels >= 1) by (nonlinear_arith)
        requires
            width >= 1,
            channels >= 1,
    ;
    spans::law_as_many_items_as_fit(data.len(), stride, width * channels, n);
    if f < n {
        spans::lemma_item_inside(data.len(), stride, width * channels, f);
    } else {
        assert(n * stride <= f * stride) by (nonlinear_arith)
            requires
                n <= f,
                stride >= 0,
        ;
    }
}

/// The sample of channel `p` in frame `f` of a planar buffer is made of the bytes that lie `f`
/// strides behind the beginning of the data of that channel, for every frame that fits all of them.
pub proof fn law_planar_samples_lie_at_their_stride(
    planes: Seq<BufferPlane>,
    format: ObservedAudioFormat,
    picks: Seq<int>,
    width: nat,
    stride: nat,
    f: int,
    p: int,
)
    requires
        format.channels > 0,
        format.sample_format.planar(),
        format.sample_format.width() == Some(width),
        are_used(picks, planes, format.channels as int),
        0 <= p < picks.len(),
        stride == (if planes[picks[p]].stride >= width {
            planes[picks[p]].stride as int
        } else {
            width as int
        }),
        0 <= f < buffer_frames(planes, format).len(),
    ensures
        buffer_frames(planes, format)[f].len() == picks.len(),
        f * stride + width <= planes[picks[p]].chunk()->0.len(),
        buffer_frames(planes, format)[f][p] == sample_value(
            format.sample_format,
            planes[picks[p]].chunk()->0.subrange(f * stride, f * stride + width),
        ),
{
    let channels = format.channels as nat;
    let first = if channels <= planes.len() {
        planes.take(channels as int)
    } else {
        planes
    };
    assert(are_used(picks, first, first.len() as int)) by {
        assert forall|q: int| 0 <= q < picks.len() implies 0 <= #[trigger] picks[q] < first.len()
            && first[picks[q]].chunk() is Some by {
            assert(planes[picks[q]].chunk() is Some);
        }
        assert forall|i: int|
            0 <= i < first.len() && (#[trigger] first[i]).chunk() is Some implies picks.contains(
            i,
        ) by {
            assert(planes[i].chunk() is Some);
        }
    }
    lemma_usable_picks(first, width, picks);
    let used = usable(first, width);
    assert(used[p] == (first[picks[p]].chunk()->0, first[picks[p]].step(width)));
    assert(first[picks[p]] == planes[picks[p]]);
    lemma_common_count(used, width, p);
    spans::lemma_item_inside(used[p].0.len(), used[p].1, width, f);
}

/// A number tells its low digit from the rest.
proof fn lemma_digit(low: int, rest: int, other_low: int, other_rest: int, base: int)
    requires
        0 <= low < base,
        0 <= other_low < base,
        low + base * rest == other_low + base * other_rest,
    ensures
        low == other_low,
        rest == other_rest,
{
    assert(rest == other_rest) by (nonlinear_arith)
        requires
            0 <= low < base,
            0 <= other_low < base,
            low + base * rest == other_low + base * other_rest,
    ;
}

/// Four bytes are told by the number that they denote.
proof fn lemma_le4_injective(a: Seq<u8>, b: Seq<u8>)
    requires
        le4(a) == le4(b),
    ensures
        a[0] == b[0],
        a[1] == b[1],
        a[2] == b[2],
        a[3] == b[3],
        0 <= le4(a) < 0x1_0000_0000,
{
    let a1 = a[1] + 0x100 * a[2] + 0x1_0000 * a[3];
    let b1 = b[1] + 0x100 * b[2] + 0x1_0000 * b[3];
    lemma_digit(a[0] as int, a1, b[0] as int, b1, 0x100);
    let a2 = a[2] + 0x100 * a[3];
    let b2 = b[2] + 0x100 * b[3];
    lemma_digit(a[1] as int, a2, b[1] as int, b2, 0x100);
    lemma_digit(a[2] as int, a[3] as int, b[2] as int, b[3] as int, 0x100);
}

/// Eight bytes are told by the number that they denote.
proof fn lemma_le8_injective(a: Seq<u8>, b: Seq<u8>)
    requires
        a.len() == 8,
        b.len() == 8,
        le8(a) == le8(b),
    ensures
        a == b,
{
    let (al, ah, bl, bh) = (a.take(4), a.skip(4), b.take(4), b.skip(4));
    lemma_le4_injective(al, al);
    lemma_le4_injective(bl, bl);
    lemma_digit(le4(al), le4(ah), le4(bl), le4(bh), 0x1_0000_0000);
    lemma_le4_injective(al, bl);
    lemma_le4_injective(ah, bh);
    assert(al =~= bl);
    assert(ah =~= bh);
    assert(a =~= al + ah);
    assert(b =~= bl + bh);
}

/// Different bytes, low one first, are different samples.
proof fn lemma_low_first_bytes_apart(format: AudioFormat, a: Seq<u8>, b: Seq<u8>)
    requires
        format is F32LE || format is F64LE || format is S16LE || format is S32LE || format is U8
            || format is S8,
        a.len() == format.width()->0,
        b.len() == format.width()->0,
        sample_value(format, a) == sample_value(format, b),
    ensures
        a == b,
{
    match format {
        AudioFormat::F64LE => {
            lemma_le4_injective(a.take(4), a.take(4));
            lemma_le4_injective(a.skip(4), a.skip(4));
            lemma_le4_injective(b.take(4), b.take(4));
            lemma_le4_injective(b.skip(4), b.skip(4));
            lemma_le8_injective(a, b);
        },
        AudioFormat::S16LE => {
            lemma_digit(a[0] as int, a[1] as int, b[0] as int, b[1] as int, 0x100);
        },
        AudioFormat::F32LE | AudioFormat::S32LE => {
            lemma_le4_injective(a, a);
            lemma_le4_injective(b, b);
            lemma_le4_injective(a, b);
        },
        _ => {},
    }
    assert(a =~= b);
}

/// Different bytes are different samples.
pub proof fn law_samples_tell_bytes_apart(format: AudioFormat, a: Seq<u8>, b: Seq<u8>)
    requires
        format.width() is Some,
        a.len() == format.width()->0,
        b.len() == format.width()->0,
        sample_value(format, a) == sample_value(format, b),
    ensures
        a == b,
{
    let (x, y) = (a.reverse(), b.reverse());
    assert(x.reverse() =~= a);
    assert(y.reverse() =~= b);
    law_byte_orders_mirror_each_other(a);
    law_byte_orders_mirror_each_other(b);
    law_planar_samples_are_little_endian(a);
    law_planar_samples_are_little_endian(b);
    match format {
        AudioFormat::F32BE => lemma_low_first_bytes_apart(AudioFormat::F32LE, x, y),
        AudioFormat::S32BE => lemma_low_first_bytes_apart(AudioFormat::S32LE, x, y),
        AudioFormat::S16BE => lemma_low_first_bytes_apart(AudioFormat::S16LE, x, y),
        AudioFormat::F64BE => lemma_low_first_bytes_apart(AudioFormat::F64LE, x, y),
        AudioFormat::F32P => lemma_low_first_bytes_apart(AudioFormat::F32LE, a, b),
        AudioFormat::S32P => lemma_low_first_bytes_apart(AudioFormat::S32LE, a, b),
        AudioFormat::S16P => lemma_low_first_bytes_apart(AudioFormat::S16LE, a, b),
        AudioFormat::F64P => lemma_low_first_bytes_apart(AudioFormat::F64LE, a, b),
        AudioFormat::U8P => lemma_low_first_bytes_apart(AudioFormat::U8, a, b),
        AudioFormat::S8P => lemma_low_first_bytes_apart(AudioFormat::S8, a, b),
        _ => lemma_low_first_bytes_apart(format, a, b),
    }
}

/// Bytes of the wrong number are refused by the name of the format, and the error says so.
pub proof fn law_width_errors_by_name(name: Seq<char>)
    ensures
        width_error(AudioFormat::F32LE) == DecodeError::InvalidF32Width,
        width_error(AudioFormat::F32BE) == DecodeError::InvalidF32Width,
        width_error(AudioFormat::F32P) == DecodeError::InvalidF32Width,
        width_error(AudioFormat::F64LE) == DecodeError::InvalidF64Width,
        width_error(AudioFormat::F64BE) == DecodeError::InvalidF64Width,
        width_error(AudioFormat::F64P) == DecodeError::InvalidF64Width,
        width_error(AudioFormat::S16LE) == DecodeError::InvalidS16Width,
        width_error(AudioFormat::S16BE) == DecodeError::InvalidS16Width,
        width_error(AudioFormat::S16P) == DecodeError::InvalidS16Width,
        width_error(AudioFormat::S32LE) == DecodeError::InvalidS32Width,
        width_error(AudioFormat::S32BE) == DecodeError::InvalidS32Width,
        width_error(AudioFormat::S32P) == DecodeError::InvalidS32Width,
        DecodeError::InvalidF32Width.text(name) == "invalid f32 sample width"@,
        DecodeError::InvalidF64Width.text(name) == "invalid f64 sample width"@,
        DecodeError::InvalidS16Width.text(name) == "invalid s16 sample width"@,
        DecodeError::InvalidS32Width.text(name) == "invalid s32 sample width"@,
{
}

/// The view of frames shows each frame at its place.
pub proof fn law_frames_are_shown_in_place(frames: Seq<Vec<RawSample>>, i: int)
    requires
        0 <= i < frames.len(),
    ensures
        frames_view(frames).len() == frames.len(),
        frames_view(frames)[i] == frames[i]@,
{
}

/// A planar buffer has every frame whose samples fit the data of all its channels.
pub proof fn law_planar_frames_that_fit_are_there(
    planes: Seq<BufferPlane>,
    format: ObservedAudioFormat,
    picks: Seq<int>,
    width: nat,
    f: int,
)
    requires
        format.channels > 0,
        format.sample_format.planar(),
        format.sample_format.width() == Some(width),
        are_used(picks, planes, format.channels as int),
        picks.len() > 0,
        0 <= f,
        forall|p: int|
            0 <= p < picks.len() ==> f * (if planes[#[trigger] picks[p]].stride >= width {
                planes[picks[p]].stride as int
            } else {
                width as int
            }) + width <= planes[picks[p]].chunk()->0.len(),
    ensures
        f < buffer_frames(planes, format).len(),
{
    let channels = format.channels as nat;
    let first = if channels <= planes.len() {
        planes.take(channels as int)
    } else {
        planes
    };
    assert(are_used(picks, first, first.len() as int)) by {
        assert forall|q: int| 0 <= q < picks.len() implies 0 <= #[trigger] picks[q] < first.len()
            && first[picks[q]].chunk() is Some by {
            assert(planes[picks[q]].chunk() is Some);
        }
        assert forall|i: int|
            0 <= i < first.len() && (#[trigger] first[i]).chunk() is Some implies picks.contains(
            i,
        ) by {
            assert(planes[i].chunk() is Some);
        }
    }
    lemma_usable_picks(first, width, picks);
    let used = usable(first, width);
    lemma_common_count_reached(used, width);
    let least = choose|p: int|
        0 <= p < used.len() && common_count(used, width) == #[trigger] spans::item_count(
            used[p].0.len(),
            used[p].1,
            width,
        );
    assert(used[least] == (first[picks[least]].chunk()->0, first[picks[least]].step(width)));
    assert(first[picks[least]] == planes[picks[least]]);
    let n = common_count(used, width);
    let stride = used[least].1;
    spans::law_as_many_items_as_fit(used[least].0.len(), stride, width, n);
    if n <= f {
        assert(n * stride <= f * stride) by (nonlinear_arith)
            requires
                n <= f,
                stride >= 0,
        ;
    }
}

/// Samples lie as far apart as the stride of their block says, unless that is too short for one.
pub proof fn law_strides_leave_room(plane: BufferPlane, width: nat)
    ensures
        plane.stride >= width ==> plane.step(width) == plane.stride,
        plane.stride < width ==> plane.step(width) == width,
{
}

} // verus!
