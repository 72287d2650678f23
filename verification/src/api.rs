//! What the functions of the C interface answer, and what they write into the buffers of their
//! callers.

use crate::dsp::bands::DEFAULT_BAND_COUNT;
use crate::error::{
    AresError, ARES_ABI_VERSION, ARES_ERROR_INVALID_LENGTH, ARES_ERROR_NULL_POINTER, ARES_OK,
    ARES_STATUS_TRUNCATED,
};
use crate::state::{AnalyzerSnapshot, AresRuntime};
use vstd::prelude::*;

verus! {

/// The version of the C interface.
pub fn ares_get_abi_version() -> (r: i32)
    ensures
        r == 1,
{
    ARES_ABI_VERSION
}

/// The number of bands that an analysis has.
pub fn ares_get_band_count() -> (r: i32)
    ensures
        r == DEFAULT_BAND_COUNT,
{
    DEFAULT_BAND_COUNT as i32
}

/// Whether a worker is running, as a number.
pub fn ares_is_running(running: bool) -> (r: i32)
    ensures
        r == (if running {
            1i32
        } else {
            0i32
        }),
{
    if running {
        1
    } else {
        0
    }
}

/// The length of the buffer of a request for bands, or the error with which it is refused: there
/// has to be a buffer, and its length has to be positive.
pub fn check_band_request(out_is_null: bool, len: i32) -> (r: Result<usize, AresError>)
    ensures
        out_is_null ==> r is Err && r->Err_0 is NullPointer,
        !out_is_null && len <= 0 ==> r is Err && r->Err_0 is InvalidLength && r->Err_0.text()
            == "band buffer length must be positive"@,
        !out_is_null && len > 0 ==> r is Ok && r->Ok_0 == len,
{
    if out_is_null {
        return Err(AresError::NullPointer);
    }
    if len <= 0 {
        return Err(AresError::invalid_length("band buffer length must be positive"));
    }
    Ok(len as usize)
}

/// A buffer after the bands have been written into it: as many as it holds, and behind them what
/// was there before.
pub open spec fn bands_written<T>(bands: Seq<T>, before: Seq<T>) -> Seq<T> {
    Seq::new(
        before.len(),
        |i: int|
            if i < bands.len() {
                bands[i]
            } else {
                before[i]
            },
    )
}

/// Writes the bands into a buffer, as many as it holds. A buffer that holds nothing is refused; one
/// that cannot hold all bands is the last error too, and the call says so.
pub fn ares_get_bands<W, T: Copy>(
    runtime: &mut AresRuntime<W>,
    snapshot: &AnalyzerSnapshot<T>,
    output: &mut [T],
) -> (r: i32)
    ensures
        final(output)@ == bands_written(snapshot.bands@, old(output)@),
        final(runtime)@ == (if old(output)@.len() == 0 {
            old(runtime)@.with_error("band buffer length must be positive"@)
        } else if old(output)@.len() < DEFAULT_BAND_COUNT {
            old(runtime)@.with_error("band buffer is shorter than the configured band count"@)
        } else {
            old(runtime)@
        }),
        r == (if old(output)@.len() == 0 {
            ARES_ERROR_INVALID_LENGTH
        } else if old(output)@.len() < DEFAULT_BAND_COUNT {
            ARES_STATUS_TRUNCATED
        } else {
            ARES_OK
        }),
{
    let ghost before = output@;
    if output.len() == 0 {
        assert(output@ =~= bands_written(snapshot.bands@, before));
        return runtime.set_error(AresError::invalid_length("band buffer length must be positive"));
    }
    let copy_len: usize = if output.len() < DEFAULT_BAND_COUNT {
        output.len()
    } else {
        DEFAULT_BAND_COUNT
    };
    for i in 0..copy_len
        invariant
            copy_len <= DEFAULT_BAND_COUNT,
            copy_len <= before.len(),
            output@.len() == before.len(),
            forall|k: int|
                0 <= k < before.len() ==> #[trigger] output@[k] == (if k < i {
                    snapshot.bands@[k]
                } else {
                    before[k]
                }),
    {
        output[i] = snapshot.bands[i];
    }
    assert(output@ =~= bands_written(snapshot.bands@, before));
    if copy_len < DEFAULT_BAND_COUNT {
        let _ = runtime.set_error(
            AresError::invalid_length("band buffer is shorter than the configured band count"),
        );
        ARES_STATUS_TRUNCATED
    } else {
        ARES_OK
    }
}

/// The loudness of the latest analysis.
pub fn ares_get_rms<T: Copy>(snapshot: &AnalyzerSnapshot<T>) -> (r: T)
    ensures
        r == snapshot.rms,
{
    snapshot.rms
}

/// The highest level of the latest analysis.
pub fn ares_get_peak<T: Copy>(snapshot: &AnalyzerSnapshot<T>) -> (r: T)
    ensures
        r == snapshot.peak,
{
    snapshot.peak
}

/// The return code with which a request for the last error is refused, if it is: there has to be
/// a buffer, and it has to have room for the closing zero.
pub fn check_error_request(buffer_is_null: bool, len: usize) -> (r: Option<i32>)
    ensures
        r == (if buffer_is_null {
            Some(ARES_ERROR_NULL_POINTER)
        } else if len == 0 {
            Some(ARES_ERROR_INVALID_LENGTH)
        } else {
            None
        }),
{
    if buffer_is_null {
        Some(ARES_ERROR_NULL_POINTER)
    } else if len == 0 {
        Some(ARES_ERROR_INVALID_LENGTH)
    } else {
        None
    }
}

/// How many bytes of a message go into a buffer that is not empty, next to the closing zero.
pub open spec fn copied_bytes(message: Seq<u8>, room: nat) -> nat {
    if message.len() < room {
        message.len()
    } else {
        (room - 1) as nat
    }
}

/// A buffer after a message has been written into it: as much of the message as there is room
/// for, a closing zero, and behind it what was there before. Nothing goes into an empty buffer.
pub open spec fn written(message: Seq<u8>, before: Seq<u8>) -> Seq<u8> {
    if before.len() == 0 {
        before
    } else {
        let count = copied_bytes(message, before.len()) as int;
        message.take(count) + seq![0u8] + before.skip(count + 1)
    }
}

/// Writes a message into a buffer, with a closing zero. The call says when the message does not
/// fit, and refuses an empty buffer.
pub fn ares_get_last_error(message: &str, buffer: &mut [u8]) -> (r: i32)
    ensures
        final(buffer)@ == written(vstd::utf8::encode_utf8(message@), old(buffer)@),
        r == (if old(buffer)@.len() == 0 {
            ARES_ERROR_INVALID_LENGTH
        } else if vstd::utf8::encode_utf8(message@).len() < old(buffer)@.len() {
            ARES_OK
        } else {
            ARES_STATUS_TRUNCATED
        }),
{
    if buffer.len() == 0 {
        return ARES_ERROR_INVALID_LENGTH;
    }
    let bytes: &[u8] = message.as_bytes();
    let copy_len: usize = if bytes.len() < buffer.len() {
        bytes.len()
    } else {
        buffer.len() - 1
    };
    let ghost before = buffer@;
    for i in 0..copy_len
        invariant
            copy_len < before.len(),
            copy_len <= bytes@.len(),
            buffer@.len() == before.len(),
            forall|k: int|
                0 <= k < before.len() ==> #[trigger] buffer@[k] == (if k < i {
                    bytes@[k]
                } else {
                    before[k]
                }),
    {
        buffer[i] = bytes[i];
    }
    buffer[copy_len] = 0;
    assert(buffer@ =~= written(bytes@, before));
    if copy_len < bytes.len() {
        ARES_STATUS_TRUNCATED
    } else {
        ARES_OK
    }
}

/// A buffer keeps its length, holds a prefix of the message behind which a zero stands, and holds
/// the whole message exactly when the call does not report it as truncated.
pub proof fn law_last_error_is_readable(message: Seq<u8>, before: Seq<u8>)
    requires
        before.len() > 0,
    ensures
        written(message, before).len() == before.len(),
        written(message, before)[copied_bytes(message, before.len()) as int] == 0,
        copied_bytes(message, before.len()) <= message.len(),
        written(message, before).take(copied_bytes(message, before.len()) as int) == message.take(
            copied_bytes(message, before.len()) as int,
        ),
        message.len() < before.len() <==> copied_bytes(message, before.len()) == message.len(),
{
    let count = copied_bytes(message, before.len()) as int;
    assert(written(message, before).take(count) =~= message.take(count));
}

/// A buffer for all bands gets all of them, and a smaller one the first of them; its length stays.
pub proof fn law_bands_are_copied<T>(bands: Seq<T>, before: Seq<T>)
    ensures
        bands_written(bands, before).len() == before.len(),
        before.len() >= bands.len() ==> bands_written(bands, before).take(bands.len() as int)
            == bands,
        before.len() < bands.len() ==> bands_written(bands, before) == bands.take(
            before.len() as int,
        ),
{
    if before.len() >= bands.len() {
        assert(bands_written(bands, before).take(bands.len() as int) =~= bands);
    } else {
        assert(bands_written(bands, before) =~= bands.take(before.len() as int));
    }
}

/// As much of a message as there is room for goes into a buffer, byte for byte, and what lies
/// behind the closing zero stays.
pub proof fn law_messages_are_written_byte_for_byte(message: Seq<u8>, before: Seq<u8>, i: int)
    requires
        0 <= i < before.len(),
    ensures
        written(message, before).len() == before.len(),
        i < message.len() && i + 1 < before.len() ==> written(message, before)[i] == message[i],
        i == message.len() ==> written(message, before)[i] == 0,
        i + 1 == before.len() && message.len() >= before.len() ==> written(message, before)[i] == 0,
        i > message.len() ==> written(message, before)[i] == before[i],
        written(message, Seq::empty()).len() == 0,
{
}

/// Each place of a buffer for bands gets the band of its number, and places behind the last band
/// stay.
pub proof fn law_bands_keep_their_places<T>(bands: Seq<T>, before: Seq<T>, i: int)
    requires
        0 <= i < before.len(),
    ensures
        i < bands.len() ==> bands_written(bands, before)[i] == bands[i],
        i >= bands.len() ==> bands_written(bands, before)[i] == before[i],
{
}

} // verus!
