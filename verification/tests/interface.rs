use spectrum_ares::api::{
    ares_get_abi_version, ares_get_band_count, ares_get_bands, ares_get_last_error, ares_get_peak,
    ares_get_rms, ares_is_running, check_band_request, check_error_request,
};
use spectrum_ares::backend::BackendKind;
use spectrum_ares::dsp::bands::DEFAULT_BAND_COUNT;
use spectrum_ares::error::{
    AresError, ARES_ERROR_BACKEND, ARES_ERROR_INVALID_LENGTH, ARES_ERROR_NULL_POINTER, ARES_OK,
    ARES_STATUS_TRUNCATED,
};
use spectrum_ares::state::{AnalyzerSnapshot, AresRuntime, SharedAnalyzerState, StartStep};

struct Worker {
    running: bool,
    result: Option<Result<(), AresError>>,
}

struct Interface {
    runtime: AresRuntime<Worker>,
    shared: SharedAnalyzerState<f32>,
}

impl Interface {
    fn new() -> Self {
        Interface {
            runtime: AresRuntime::new(),
            shared: SharedAnalyzerState::new(0.0),
        }
    }

    fn worker_running(&mut self) -> bool {
        self.runtime.worker().is_some_and(|worker| worker.running)
    }

    fn reap(&mut self) {
        let finished = self.runtime.worker().and_then(|worker| worker.result.take());
        self.runtime.reap_finished_worker(&mut self.shared, finished);
    }

    fn start(&mut self) -> i32 {
        self.reap();
        let running = self.worker_running();
        match self.runtime.start(running) {
            StartStep::AlreadyRunning(code) => code,
            StartStep::Launch => {
                let worker = Worker { running: true, result: None };
                self.runtime.finish_start(Ok((worker, BackendKind::Mock)))
            }
        }
    }

    fn stop(&mut self) -> i32 {
        if let Some(mut worker) = self.runtime.take_worker() {
            worker.running = false;
        }
        self.runtime.finish_stop(&mut self.shared)
    }

    fn is_running(&mut self) -> i32 {
        self.reap();
        let running = self.worker_running();
        ares_is_running(self.runtime.is_running(running))
    }

    fn get_bands(&mut self, output: Option<&mut [f32]>, len: i32) -> i32 {
        match check_band_request(output.is_none(), len) {
            Err(error) => self.runtime.set_error(error),
            Ok(len) => {
                let snapshot = self.shared.read_snapshot();
                ares_get_bands(&mut self.runtime, &snapshot, &mut output.unwrap()[..len])
            }
        }
    }
}

fn message_in(buffer: &[u8]) -> &str {
    let end = buffer.iter().position(|byte| *byte == 0).expect("a closing zero");
    std::str::from_utf8(&buffer[..end]).unwrap()
}

#[test]
fn abi_version_is_current() {
    assert_eq!(ares_get_abi_version(), 1);
}

#[test]
fn start_stop_lifecycle_is_idempotent() {
    let mut interface = Interface::new();
    assert_eq!(interface.is_running(), 0);

    assert_eq!(interface.start(), ARES_OK);
    assert_eq!(interface.is_running(), 1);
    assert_eq!(interface.start(), ARES_OK);
    assert_eq!(interface.is_running(), 1);

    assert_eq!(interface.stop(), ARES_OK);
    assert_eq!(interface.is_running(), 0);
    assert_eq!(interface.stop(), ARES_OK);
}

#[test]
fn get_bands_handles_invalid_pointers_and_lengths() {
    let mut interface = Interface::new();
    assert_eq!(
        interface.get_bands(None, DEFAULT_BAND_COUNT as i32),
        ARES_ERROR_NULL_POINTER
    );

    let mut bands = [0.0_f32; DEFAULT_BAND_COUNT];
    assert_eq!(
        interface.get_bands(Some(&mut bands), 0),
        ARES_ERROR_INVALID_LENGTH
    );
    assert_eq!(
        interface.get_bands(Some(&mut bands), -1),
        ARES_ERROR_INVALID_LENGTH
    );

    let mut partial = [0.0_f32; 8];
    assert_eq!(
        interface.get_bands(Some(&mut partial), 8),
        ARES_STATUS_TRUNCATED
    );
}

#[test]
fn last_error_uses_caller_filled_buffer() {
    let mut interface = Interface::new();
    assert_eq!(interface.get_bands(None, DEFAULT_BAND_COUNT as i32), -1);

    let mut buffer = [0_u8; 64];
    assert_eq!(check_error_request(false, buffer.len()), None);
    assert_eq!(
        ares_get_last_error(&interface.runtime.last_error(), &mut buffer),
        ARES_OK
    );

    assert_eq!(message_in(&buffer), "null output pointer");
}

#[test]
fn last_error_handles_invalid_and_short_buffers() {
    let mut interface = Interface::new();
    assert_eq!(
        interface.get_bands(None, DEFAULT_BAND_COUNT as i32),
        ARES_ERROR_NULL_POINTER
    );

    assert_eq!(check_error_request(true, 64), Some(ARES_ERROR_NULL_POINTER));
    assert_eq!(check_error_request(false, 0), Some(ARES_ERROR_INVALID_LENGTH));

    let mut short = [0_u8; 5];
    assert_eq!(
        ares_get_last_error(&interface.runtime.last_error(), &mut short),
        ARES_STATUS_TRUNCATED
    );

    assert_eq!(message_in(&short), "null");
}

#[test]
fn messages_are_written_as_far_as_there_is_room() {
    let mut buffer = [9_u8; 6];
    assert_eq!(ares_get_last_error("abc", &mut buffer), ARES_OK);
    assert_eq!(buffer, [97, 98, 99, 0, 9, 9]);
    let mut exact = [9_u8; 4];
    assert_eq!(ares_get_last_error("abc", &mut exact), ARES_OK);
    assert_eq!(exact, [97, 98, 99, 0]);
    let mut single = [9_u8; 1];
    assert_eq!(ares_get_last_error("abc", &mut single), ARES_STATUS_TRUNCATED);
    assert_eq!(single, [0]);
    let mut split = [9_u8; 3];
    assert_eq!(ares_get_last_error("a\u{e9}", &mut split), ARES_STATUS_TRUNCATED);
    assert_eq!(split, [97, 0xc3, 0]);
    assert_eq!(ares_get_last_error("", &mut single), ARES_OK);
    assert_eq!(ares_get_last_error("abc", &mut []), ARES_ERROR_INVALID_LENGTH);
}

#[test]
fn bands_are_copied_as_far_as_there_is_room() {
    let mut interface = Interface::new();
    let mut snapshot = AnalyzerSnapshot::silence(0.0_f32);
    for (index, band) in snapshot.bands.iter_mut().enumerate() {
        *band = index as f32;
    }
    snapshot.rms = 0.25;
    snapshot.peak = 0.75;
    interface.shared.write_snapshot(snapshot);

    let mut bands = [-1.0_f32; 70];
    assert_eq!(interface.get_bands(Some(&mut bands), 70), ARES_OK);
    assert_eq!(bands[0], 0.0);
    assert_eq!(bands[63], 63.0);
    assert_eq!(bands[64], -1.0);
    assert_eq!(interface.runtime.last_error(), "");

    let mut partial = [-1.0_f32; 8];
    assert_eq!(interface.get_bands(Some(&mut partial), 7), ARES_STATUS_TRUNCATED);
    assert_eq!(partial, [0.0, 1.0, 2.0, 3.0, 4.0, 5.0, 6.0, -1.0]);
    assert_eq!(
        interface.runtime.last_error(),
        "band buffer is shorter than the configured band count"
    );
    assert_eq!(interface.get_bands(Some(&mut partial), 0), ARES_ERROR_INVALID_LENGTH);
    assert_eq!(
        interface.runtime.last_error(),
        "band buffer length must be positive"
    );

    let snapshot = interface.shared.read_snapshot();
    interface.runtime.clear_last_error_message();
    assert_eq!(
        ares_get_bands(&mut interface.runtime, &snapshot, &mut []),
        ARES_ERROR_INVALID_LENGTH
    );
    assert_eq!(
        interface.runtime.last_error(),
        "band buffer length must be positive"
    );
    assert_eq!(ares_get_rms(&snapshot), 0.25);
    assert_eq!(ares_get_peak(&snapshot), 0.75);
    assert_eq!(ares_get_band_count(), 64);

    interface.shared.reset();
    let snapshot = interface.shared.read_snapshot();
    assert!(snapshot.bands.iter().all(|band| *band == 0.0));
    assert_eq!((snapshot.rms, snapshot.peak), (0.0, 0.0));
}

#[test]
fn stopping_leaves_silence_and_no_error() {
    let mut interface = Interface::new();
    let _ = interface.start();
    assert_eq!(interface.runtime.active_backend_kind(), Some(BackendKind::Mock));
    let mut loud = AnalyzerSnapshot::silence(0.0_f32);
    loud.rms = 1.0;
    interface.shared.write_snapshot(loud);
    interface.runtime.set_last_error_message("waiting");
    assert_eq!(interface.runtime.last_error(), "waiting");

    assert_eq!(interface.stop(), ARES_OK);
    assert_eq!(interface.runtime.active_backend_kind(), None);
    assert_eq!(interface.runtime.last_error(), "");
    assert_eq!(interface.shared.read_snapshot().rms, 0.0);
}

#[test]
fn failures_are_reported() {
    let mut interface = Interface::new();
    assert_eq!(interface.runtime.start(false), StartStep::Launch);
    let failed = interface.runtime.finish_start(Err(AresError::backend("no core")));
    assert_eq!(failed, ARES_ERROR_BACKEND);
    assert_eq!(interface.runtime.last_error(), "no core");
    assert_eq!(interface.is_running(), 0);
    interface.runtime.clear_last_error_message();
    assert_eq!(interface.runtime.last_error(), "");

    let _ = interface.start();
    let worker = interface.runtime.worker().unwrap();
    worker.running = false;
    worker.result = Some(Err(AresError::backend("lost")));
    assert_eq!(interface.is_running(), 0);
    assert_eq!(interface.runtime.active_backend_kind(), None);
    assert_eq!(interface.runtime.last_error(), "lost");

    assert_eq!(interface.start(), ARES_OK);
    assert_eq!(interface.runtime.last_error(), "");
    let worker = interface.runtime.worker().unwrap();
    worker.running = false;
    worker.result = Some(Ok(()));
    interface.runtime.set_last_error_message("kept");
    assert_eq!(interface.is_running(), 0);
    assert_eq!(interface.runtime.last_error(), "kept");
}
