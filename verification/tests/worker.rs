use spectrum_ares::backend::pipewire::capture::{
    AudioLevelSnapshot, CaptureEvent, CaptureRunSummary, CaptureTarget, CaptureTargetId,
    PipeWireCaptureError,
};
use spectrum_ares::backend::pipewire::discovery::DiscoveredSource;
use spectrum_ares::backend::pipewire::registry::{
    source_from_global, ObjectType, RegistryGlobal,
};
use spectrum_ares::backend::pipewire::worker::{
    handle_capture_event, rediscovery_sleep, session_ended, session_started, sleep_with_stop, worker_step, Effects,
    ErrorUpdate, SleepStep, WorkerEvent, WorkerPhase, REDISCOVERY_INTERVAL, STOP_POLL_INTERVAL,
};
use spectrum_ares::backend::pipewire::{
    DiscoveryOutcome, PipeWireRuntimeSnapshot, PipeWireRuntimeStatus,
};
use spectrum_ares::error::AresError;
use spectrum_ares::state::{AnalyzerSnapshot, AresRuntime, SharedAnalyzerState};

type Event = CaptureEvent<String, String>;

fn source() -> DiscoveredSource {
    let global = RegistryGlobal { id: 138, object_type: ObjectType::Client, props: None };
    let mut source = source_from_global(&global).unwrap();
    source.node_name = Some("audio-src".to_string());
    source
}

fn target() -> CaptureTarget {
    CaptureTarget {
        node_id: 138,
        object_serial: Some(312),
        display_name: "audio-src".to_string(),
        node_name: None,
    }
}

fn changed(old: &str, new: &str) -> Event {
    CaptureEvent::StateChanged {
        old: old.to_string(),
        new: new.to_string(),
        capture_node_id: None,
    }
}

fn check(effects: &Effects, reset: bool, error: Option<&str>, status: Option<(PipeWireRuntimeStatus, &str)>) {
    assert_eq!(effects.reset_shared, reset);
    match (&effects.last_error, error) {
        (ErrorUpdate::Keep, None) => {}
        (ErrorUpdate::Clear, Some("")) => {}
        (ErrorUpdate::Replace(message), Some(wanted)) => assert_eq!(message, wanted),
        (other, wanted) => panic!("{:?} {:?}", other, wanted),
    }
    let recorded = effects.status.as_ref().map(|status| (status.status, status.detail.as_str()));
    assert_eq!(recorded, status);
}

#[test]
fn sleep_with_stop_exits_immediately_when_stop_is_already_set() {
    assert_eq!(
        sleep_with_stop(true, 0, 2_000_000_000),
        SleepStep::Finished { completed: false }
    );
}

#[test]
fn sleeps_are_cut_into_short_pauses() {
    assert_eq!(
        sleep_with_stop(false, 0, REDISCOVERY_INTERVAL),
        SleepStep::Pause(STOP_POLL_INTERVAL)
    );
    assert_eq!(
        sleep_with_stop(false, REDISCOVERY_INTERVAL - 7, REDISCOVERY_INTERVAL),
        SleepStep::Pause(7)
    );
    assert_eq!(
        sleep_with_stop(false, REDISCOVERY_INTERVAL, REDISCOVERY_INTERVAL),
        SleepStep::Finished { completed: true }
    );
    assert_eq!(
        sleep_with_stop(true, REDISCOVERY_INTERVAL, REDISCOVERY_INTERVAL),
        SleepStep::Finished { completed: false }
    );
}

#[test]
fn the_next_discovery_is_due_after_two_seconds() {
    let mut elapsed = 0_u128;
    let mut pauses = 0;
    loop {
        match rediscovery_sleep(false, elapsed) {
            SleepStep::Pause(pause) => {
                elapsed += pause;
                pauses += 1;
            }
            SleepStep::Finished { completed } => {
                assert!(completed);
                break;
            }
        }
    }
    assert_eq!(elapsed, 2_000_000_000);
    assert_eq!(pauses, 20);
    assert_eq!(
        rediscovery_sleep(true, 300_000_000),
        SleepStep::Finished { completed: false }
    );
}

#[test]
fn the_worker_lives_until_a_stop_is_requested() {
    let request_at = 40;
    let mut event = WorkerEvent::Started;
    let mut rounds = 0;
    for at in 0..50 {
        let requested = at >= request_at;
        event = match worker_step(event).next {
            WorkerPhase::BeginRound => WorkerEvent::RoundBegins { stop_requested: requested },
            WorkerPhase::Discover => {
                rounds += 1;
                WorkerEvent::Discovered(match rounds % 3 {
                    0 => Err(AresError::backend("no core")),
                    1 => Ok(DiscoveryOutcome::Waiting { reason: "no stream".to_string() }),
                    _ => Ok(DiscoveryOutcome::Ready { source: source(), target: target() }),
                })
            }
            WorkerPhase::Capture { source, .. } => {
                let lost = PipeWireCaptureError::Stream("gone".to_string());
                let ended = session_ended::<u8>(source.display_name(), requested, Err(lost));
                WorkerEvent::SessionEnded { stopped_normally: ended.0, stop_requested: requested }
            }
            WorkerPhase::Sleep => match rediscovery_sleep(requested, REDISCOVERY_INTERVAL) {
                SleepStep::Finished { completed } => WorkerEvent::SleepEnded { completed },
                SleepStep::Pause(pause) => panic!("{}", pause),
            },
            WorkerPhase::Stopped => {
                assert!(requested);
                assert!(at <= request_at + 3);
                return;
            }
        };
    }
    panic!("the worker did not stop");
}

#[test]
fn a_stop_request_is_followed_from_every_phase() {
    let waiting = DiscoveryOutcome::Waiting { reason: "no stream".to_string() };
    let ready = DiscoveryOutcome::Ready { source: source(), target: target() };
    for first in [
        WorkerEvent::Started,
        WorkerEvent::Discovered(Ok(waiting)),
        WorkerEvent::Discovered(Ok(ready)),
        WorkerEvent::Discovered(Err(AresError::backend("no core"))),
    ] {
        let second = match worker_step(first).next {
            WorkerPhase::BeginRound => WorkerEvent::RoundBegins { stop_requested: true },
            WorkerPhase::Capture { .. } => {
                WorkerEvent::SessionEnded { stopped_normally: false, stop_requested: true }
            }
            WorkerPhase::Sleep => WorkerEvent::SleepEnded { completed: false },
            other => panic!("{:?}", other),
        };
        let step = worker_step(second);
        assert!(step.effects.reset_shared);
        assert!(matches!(step.next, WorkerPhase::Stopped));
    }
}

#[test]
fn notices_change_nothing() {
    let event = CaptureEvent::Info { message: "hello".to_string() };
    check(&handle_capture_event(&event), false, None, None);
}

#[test]
fn stream_states_set_the_status() {
    check(
        &handle_capture_event(&changed("Unconnected", "Connecting")),
        false,
        None,
        Some((
            PipeWireRuntimeStatus::Starting,
            "PipeWire stream state: Unconnected -> Connecting",
        )),
    );
    check(
        &handle_capture_event(&changed("Paused", "Unconnected")),
        false,
        None,
        Some((
            PipeWireRuntimeStatus::Starting,
            "PipeWire stream state: Paused -> Unconnected",
        )),
    );
    check(
        &handle_capture_event(&changed("Streaming", "Paused")),
        true,
        Some("Spotify stream is paused or waiting for audio"),
        Some((
            PipeWireRuntimeStatus::PausedOrSilent,
            "Spotify stream is paused or waiting for audio",
        )),
    );
    check(
        &handle_capture_event(&changed("Paused", "Streaming")),
        false,
        Some(""),
        Some((PipeWireRuntimeStatus::Capturing, "capturing Spotify audio")),
    );
    check(
        &handle_capture_event(&changed("Streaming", "Error(gone)")),
        false,
        None,
        None,
    );
}

#[test]
fn formats_and_levels_set_the_status() {
    let event = CaptureEvent::FormatNegotiated { format: "F32LE, 48000 Hz".to_string() };
    check(
        &handle_capture_event(&event),
        false,
        None,
        Some((
            PipeWireRuntimeStatus::Starting,
            "negotiated format: F32LE, 48000 Hz",
        )),
    );
    let event = CaptureEvent::Levels {
        format: "F32LE".to_string(),
        levels: AudioLevelSnapshot {
            rms: "0.12500".to_string(),
            peak: "0.25000".to_string(),
            frames: 1024,
        },
        buffers_processed: 17,
    };
    check(
        &handle_capture_event(&event),
        false,
        Some(""),
        Some((
            PipeWireRuntimeStatus::Capturing,
            "capturing Spotify audio (buffers=17, rms=0.12500, peak=0.25000)",
        )),
    );
}

#[test]
fn warnings_about_pauses_give_silence() {
    let text = "no audio buffers received for 750 ms; Spotify may be paused or corked";
    let event = CaptureEvent::Warning { message: text.to_string() };
    check(
        &handle_capture_event(&event),
        true,
        Some(text),
        Some((PipeWireRuntimeStatus::PausedOrSilent, text)),
    );
    let text = "failed to parse stream format: EINVAL";
    let event = CaptureEvent::Warning { message: text.to_string() };
    check(&handle_capture_event(&event), false, Some(text), None);
}

#[test]
fn the_worker_goes_round() {
    let step = worker_step(WorkerEvent::Started);
    check(
        &step.effects,
        true,
        Some(""),
        Some((
            PipeWireRuntimeStatus::Starting,
            "starting PipeWire Spotify backend",
        )),
    );
    assert!(matches!(step.next, WorkerPhase::BeginRound));

    let step = worker_step(WorkerEvent::RoundBegins { stop_requested: false });
    check(
        &step.effects,
        true,
        None,
        Some((
            PipeWireRuntimeStatus::Discovering,
            "discovering Spotify PipeWire playback source",
        )),
    );
    assert!(matches!(step.next, WorkerPhase::Discover));

    let ready = DiscoveryOutcome::Ready { source: source(), target: target() };
    let step = worker_step(WorkerEvent::Discovered(Ok(ready)));
    check(&step.effects, false, Some(""), None);
    match step.next {
        WorkerPhase::Capture { source: captured, target: wanted } => {
            assert_eq!(captured, source());
            assert_eq!(wanted, target());
        }
        other => panic!("{:?}", other),
    }

    let ended = WorkerEvent::SessionEnded { stopped_normally: false, stop_requested: false };
    let step = worker_step(ended);
    check(
        &step.effects,
        false,
        None,
        Some((
            PipeWireRuntimeStatus::Reconnecting,
            "rediscovering Spotify playback source in 2000 ms",
        )),
    );
    assert!(matches!(step.next, WorkerPhase::Sleep));

    let step = worker_step(WorkerEvent::SleepEnded { completed: true });
    check(&step.effects, false, None, None);
    assert!(matches!(step.next, WorkerPhase::BeginRound));
}

#[test]
fn the_worker_waits_in_silence() {
    let waiting = DiscoveryOutcome::Waiting { reason: "no stream".to_string() };
    let step = worker_step(WorkerEvent::Discovered(Ok(waiting)));
    check(
        &step.effects,
        true,
        Some("no stream"),
        Some((PipeWireRuntimeStatus::WaitingForSpotify, "no stream")),
    );
    assert!(matches!(step.next, WorkerPhase::Sleep));

    let step = worker_step(WorkerEvent::Discovered(Err(AresError::backend("no core"))));
    check(
        &step.effects,
        true,
        Some("no core"),
        Some((PipeWireRuntimeStatus::Error, "no core")),
    );
    assert!(matches!(step.next, WorkerPhase::Sleep));
}

#[test]
fn the_worker_stops_when_asked() {
    for event in [
        WorkerEvent::RoundBegins { stop_requested: true },
        WorkerEvent::SessionEnded { stopped_normally: true, stop_requested: false },
        WorkerEvent::SessionEnded { stopped_normally: false, stop_requested: true },
        WorkerEvent::SleepEnded { completed: false },
    ] {
        let step = worker_step(event);
        check(
            &step.effects,
            true,
            None,
            Some((PipeWireRuntimeStatus::Stopped, "PipeWire backend stopped")),
        );
        assert!(matches!(step.next, WorkerPhase::Stopped));
    }
}

#[test]
fn captures_say_what_they_connect_to() {
    check(
        &session_started(&source(), &target()),
        false,
        None,
        Some((
            PipeWireRuntimeStatus::Starting,
            "connecting to Spotify source `audio-src` via object.serial=312",
        )),
    );
}

#[test]
fn lost_streams_leave_silence() {
    let summary = CaptureRunSummary::<u8> {
        target_id: CaptureTargetId::ObjectSerial(312),
        capture_node_id: None,
        observed_format: None,
        last_levels: None,
        buffers_processed: 42,
    };
    let (stopped, effects) = session_ended("audio-src", false, Ok(summary));
    assert!(!stopped);
    let text = "Spotify stream `audio-src` stopped after 42 buffers; rediscovering";
    check(
        &effects,
        true,
        Some(text),
        Some((PipeWireRuntimeStatus::StreamLost, text)),
    );

    let lost = || PipeWireCaptureError::Stream("gone".to_string());
    let (stopped, effects) = session_ended::<u8>("audio-src", false, Err(lost()));
    assert!(!stopped);
    let text = "Spotify stream `audio-src` was lost: gone";
    check(
        &effects,
        true,
        Some(text),
        Some((PipeWireRuntimeStatus::StreamLost, text)),
    );

    let (stopped, effects) = session_ended::<u8>("audio-src", true, Err(lost()));
    assert!(stopped);
    check(&effects, false, None, None);
}

#[test]
fn effects_are_brought_about() {
    let mut shared = SharedAnalyzerState::new(0.0_f32);
    let mut runtime = AresRuntime::<u8>::new();
    let mut recorded = PipeWireRuntimeSnapshot::initial();
    let mut loud = AnalyzerSnapshot::silence(0.0_f32);
    loud.peak = 1.0;
    shared.write_snapshot(loud);

    let event = CaptureEvent::Warning { message: "odd".to_string() };
    handle_capture_event(&event).apply(&mut shared, &mut runtime, &mut recorded);
    assert_eq!(shared.read_snapshot().peak, 1.0);
    assert_eq!(runtime.last_error(), "odd");
    assert_eq!(recorded, PipeWireRuntimeSnapshot::initial());

    let event = CaptureEvent::Info { message: "hello".to_string() };
    handle_capture_event(&event).apply(&mut shared, &mut runtime, &mut recorded);
    assert_eq!(runtime.last_error(), "odd");

    handle_capture_event(&changed("Paused", "Streaming")).apply(
        &mut shared,
        &mut runtime,
        &mut recorded,
    );
    assert_eq!(shared.read_snapshot().peak, 1.0);
    assert_eq!(runtime.last_error(), "");
    assert_eq!(recorded.status, PipeWireRuntimeStatus::Capturing);

    handle_capture_event(&changed("Streaming", "Paused")).apply(
        &mut shared,
        &mut runtime,
        &mut recorded,
    );
    assert_eq!(shared.read_snapshot().peak, 0.0);
    assert_eq!(
        runtime.last_error(),
        "Spotify stream is paused or waiting for audio"
    );
    assert_eq!(recorded.status, PipeWireRuntimeStatus::PausedOrSilent);
}
