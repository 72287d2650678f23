use spectrum_ares::backend::pipewire::capture::{
    connect_target_id, prepare_capture, sanitize_node_id, stream_state_name, AudioLevelSnapshot,
    BufferStep, CaptureEvent, CaptureProgress, CaptureTarget, CaptureTargetId, FormatReport,
    PipeWireCaptureError, StreamState, LEVEL_EMIT_INTERVAL,
};
use spectrum_ares::backend::pipewire::decode::{
    AudioFormat, BufferPlane, ObservedAudioFormat, RawSample,
};

const SECOND: u128 = 1_000_000_000;

const FORMAT: ObservedAudioFormat = ObservedAudioFormat {
    sample_format: AudioFormat::U8,
    sample_rate: 48_000,
    channels: 1,
};

type Event = CaptureEvent<ObservedAudioFormat, f32>;

fn target(object_serial: Option<u64>) -> CaptureTarget {
    CaptureTarget {
        node_id: 138,
        object_serial,
        display_name: "audio-src".to_string(),
        node_name: Some("audio-src".to_string()),
    }
}

fn progress() -> CaptureProgress<f32> {
    CaptureProgress::new(CaptureTargetId::ObjectSerial(312), 10 * SECOND)
}

fn levels(rms: f32) -> AudioLevelSnapshot<f32> {
    AudioLevelSnapshot { rms, peak: rms, frames: 4 }
}

fn warning(message: &str) -> Event {
    CaptureEvent::Warning { message: message.to_string() }
}

fn negotiated(format: ObservedAudioFormat) -> FormatReport {
    FormatReport::Parsed {
        audio: true,
        raw: true,
        media_type: "Audio".to_string(),
        media_subtype: "Raw".to_string(),
        details: Ok(format),
    }
}

#[test]
fn object_serial_is_preferred_over_global_id() {
    let target = CaptureTarget {
        node_id: 138,
        object_serial: Some(312),
        display_name: "audio-src".to_string(),
        node_name: Some("audio-src".to_string()),
    };

    assert_eq!(
        target.preferred_target_id(),
        CaptureTargetId::ObjectSerial(312)
    );
}

#[test]
fn without_a_serial_the_global_id_is_used() {
    assert_eq!(
        target(None).preferred_target_id(),
        CaptureTargetId::GlobalNodeId(138)
    );
    assert_eq!(connect_target_id(CaptureTargetId::GlobalNodeId(138)), Some(138));
    assert_eq!(connect_target_id(CaptureTargetId::ObjectSerial(312)), None);
    assert_eq!(CaptureTargetId::GlobalNodeId(138).describe(), "global node id=138");
    assert_eq!(CaptureTargetId::ObjectSerial(312).describe(), "object.serial=312");
}

#[test]
fn captures_are_prepared() {
    let setup = prepare_capture(&target(Some(312))).unwrap();
    assert_eq!(setup.target_id, CaptureTargetId::ObjectSerial(312));
    assert_eq!(
        setup.notice,
        "targeting Spotify node audio-src via target.object=object.serial 312"
    );
    assert_eq!(setup.target_object.as_deref(), Some("312"));
    assert_eq!(setup.connect_id, None);

    let setup = prepare_capture(&target(None)).unwrap();
    assert_eq!(
        setup.notice,
        "targeting Spotify node audio-src via global node id 138 fallback"
    );
    assert_eq!(setup.target_object, None);
    assert_eq!(setup.connect_id, Some(138));

    let mut invalid = target(Some(1));
    invalid.node_id = 0;
    let error = prepare_capture(&invalid).unwrap_err();
    assert!(matches!(error, PipeWireCaptureError::InvalidTarget(_)));
    assert_eq!(error.message(), "target node id must be non-zero");
    assert_eq!(
        PipeWireCaptureError::PipeWire("create stream: x".to_string()).message(),
        "create stream: x"
    );
}

#[test]
fn some_numbers_are_no_node_ids() {
    assert_eq!(sanitize_node_id(0), None);
    assert_eq!(sanitize_node_id(u32::MAX), None);
    assert_eq!(sanitize_node_id(1), Some(1));
    assert_eq!(sanitize_node_id(u32::MAX - 1), Some(u32::MAX - 1));
}

#[test]
fn stream_states_have_names() {
    assert_eq!(stream_state_name(&StreamState::Error("io".to_string())), "Error(io)");
    assert_eq!(stream_state_name(&StreamState::Unconnected), "Unconnected");
    assert_eq!(stream_state_name(&StreamState::Connecting), "Connecting");
    assert_eq!(stream_state_name(&StreamState::Paused), "Paused");
    assert_eq!(stream_state_name(&StreamState::Streaming), "Streaming");
}

#[test]
fn a_first_buffer_that_does_not_come_is_reported_once() {
    let mut progress = progress();
    assert_eq!(progress.pending_timer_event(12 * SECOND - 1), None);
    assert_eq!(
        progress.pending_timer_event(12 * SECOND),
        Some(warning("waiting for PipeWire format negotiation and first audio buffers"))
    );
    assert_eq!(progress.pending_timer_event(20 * SECOND), None);

    let mut progress = self::progress();
    let _ = progress.on_param_changed(negotiated(FORMAT));
    assert_eq!(
        progress.pending_timer_event(12 * SECOND),
        Some(warning("connected to PipeWire but no audio buffers have arrived yet"))
    );
    assert_eq!(progress.pending_timer_event(5 * SECOND), None);
}

#[test]
fn levels_are_reported_once_for_each_batch_of_buffers() {
    let mut progress = progress();
    let _ = progress.on_param_changed(negotiated(FORMAT));
    progress.record_buffer(levels(0.25), 11 * SECOND);
    progress.record_buffer(levels(0.5), 11 * SECOND);
    assert_eq!(
        progress.pending_timer_event(11 * SECOND + LEVEL_EMIT_INTERVAL),
        Some(CaptureEvent::Levels { format: FORMAT, levels: levels(0.5), buffers_processed: 2 })
    );
    assert_eq!(progress.pending_timer_event(11 * SECOND + LEVEL_EMIT_INTERVAL), None);
}

#[test]
fn buffers_that_stop_coming_are_reported_once_until_they_come_again() {
    let mut progress = progress();
    let _ = progress.on_param_changed(negotiated(FORMAT));
    progress.record_buffer(levels(0.5), 11 * SECOND);
    let _ = progress.pending_timer_event(11 * SECOND);
    let late = 11 * SECOND + 750_000_000;
    assert_eq!(progress.pending_timer_event(late - 1), None);
    let stalled = warning("no audio buffers received for 750 ms; Spotify may be paused or corked");
    assert_eq!(progress.pending_timer_event(late), Some(stalled));
    assert_eq!(progress.pending_timer_event(late + SECOND), None);

    progress.record_buffer(levels(0.5), late + SECOND);
    let _ = progress.pending_timer_event(late + SECOND);
    let stalled = warning("no audio buffers received for 750 ms; Spotify may be paused or corked");
    assert_eq!(progress.pending_timer_event(late + 2 * SECOND), Some(stalled));
}

#[test]
fn other_steps_do_not_bring_a_notice_back() {
    let mut progress = progress();
    let _ = progress.on_param_changed(negotiated(FORMAT));
    progress.record_buffer(levels(0.5), 11 * SECOND);
    let _ = progress.pending_timer_event(11 * SECOND);
    assert!(progress.pending_timer_event(13 * SECOND).is_some());

    let _ = progress.on_state_changed(5, &StreamState::Streaming, StreamState::Paused);
    assert_eq!(progress.pending_timer_event(14 * SECOND), None);
    let _ = progress.on_param_changed(negotiated(FORMAT));
    let _ = progress.on_buffer(&[], "U8");
    assert_eq!(progress.pending_timer_event(15 * SECOND), None);
    let _ = progress.on_timer(true, None, 16 * SECOND);
    assert_eq!(progress.pending_timer_event(17 * SECOND), None);
}

#[test]
fn events_can_be_cloned() {
    let event = CaptureEvent::Levels { format: FORMAT, levels: levels(0.5), buffers_processed: 2 };
    assert_eq!(event.clone(), event);
    let words: CaptureEvent<String, String> = CaptureEvent::Levels {
        format: "F32LE".to_string(),
        levels: AudioLevelSnapshot {
            rms: "0.5".to_string(),
            peak: "0.5".to_string(),
            frames: 1,
        },
        buffers_processed: 2,
    };
    assert_eq!(words.clone(), words);
}

#[test]
fn a_stop_request_ends_the_capture() {
    let mut progress = progress();
    let step = progress.on_timer(true, Some("stopping"), 11 * SECOND);
    assert!(step.quit);
    assert_eq!(step.event, Some(CaptureEvent::Info { message: "stopping".to_string() }));
    let step = progress.on_timer(true, Some("stopping"), 11 * SECOND);
    assert!(step.quit);
    assert_eq!(step.event, None);

    let mut progress = self::progress();
    let step = progress.on_timer(true, None, 20 * SECOND);
    assert!(step.quit);
    assert_eq!(step.event, None);

    let mut progress = self::progress();
    let step = progress.on_timer(false, Some("stopping"), 20 * SECOND);
    assert!(!step.quit);
    assert!(matches!(step.event, Some(CaptureEvent::Warning { .. })));
}

#[test]
fn state_changes_are_passed_on_and_errors_end_the_capture() {
    let mut progress = progress();
    let step = progress.on_state_changed(0, &StreamState::Unconnected, StreamState::Connecting);
    assert!(!step.quit);
    assert_eq!(
        step.event,
        CaptureEvent::StateChanged {
            old: "Unconnected".to_string(),
            new: "Connecting".to_string(),
            capture_node_id: None
        }
    );
    let step = progress.on_state_changed(77, &StreamState::Connecting, StreamState::Paused);
    assert!(!step.quit);
    let summary = progress.finish().unwrap();
    assert_eq!(summary.target_id, CaptureTargetId::ObjectSerial(312));
    assert_eq!(summary.capture_node_id, Some(77));
    assert_eq!(summary.observed_format, None);
    assert_eq!(summary.last_levels, None);
    assert_eq!(summary.buffers_processed, 0);

    let gone = StreamState::Error("gone".to_string());
    let step = progress.on_state_changed(u32::MAX, &StreamState::Streaming, gone);
    assert!(step.quit);
    assert!(matches!(step.event, CaptureEvent::StateChanged { capture_node_id: None, .. }));
    let error = progress.finish().unwrap_err();
    assert!(matches!(error, PipeWireCaptureError::Stream(_)));
    assert_eq!(error.message(), "gone");
}

#[test]
fn announced_formats_are_taken_over_or_warned_of() {
    let mut progress = progress();
    assert_eq!(progress.on_param_changed(FormatReport::NoParam), None);
    assert_eq!(progress.on_param_changed(FormatReport::OtherParam), None);
    assert_eq!(
        progress.on_param_changed(FormatReport::Unparsed { error: "EINVAL".to_string() }),
        Some(warning("failed to parse stream format: EINVAL"))
    );
    assert_eq!(
        progress.on_param_changed(FormatReport::Parsed {
            audio: false,
            raw: true,
            media_type: "Video".to_string(),
            media_subtype: "Raw".to_string(),
            details: Ok(FORMAT),
        }),
        Some(warning("unsupported PipeWire media format: Video / Raw"))
    );
    assert_eq!(
        progress.on_param_changed(FormatReport::Parsed {
            audio: true,
            raw: true,
            media_type: "Audio".to_string(),
            media_subtype: "Raw".to_string(),
            details: Err("EPROTO".to_string()),
        }),
        Some(warning("failed to parse audio format details: EPROTO"))
    );
    assert_eq!(progress.observed_format, None);
    assert_eq!(
        progress.on_param_changed(negotiated(FORMAT)),
        Some(CaptureEvent::FormatNegotiated { format: FORMAT })
    );
    assert_eq!(progress.summary().observed_format, Some(FORMAT));
}

#[test]
fn buffers_before_a_format_are_warned_of_once() {
    let mut progress = progress();
    match progress.on_buffer(&[], "U8") {
        BufferStep::Warn(event) => assert_eq!(
            event,
            warning("received audio buffers before format negotiation completed")
        ),
        _ => panic!("expected a warning"),
    }
    assert!(matches!(progress.on_buffer(&[], "U8"), BufferStep::Nothing));
}

#[test]
fn the_same_conversion_warning_is_not_given_twice_in_a_row() {
    let mut progress = progress();
    let mut format = FORMAT;
    format.sample_format = AudioFormat::ULAW;
    let _ = progress.on_param_changed(negotiated(format));
    match progress.on_buffer(&[], "ULAW") {
        BufferStep::Warn(event) => assert_eq!(
            event,
            warning("unsupported negotiated sample format for prototype capture: ULAW")
        ),
        _ => panic!("expected a warning"),
    }
    assert!(matches!(progress.on_buffer(&[], "ULAW"), BufferStep::Nothing));
    format.channels = 0;
    let _ = progress.on_param_changed(negotiated(format));
    match progress.on_buffer(&[], "ULAW") {
        BufferStep::Warn(event) => {
            assert_eq!(event, warning("PipeWire negotiated zero audio channels"))
        }
        _ => panic!("expected a warning"),
    }
    format.channels = 1;
    let _ = progress.on_param_changed(negotiated(format));
    assert!(matches!(progress.on_buffer(&[], "ULAW"), BufferStep::Warn(_)));
}

#[test]
fn buffers_are_decoded_in_the_negotiated_format() {
    let mut progress = progress();
    let _ = progress.on_param_changed(negotiated(FORMAT));
    let bytes = [3_u8, 4];
    let plane = BufferPlane { offset: 0, size: 2, stride: 0, bytes: Some(&bytes) };
    match progress.on_buffer(&[plane], "U8") {
        BufferStep::Frames(format, frames) => {
            assert_eq!(format, FORMAT);
            assert_eq!(
                frames,
                vec![vec![RawSample::Unsigned8(3)], vec![RawSample::Unsigned8(4)]]
            );
        }
        _ => panic!("expected frames"),
    }
    assert!(matches!(progress.on_buffer(&[], "U8"), BufferStep::Nothing));

    progress.record_buffer(levels(0.5), 12 * SECOND);
    let summary = progress.finish().unwrap();
    assert_eq!(summary.buffers_processed, 1);
    assert_eq!(summary.last_levels, Some(levels(0.5)));
    assert_eq!(summary.clone(), summary);
}
