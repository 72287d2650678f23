use spectrum_ares::backend::pipewire::capture::CaptureTargetId;
use spectrum_ares::backend::pipewire::discovery::{DiscoveredSource, PipeWireDiscoveryError};
use spectrum_ares::backend::pipewire::{
    capture_target_for_source, classify_discovered_sources, current_runtime_status,
    discover_capture_target, is_pause_related_warning, set_runtime_status, DiscoveryOutcome,
    PipeWireBackend, PipeWireRuntimeSnapshot, PipeWireRuntimeStatus,
};

fn source(object_type: &str, id: u32) -> DiscoveredSource {
    DiscoveredSource {
        id,
        object_serial: Some(u64::from(id + 100)),
        object_type: object_type.to_string(),
        client_id: None,
        linked_client_id: None,
        linked_client_name: None,
        node_name: None,
        node_description: None,
        application_name: None,
        application_process_binary: None,
        client_name: None,
        media_name: None,
        media_class: None,
        media_role: None,
        media_category: None,
        media_type: None,
        target_object: None,
        node_target: None,
    }
}

#[test]
fn classify_sources_waits_when_only_client_is_found() {
    let mut spotify_client = source("Client", 135);
    spotify_client.application_name = Some("spotify".to_string());

    match classify_discovered_sources(&[spotify_client]) {
        DiscoveryOutcome::Waiting { reason } => {
            assert!(reason.contains("no linked playback stream/node was discovered"));
        }
        DiscoveryOutcome::Ready { .. } => panic!("expected waiting outcome"),
    }
}

#[test]
fn classify_sources_returns_ready_for_linked_playback_node() {
    let mut spotify_node = source("Node", 138);
    spotify_node.client_id = Some(135);
    spotify_node.linked_client_id = Some(135);
    spotify_node.linked_client_name = Some("spotify".to_string());
    spotify_node.node_name = Some("audio-src".to_string());
    spotify_node.media_class = Some("Stream/Output/Audio".to_string());
    spotify_node.media_category = Some("Playback".to_string());
    spotify_node.media_role = Some("Music".to_string());

    match classify_discovered_sources(&[spotify_node]) {
        DiscoveryOutcome::Ready { target, .. } => {
            assert_eq!(target.node_id, 138);
            assert_eq!(
                target.preferred_target_id(),
                CaptureTargetId::ObjectSerial(238)
            );
        }
        DiscoveryOutcome::Waiting { .. } => panic!("expected ready outcome"),
    }
}

#[test]
fn pause_related_warning_detection_matches_expected_messages() {
    assert!(is_pause_related_warning(
        "no audio buffers received for 750 ms; Spotify may be paused or corked"
    ));
    assert!(is_pause_related_warning(
        "waiting for PipeWire format negotiation and first audio buffers"
    ));
    assert!(!is_pause_related_warning(
        "failed to parse audio format details"
    ));
}

#[test]
fn more_pause_related_warnings() {
    assert!(is_pause_related_warning("stream is paused or corked now"));
    assert!(is_pause_related_warning(
        "connected to PipeWire but no audio buffers have arrived yet"
    ));
    assert!(!is_pause_related_warning("Paused or corked"));
    assert!(!is_pause_related_warning(""));
}

#[test]
fn without_a_spotify_source_the_reason_is_general() {
    let mut stream = source("Node", 1);
    stream.media_class = Some("Stream/Output/Audio".to_string());
    match classify_discovered_sources(&[stream]) {
        DiscoveryOutcome::Waiting { reason } => assert_eq!(
            reason,
            "waiting for a capture-eligible Spotify PipeWire playback source"
        ),
        DiscoveryOutcome::Ready { .. } => panic!("expected waiting outcome"),
    }
    match classify_discovered_sources(&[]) {
        DiscoveryOutcome::Waiting { .. } => {}
        DiscoveryOutcome::Ready { .. } => panic!("expected waiting outcome"),
    }
}

#[test]
fn a_candidate_that_cannot_be_captured_is_named_in_the_reason() {
    let mut sink = source("Node", 1);
    sink.node_name = Some("spotify".to_string());
    match classify_discovered_sources(&[sink]) {
        DiscoveryOutcome::Waiting { reason } => assert_eq!(
            reason,
            "waiting for capture-eligible Spotify playback: not capture-eligible: object is not an audio playback stream/node"
        ),
        DiscoveryOutcome::Ready { .. } => panic!("expected waiting outcome"),
    }
}

#[test]
fn targets_are_made_for_sources_that_can_be_captured() {
    let mut stream = source("Node", 9);
    stream.media_class = Some("Stream/Output/Audio".to_string());
    assert_eq!(capture_target_for_source(&stream), None);
    stream.media_name = Some("Spotify".to_string());
    stream.object_serial = None;
    let target = capture_target_for_source(&stream).unwrap();
    assert_eq!(target.node_id, 9);
    assert_eq!(target.object_serial, None);
    assert_eq!(target.display_name, "Spotify");
    assert_eq!(target.node_name, None);
    assert_eq!(target.clone(), target);
}

#[test]
fn failed_discoveries_are_reported() {
    let failed = || Err(PipeWireDiscoveryError::PipeWire("get registry: gone".to_string()));
    let error = discover_capture_target(failed()).unwrap_err();
    assert_eq!(
        error.message(),
        "PipeWire discovery failed: get registry: gone"
    );
    let error = PipeWireBackend::probe_pipewire(failed()).unwrap_err();
    assert_eq!(
        error.message(),
        "PipeWire discovery failed: get registry: gone"
    );
    assert!(!PipeWireBackend::is_available(failed()));
    assert!(PipeWireBackend::is_available(Ok(Vec::new())));
    assert!(discover_capture_target(Ok(Vec::new())).is_ok());
    let _ = PipeWireBackend::new();
}

#[test]
fn statuses_are_recorded() {
    let mut recorded = PipeWireRuntimeSnapshot::initial();
    assert_eq!(recorded.status, PipeWireRuntimeStatus::Stopped);
    assert_eq!(recorded.detail, "PipeWire backend has not started");
    set_runtime_status(&mut recorded, PipeWireRuntimeStatus::Capturing, "going");
    assert_eq!(
        current_runtime_status(&recorded),
        PipeWireRuntimeSnapshot::new(PipeWireRuntimeStatus::Capturing, "going")
    );
    for (status, name) in [
        (PipeWireRuntimeStatus::Stopped, "Stopped"),
        (PipeWireRuntimeStatus::Starting, "Starting"),
        (PipeWireRuntimeStatus::Discovering, "Discovering"),
        (PipeWireRuntimeStatus::WaitingForSpotify, "WaitingForSpotify"),
        (PipeWireRuntimeStatus::Capturing, "Capturing"),
        (PipeWireRuntimeStatus::PausedOrSilent, "PausedOrSilent"),
        (PipeWireRuntimeStatus::StreamLost, "StreamLost"),
        (PipeWireRuntimeStatus::Reconnecting, "Reconnecting"),
        (PipeWireRuntimeStatus::Error, "Error"),
    ] {
        assert_eq!(status.as_str(), name);
    }
}
