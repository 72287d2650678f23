use spectrum_ares::backend::mock::MockBackend;
use spectrum_ares::backend::pulseaudio::PulseAudioBackend;
use spectrum_ares::backend::{
    backend_for, join_result, parse_requested_backend, spawn_error, start_error, BackendKind,
    RequestedBackend, ThreadEnd,
};
use spectrum_ares::error::{
    AresError, ARES_ERROR_BACKEND, ARES_ERROR_INVALID_LENGTH, ARES_ERROR_NULL_POINTER, ARES_OK,
    ARES_STATUS_TRUNCATED,
};

#[test]
fn empty_backend_env_defaults_to_auto() {
    assert_eq!(
        parse_requested_backend(None).unwrap(),
        RequestedBackend::Auto
    );
    assert_eq!(
        parse_requested_backend(Some("   ")).unwrap(),
        RequestedBackend::Auto
    );
}

#[test]
fn backend_env_parses_known_values_case_insensitively() {
    assert_eq!(
        parse_requested_backend(Some("mock")).unwrap(),
        RequestedBackend::Mock
    );
    assert_eq!(
        parse_requested_backend(Some("PipeWire")).unwrap(),
        RequestedBackend::PipeWire
    );
}

#[test]
fn backend_env_rejects_unknown_values() {
    let error = parse_requested_backend(Some("alsa")).unwrap_err();

    assert_eq!(error.code(), ARES_ERROR_BACKEND);
    assert!(error
        .message()
        .contains("unknown SPECTRUM_ARES_BACKEND value `alsa`"));
}

#[test]
fn unknown_settings_are_quoted_without_the_space_around_them() {
    let error = parse_requested_backend(Some("\t mock2 \n")).unwrap_err();
    assert_eq!(
        error.message(),
        "unknown SPECTRUM_ARES_BACKEND value `mock2`; expected `mock` or `pipewire`"
    );
}

#[test]
fn settings_ignore_case_and_space() {
    for value in ["mock", "MOCK", " Mock", "mOcK\u{3000}", "\u{a0}mock\n"] {
        assert_eq!(
            parse_requested_backend(Some(value)).unwrap(),
            RequestedBackend::Mock
        );
    }
    for value in ["pipewire", "PIPEWIRE", "\r\npipewire\u{2029}"] {
        assert_eq!(
            parse_requested_backend(Some(value)).unwrap(),
            RequestedBackend::PipeWire
        );
    }
}

#[test]
fn only_the_name_of_the_mock_backend_asks_for_it() {
    for value in ["", " ", "auto", "mocks", "mo ck", "pipewire", "m\u{f6}ck"] {
        assert!(!matches!(
            parse_requested_backend(Some(value)),
            Ok(RequestedBackend::Mock)
        ));
    }
    assert_eq!(backend_for(RequestedBackend::Mock), BackendKind::Mock);
    assert_eq!(backend_for(RequestedBackend::Auto), BackendKind::PipeWire);
    assert_eq!(
        backend_for(RequestedBackend::PipeWire),
        BackendKind::PipeWire
    );
}

#[test]
fn backend_names() {
    assert_eq!(BackendKind::PipeWire.as_str(), "pipewire");
    assert_eq!(BackendKind::Mock.as_str(), "mock");
}

#[test]
fn a_start_that_was_left_open_says_how_to_get_the_mock_backend() {
    let error = start_error(RequestedBackend::Auto, AresError::backend("no core"));
    assert_eq!(error.code(), ARES_ERROR_BACKEND);
    assert_eq!(
        error.message(),
        "PipeWire backend unavailable: no core. Set SPECTRUM_ARES_BACKEND=mock to force mock output for development."
    );

    let error = start_error(RequestedBackend::PipeWire, AresError::backend("no core"));
    assert_eq!(error.message(), "no core");
    let error = start_error(RequestedBackend::Mock, AresError::NullPointer);
    assert_eq!(error.code(), ARES_ERROR_NULL_POINTER);
}

#[test]
fn worker_threads_report_how_they_ended() {
    assert!(join_result(ThreadEnd::AlreadyJoined).is_ok());
    assert!(join_result(ThreadEnd::Returned(Ok(()))).is_ok());
    let error = join_result(ThreadEnd::Returned(Err(AresError::backend("lost")))).unwrap_err();
    assert_eq!(error.message(), "lost");
    let error = join_result(ThreadEnd::Panicked).unwrap_err();
    assert_eq!(error.message(), "backend worker thread panicked");
    assert_eq!(error.code(), ARES_ERROR_BACKEND);
    assert_eq!(
        spawn_error().message(),
        "failed to start backend worker thread"
    );
}

#[test]
fn pulseaudio_is_not_there() {
    let _ = MockBackend::new();
    assert!(!PulseAudioBackend::is_available());
    let error = PulseAudioBackend::new().start().unwrap_err();
    assert_eq!(
        error.message(),
        "PulseAudio fallback is not implemented in stage 1"
    );
}

#[test]
fn errors_have_negative_codes_that_tell_them_apart() {
    assert_eq!(AresError::NullPointer.code(), ARES_ERROR_NULL_POINTER);
    assert_eq!(AresError::NullPointer.message(), "null output pointer");
    let error = AresError::invalid_length("too short");
    assert_eq!(error.code(), ARES_ERROR_INVALID_LENGTH);
    assert_eq!(error.message(), "too short");
    assert_eq!(AresError::backend("gone").code(), ARES_ERROR_BACKEND);
    assert_eq!(
        (
            ARES_OK,
            ARES_STATUS_TRUNCATED,
            ARES_ERROR_NULL_POINTER,
            ARES_ERROR_INVALID_LENGTH,
            ARES_ERROR_BACKEND
        ),
        (0, 1, -1, -2, -3)
    );
}
