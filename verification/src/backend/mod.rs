//! The audio backends: which one is asked for, and what its worker leaves behind.

use crate::error::AresError;
use crate::text;
use vstd::prelude::*;

pub mod mock;
pub mod pipewire;
pub mod pulseaudio;

verus! {

/// The backend behind a running worker.
#[derive(Debug, Clone, Copy, PartialEq, Eq, Structural)]
pub enum BackendKind {
    PipeWire,
    Mock,
}

impl BackendKind {
    /// The name of the backend.
    pub open spec fn name(self) -> Seq<char> {
        match self {
            BackendKind::PipeWire => "pipewire"@,
            BackendKind::Mock => "mock"@,
        }
    }

    /// The name of the backend.
    pub fn as_str(self) -> (r: &'static str)
        ensures
            r@ == self.name(),
    {
        match self {
            BackendKind::PipeWire => "pipewire",
            BackendKind::Mock => "mock",
        }
    }
}

/// The backend that the user asks for.
#[derive(Debug, Clone, Copy, PartialEq, Eq, Structural)]
pub enum RequestedBackend {
    Auto,
    PipeWire,
    Mock,
}

/// The text that a setting holds once the white space around it is gone.
pub open spec fn setting_text(value: Option<Seq<char>>) -> Seq<char> {
    match value {
        Some(value) => text::trim(value),
        None => Seq::empty(),
    }
}

/// The message about a setting that names no backend.
pub open spec fn unknown_backend_text(value: Seq<char>) -> Seq<char> {
    "unknown SPECTRUM_ARES_BACKEND value `"@ + value + "`; expected `mock` or `pipewire`"@
}

/// The backend that a setting asks for, if it names one.
pub open spec fn requested(value: Option<Seq<char>>) -> Option<RequestedBackend> {
    if setting_text(value).len() == 0 {
        Some(RequestedBackend::Auto)
    } else if text::equal_ci(setting_text(value), "mock"@) {
        Some(RequestedBackend::Mock)
    } else if text::equal_ci(setting_text(value), "pipewire"@) {
        Some(RequestedBackend::PipeWire)
    } else {
        None
    }
}

/// The view of an optional text.
pub open spec fn opt_view(value: Option<&str>) -> Option<Seq<char>> {
    match value {
        Some(value) => Some(value@),
        None => None,
    }
}

/// The backend that the setting asks for: without a setting or with a blank one the choice is
/// left open, and a setting that names no backend is an error.
pub fn parse_requested_backend(value: Option<&str>) -> (r: Result<RequestedBackend, AresError>)
    ensures
        match requested(opt_view(value)) {
            Some(backend) => r is Ok && r->Ok_0 == backend,
            None => r is Err && r->Err_0 is Backend && r->Err_0.text() == unknown_backend_text(
                setting_text(opt_view(value)),
            ),
        },
{
    let value: &str = match value {
        Some(value) => text::trim_text(value),
        None => {
            return Ok(RequestedBackend::Auto);
        },
    };
    if value.is_empty() {
        return Ok(RequestedBackend::Auto);
    }
    if text::equal_text_ci(value, "mock") {
        Ok(RequestedBackend::Mock)
    } else if text::equal_text_ci(value, "pipewire") {
        Ok(RequestedBackend::PipeWire)
    } else {
        let mut message: String = "unknown SPECTRUM_ARES_BACKEND value `".to_string();
        message.append(value);
        message.append("`; expected `mock` or `pipewire`");
        Err(AresError::Backend(message))
    }
}

/// The error with which starting the requested backend fails, given the error of the backend
/// itself: where the choice was left open, it says how to get the mock backend.
pub fn start_error(requested: RequestedBackend, error: AresError) -> (r: AresError)
    ensures
        requested is Auto ==> r is Backend && r.text() == "PipeWire backend unavailable: "@
            + error.text()
            + ". Set SPECTRUM_ARES_BACKEND=mock to force mock output for development."@,
        !(requested is Auto) ==> r == error,
{
    match requested {
        RequestedBackend::Auto => {
            let mut message: String = "PipeWire backend unavailable: ".to_string();
            message.append(error.message());
            message.append(". Set SPECTRUM_ARES_BACKEND=mock to force mock output for development.");
            AresError::Backend(message)
        },
        _ => error,
    }
}

/// The backend that serves a request.
pub fn backend_for(requested: RequestedBackend) -> (r: BackendKind)
    ensures
        r == (if requested is Mock {
            BackendKind::Mock
        } else {
            BackendKind::PipeWire
        }),
{
    match requested {
        RequestedBackend::Mock => BackendKind::Mock,
        _ => BackendKind::PipeWire,
    }
}

/// How a worker thread ended.
#[derive(Debug)]
pub enum ThreadEnd {
    /// The thread had been joined before.
    AlreadyJoined,
    /// The thread returned.
    Returned(Result<(), AresError>),
    /// The thread panicked.
    Panicked,
}

/// The result of a worker, given how its thread ended.
pub fn join_result(end: ThreadEnd) -> (r: Result<(), AresError>)
    ensures
        match end {
            ThreadEnd::AlreadyJoined => r is Ok,
            ThreadEnd::Returned(result) => r == result,
            ThreadEnd::Panicked => r is Err && r->Err_0 is Backend && r->Err_0.text()
                == "backend worker thread panicked"@,
        },
{
    match end {
        ThreadEnd::AlreadyJoined => Ok(()),
        ThreadEnd::Returned(result) => result,
        ThreadEnd::Panicked => Err(AresError::backend("backend worker thread panicked")),
    }
}

/// The error of a worker thread that could not be started.
pub fn spawn_error() -> (r: AresError)
    ensures
        r is Backend,
        r.text() == "failed to start backend worker thread"@,
{
    AresError::backend("failed to start backend worker thread")
}

/// A blank setting leaves the choice open, as a missing one does.
pub proof fn law_blank_settings_leave_the_choice_open(value: Seq<char>)
    requires
        text::is_blank(value),
    ensures
        requested(Some(value)) == Some(RequestedBackend::Auto),
        requested(None) == Some(RequestedBackend::Auto),
{
    text::lemma_trim_blank(value);
}

/// The white space around a setting and its ASCII case do not matter.
pub proof fn law_settings_ignore_case_and_space(a: Seq<char>, b: Seq<char>)
    requires
        text::equal_ci(text::trim(a), text::trim(b)),
    ensures
        requested(Some(a)) == requested(Some(b)),
{
    assert(text::lower(text::trim(a)).len() == text::lower(text::trim(b)).len());
}

/// The mock backend is asked for by its name and by nothing else: it is never a default.
pub proof fn law_mock_output_is_never_a_default(value: Option<Seq<char>>)
    ensures
        requested(value) == Some(RequestedBackend::Mock) <==> text::equal_ci(
            setting_text(value),
            "mock"@,
        ),
{
    reveal_strlit("mock");
    assert(text::lower("mock"@).len() == 4);
}

/// A setting is read for what stands between white space: the name of a backend in any case, or
/// nothing. Everything else names no backend, and the error quotes it in full.
pub proof fn law_settings_name_a_backend(before: Seq<char>, name: Seq<char>, behind: Seq<char>)
    requires
        text::is_blank(before),
        text::is_blank(behind),
        name.len() > 0 ==> !text::is_space(name[0]) && !text::is_space(name.last()),
    ensures
        ({
            let setting = before + name + behind;
            &&& setting_text(Some(setting)) == name
            &&& requested(Some(setting)) == Some(RequestedBackend::Auto) <==> name.len() == 0
            &&& requested(Some(setting)) == Some(RequestedBackend::Mock) <==> text::equal_ci(
                name,
                "mock"@,
            )
            &&& requested(Some(setting)) == Some(RequestedBackend::PipeWire) <==> text::equal_ci(
                name,
                "pipewire"@,
            )
            &&& unknown_backend_text(setting_text(Some(setting)))
                == "unknown SPECTRUM_ARES_BACKEND value `"@ + name
                + "`; expected `mock` or `pipewire`"@
        }),
{
    reveal_strlit("mock");
    reveal_strlit("pipewire");
    text::law_trim_undoes_white_space(before, name, behind);
    assert(text::lower("mock"@).len() == 4);
    assert(text::lower("pipewire"@).len() == 8);
    assert(text::lower(name).len() == name.len());
}

/// A setting is seen in full, and the names of the backends are those by which they are asked for.
pub proof fn law_settings_are_seen_in_full(value: &str)
    ensures
        opt_view(Some(value)) == Some(value@),
        opt_view(None) == None::<Seq<char>>,
        requested(Some(BackendKind::Mock.name())) == Some(RequestedBackend::Mock),
        requested(Some(BackendKind::PipeWire.name())) == Some(RequestedBackend::PipeWire),
{
    let none = Seq::<char>::empty();
    reveal_strlit("mock");
    reveal_strlit("pipewire");
    assert(none + "mock"@ + none =~= "mock"@);
    assert(none + "pipewire"@ + none =~= "pipewire"@);
    law_settings_name_a_backend(none, "mock"@, none);
    law_settings_name_a_backend(none, "pipewire"@, none);
}

} // verus!
