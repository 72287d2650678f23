//! The PipeWire backend: what its worker does next, and what it reports.

use crate::backend::pipewire::capture::CaptureTarget;
use crate::backend::pipewire::discovery::{
    copy_text, select_best_spotify_source, DiscoveredSource, PipeWireDiscoveryError,
};
use crate::error::AresError;
use crate::text;
use vstd::prelude::*;

pub mod capture;
pub mod decode;
pub mod discovery;
pub mod registry;
pub mod worker;

verus! {

/// What the backend is doing.
#[derive(Debug, Clone, Copy, PartialEq, Eq, Structural)]
pub enum PipeWireRuntimeStatus {
    Stopped,
    Starting,
    Discovering,
    WaitingForSpotify,
    Capturing,
    PausedOrSilent,
    StreamLost,
    Reconnecting,
    Error,
}

impl PipeWireRuntimeStatus {
    /// The name of the status.
    pub open spec fn name(self) -> Seq<char> {
        match self {
            PipeWireRuntimeStatus::Stopped => "Stopped"@,
            PipeWireRuntimeStatus::Starting => "Starting"@,
            PipeWireRuntimeStatus::Discovering => "Discovering"@,
            PipeWireRuntimeStatus::WaitingForSpotify => "WaitingForSpotify"@,
            PipeWireRuntimeStatus::Capturing => "Capturing"@,
            PipeWireRuntimeStatus::PausedOrSilent => "PausedOrSilent"@,
            PipeWireRuntimeStatus::StreamLost => "StreamLost"@,
            PipeWireRuntimeStatus::Reconnecting => "Reconnecting"@,
            PipeWireRuntimeStatus::Error => "Error"@,
        }
    }

    /// The name of the status.
    pub fn as_str(self) -> (r: &'static str)
        ensures
            r@ == self.name(),
    {
        match self {
            PipeWireRuntimeStatus::Stopped => "Stopped",
            PipeWireRuntimeStatus::Starting => "Starting",
            PipeWireRuntimeStatus::Discovering => "Discovering",
            PipeWireRuntimeStatus::WaitingForSpotify => "WaitingForSpotify",
            PipeWireRuntimeStatus::Capturing => "Capturing",
            PipeWireRuntimeStatus::PausedOrSilent => "PausedOrSilent",
            PipeWireRuntimeStatus::StreamLost => "StreamLost",
            PipeWireRuntimeStatus::Reconnecting => "Reconnecting",
            PipeWireRuntimeStatus::Error => "Error",
        }
    }
}

/// What the backend is doing, with details in words.
#[derive(Debug, PartialEq, Eq)]
pub struct PipeWireRuntimeSnapshot {
    pub status: PipeWireRuntimeStatus,
    pub detail: String,
}

impl Clone for PipeWireRuntimeSnapshot {
    fn clone(&self) -> (r: Self)
        ensures
            r == *self,
    {
        PipeWireRuntimeSnapshot { status: self.status, detail: self.detail.clone() }
    }
}

impl View for PipeWireRuntimeSnapshot {
    type V = (PipeWireRuntimeStatus, Seq<char>);

    open spec fn view(&self) -> (PipeWireRuntimeStatus, Seq<char>) {
        (self.status, self.detail@)
    }
}

impl PipeWireRuntimeSnapshot {
    /// A status with its details.
    pub fn new(status: PipeWireRuntimeStatus, detail: &str) -> (r: Self)
        ensures
            r@ == (status, detail@),
    {
        PipeWireRuntimeSnapshot { status, detail: detail.to_string() }
    }

    /// The status of a backend that has never been started.
    pub fn initial() -> (r: Self)
        ensures
            r@ == (PipeWireRuntimeStatus::Stopped, "PipeWire backend has not started"@),
    {
        PipeWireRuntimeSnapshot::new(
            PipeWireRuntimeStatus::Stopped,
            "PipeWire backend has not started",
        )
    }
}

/// A copy of the recorded status.
pub fn current_runtime_status(recorded: &PipeWireRuntimeSnapshot) -> (r: PipeWireRuntimeSnapshot)
    ensures
        r == *recorded,
{
    recorded.clone()
}

/// Records a new status.
pub fn set_runtime_status(
    recorded: &mut PipeWireRuntimeSnapshot,
    status: PipeWireRuntimeStatus,
    detail: &str,
)
    ensures
        final(recorded)@ == (status, detail@),
{
    *recorded = PipeWireRuntimeSnapshot::new(status, detail);
}

/// The PipeWire backend.
#[derive(Debug, Default)]
pub struct PipeWireBackend;

impl PipeWireBackend {
    /// The backend.
    pub fn new() -> (r: Self)
        ensures
            r == PipeWireBackend,
    {
        PipeWireBackend
    }

    /// Whether PipeWire can be reached, given the result of a discovery.
    pub fn is_available(
        discovered: Result<Vec<DiscoveredSource>, PipeWireDiscoveryError>,
    ) -> (r: bool)
        ensures
            r == (discovered is Ok),
    {
        Self::probe_pipewire(discovered).is_ok()
    }

    /// Whether PipeWire can be reached and why not, given the result of a discovery.
    pub fn probe_pipewire(
        discovered: Result<Vec<DiscoveredSource>, PipeWireDiscoveryError>,
    ) -> (r: Result<(), AresError>)
        ensures
            match discovered {
                Ok(_) => r is Ok,
                Err(error) => r is Err && r->Err_0 is Backend && r->Err_0.text()
                    == discovery_failed_text(error),
            },
    {
        match discovered {
            Ok(_) => Ok(()),
            Err(error) => Err(discovery_failed(&error)),
        }
    }
}

/// The message about a discovery that failed.
pub open spec fn discovery_failed_text(error: PipeWireDiscoveryError) -> Seq<char> {
    "PipeWire discovery failed: "@ + error.text()
}

/// The error about a discovery that failed.
fn discovery_failed(error: &PipeWireDiscoveryError) -> (r: AresError)
    ensures
        r is Backend,
        r.text() == discovery_failed_text(*error),
{
    let mut message: String = "PipeWire discovery failed: ".to_string();
    message.append(error.message());
    AresError::Backend(message)
}

/// What a discovery leads to.
#[derive(Debug)]
pub enum DiscoveryOutcome {
    /// There is a source to capture.
    Ready { source: DiscoveredSource, target: CaptureTarget },
    /// There is nothing to capture yet, and why.
    Waiting { reason: String },
}

/// `target` is the capture target for `source`.
pub open spec fn is_target_for(target: CaptureTarget, source: DiscoveredSource) -> bool {
    &&& target.node_id == source.id
    &&& target.object_serial == source.object_serial
    &&& target.display_name@ == source@.shown_name()
    &&& target.node_name == source.node_name
}

/// The capture target for a source that can be captured.
pub fn capture_target_for_source(source: &DiscoveredSource) -> (r: Option<CaptureTarget>)
    ensures
        r is Some <==> source@.eligible(),
        r is Some ==> is_target_for(r->0, *source),
{
    if source.is_capture_eligible() {
        Some(
            CaptureTarget {
                node_id: source.id,
                object_serial: source.object_serial,
                display_name: source.display_name().to_string(),
                node_name: copy_text(&source.node_name),
            },
        )
    } else {
        None
    }
}

/// `outcome` is what discovering `sources` leads to: the best candidate is captured if it can be.
pub open spec fn is_outcome(sources: Seq<DiscoveredSource>, outcome: DiscoveryOutcome) -> bool {
    match outcome {
        DiscoveryOutcome::Ready { source, target } => {
            &&& exists|best: int| #[trigger]
                discovery::is_best(sources, best) && sources[best] == source
            &&& source@.eligible()
            &&& is_target_for(target, source)
        },
        DiscoveryOutcome::Waiting { reason } => {
            ||| exists|best: int| #[trigger]
                discovery::is_best(sources, best) && !sources[best]@.eligible() && reason@
                    == "waiting for capture-eligible Spotify playback: "@
                    + sources[best]@.eligibility_text()
            ||| (forall|i: int| 0 <= i < sources.len() ==> (#[trigger] sources[i])@.score() <= 0)
                && reason@ == "waiting for a capture-eligible Spotify PipeWire playback source"@
        },
    }
}

/// What the discovered sources lead to.
pub fn classify_discovered_sources(sources: &[DiscoveredSource]) -> (r: DiscoveryOutcome)
    ensures
        is_outcome(sources@, r),
{
    match select_best_spotify_source(sources) {
        Some(source) => {
            let ghost best = choose|best: int| #[trigger]
                discovery::is_best(sources@, best) && sources@[best] == source;
            match capture_target_for_source(&source) {
                Some(target) => {
                    assert(discovery::is_best(sources@, best) && sources@[best] == source);
                    DiscoveryOutcome::Ready { source, target }
                },
                None => {
                    let mut reason: String =
                        "waiting for capture-eligible Spotify playback: ".to_string();
                    reason.append(source.capture_eligibility_reason().as_str());
                    assert(discovery::is_best(sources@, best) && sources@[best] == source);
                    DiscoveryOutcome::Waiting { reason }
                },
            }
        },
        None => DiscoveryOutcome::Waiting {
            reason: "waiting for a capture-eligible Spotify PipeWire playback source".to_string(),
        },
    }
}

/// What the result of a discovery leads to.
pub fn discover_capture_target(
    discovered: Result<Vec<DiscoveredSource>, PipeWireDiscoveryError>,
) -> (r: Result<DiscoveryOutcome, AresError>)
    ensures
        match discovered {
            Ok(sources) => r is Ok && is_outcome(sources@, r->Ok_0),
            Err(error) => r is Err && r->Err_0 is Backend && r->Err_0.text()
                == discovery_failed_text(error),
        },
{
    match discovered {
        Ok(sources) => Ok(classify_discovered_sources(sources.as_slice())),
        Err(error) => Err(discovery_failed(&error)),
    }
}

/// A warning says that playback is paused or has not begun.
pub open spec fn is_pause_text(message: Seq<char>) -> bool {
    ||| text::contains(message, "no audio buffers received for"@)
    ||| text::contains(message, "paused or corked"@)
    ||| text::contains(
        message,
        "waiting for PipeWire format negotiation and first audio buffers"@,
    )
    ||| text::contains(message, "connected to PipeWire but no audio buffers have arrived yet"@)
}

/// Whether a warning says that playback is paused or has not begun.
pub fn is_pause_related_warning(message: &str) -> (r: bool)
    ensures
        r == is_pause_text(message@),
{
    text::contains_text(message, "no audio buffers received for") || text::contains_text(
        message,
        "paused or corked",
    ) || text::contains_text(
        message,
        "waiting for PipeWire format negotiation and first audio buffers",
    ) || text::contains_text(message, "connected to PipeWire but no audio buffers have arrived yet")
}

/// There is something to capture exactly when some source can be captured, and what is captured is
/// such a source: an audio playback stream that has to do with Spotify.
pub proof fn law_ready_exactly_when_some_source_is_eligible(
    sources: Seq<DiscoveredSource>,
    outcome: DiscoveryOutcome,
)
    requires
        is_outcome(sources, outcome),
    ensures
        outcome is Ready <==> exists|i: int|
            0 <= i < sources.len() && (#[trigger] sources[i])@.eligible(),
        outcome is Ready ==> outcome->source@.playback_stream()
            && outcome->source@.spotify_related() && sources.contains(outcome->source),
{
    match outcome {
        DiscoveryOutcome::Ready { source, target } => {
            let best = choose|best: int| #[trigger]
                discovery::is_best(sources, best) && sources[best] == source;
            assert(sources[best]@.eligible());
        },
        DiscoveryOutcome::Waiting { reason } => {
            if exists|best: int| #[trigger]
                discovery::is_best(sources, best) && !sources[best]@.eligible() {
                let best = choose|best: int| #[trigger]
                    discovery::is_best(sources, best) && !sources[best]@.eligible();
                discovery::law_best_candidate_is_eligible_if_any(sources, best);
            } else {
                assert forall|i: int| 0 <= i < sources.len() implies !(
                #[trigger] sources[i])@.eligible() by {
                    discovery::law_score_marks_spotify(sources[i]@);
                }
            }
        },
    }
}

/// A stream whose client is an announced Spotify client leads to a capture, however the registry
/// announces them and whatever the names of the stream are.
pub proof fn law_spotify_playback_is_captured(
    globals: Seq<registry::RegistryGlobal>,
    assembled: Seq<DiscoveredSource>,
    outcome: DiscoveryOutcome,
    client: int,
    stream: int,
)
    requires
        registry::is_stable_sort(
            registry::models(assembled),
            registry::resolved(registry::announced(globals)),
        ),
        is_outcome(assembled, outcome),
        0 <= client < globals.len(),
        globals[client].source() is Some,
        globals[client].source()->0.spotify_client(),
        0 <= stream < globals.len(),
        globals[stream].source() is Some,
        globals[stream].source()->0.playback_stream(),
        globals[stream].source()->0.client_id == Some(globals[client].id),
    ensures
        outcome is Ready,
{
    registry::law_streams_of_spotify_clients_are_found(globals, assembled, client, stream);
    law_ready_exactly_when_some_source_is_eligible(assembled, outcome);
}

/// What is captured is a source of the list that no other one beats, and the target is that very
/// source; what is waited for is told by the best candidate, if there is one.
pub proof fn law_outcomes_go_by_the_best_candidate(
    sources: Seq<DiscoveredSource>,
    outcome: DiscoveryOutcome,
    i: int,
)
    requires
        is_outcome(sources, outcome),
        0 <= i < sources.len(),
    ensures
        match outcome {
            DiscoveryOutcome::Ready { source, target } => {
                &&& sources.contains(source)
                &&& sources[i]@.score() <= source@.score()
                &&& sources[i]@.score() == source@.score() ==> sources[i].id <= source.id
                &&& target.node_id == source.id
                &&& target.object_serial == source.object_serial
                &&& target.display_name@ == source@.shown_name()
                &&& target.node_name == source.node_name
            },
            DiscoveryOutcome::Waiting { reason } => {
                &&& !sources[i]@.eligible()
                &&& discovery::is_best(sources, i) ==> reason@
                    == "waiting for capture-eligible Spotify playback: "@
                    + sources[i]@.eligibility_text()
            },
        },
{
    law_ready_exactly_when_some_source_is_eligible(sources, outcome);
    match outcome {
        DiscoveryOutcome::Ready { source, target } => {
            let best = choose|best: int| #[trigger]
                discovery::is_best(sources, best) && sources[best] == source;
            discovery::law_best_candidate_has_the_highest_score(sources, best, i);
        },
        DiscoveryOutcome::Waiting { reason } => {
            if discovery::is_best(sources, i) {
                discovery::law_best_candidate_has_the_highest_score(sources, i, i);
                let best = choose|best: int| #[trigger]
                    discovery::is_best(sources, best) && !sources[best]@.eligible() && reason@
                        == "waiting for capture-eligible Spotify playback: "@
                        + sources[best]@.eligibility_text();
                discovery::law_best_candidate_is_unique(sources, best, i);
            }
        },
    }
}

/// Without a source that has to do with Spotify, that is what is waited for.
pub proof fn law_nothing_related_is_waited_for(
    sources: Seq<DiscoveredSource>,
    outcome: DiscoveryOutcome,
)
    requires
        is_outcome(sources, outcome),
        forall|i: int| 0 <= i < sources.len() ==> !(#[trigger] sources[i])@.spotify_related(),
    ensures
        outcome is Waiting,
        outcome->reason@ == "waiting for a capture-eligible Spotify PipeWire playback source"@,
{
    law_ready_exactly_when_some_source_is_eligible(sources, outcome);
    assert forall|best: int| !discovery::is_best(sources, best) by {
        if discovery::is_best(sources, best) {
            discovery::law_score_marks_spotify(sources[best]@);
        }
    }
}

/// A warning that holds one of four phrases, at any place, is about a pause; no other is.
pub proof fn law_pauses_are_told_by_four_phrases(before: Seq<char>, behind: Seq<char>, m: Seq<char>)
    ensures
        is_pause_text(before + "no audio buffers received for"@ + behind),
        is_pause_text(before + "paused or corked"@ + behind),
        is_pause_text(
            before + "waiting for PipeWire format negotiation and first audio buffers"@ + behind,
        ),
        is_pause_text(
            before + "connected to PipeWire but no audio buffers have arrived yet"@ + behind,
        ),
        is_pause_text(m) ==> text::contains(m, "no audio buffers received for"@) || text::contains(
            m,
            "paused or corked"@,
        ) || text::contains(m, "waiting for PipeWire format negotiation and first audio buffers"@)
            || text::contains(m, "connected to PipeWire but no audio buffers have arrived yet"@),
{
    text::law_texts_hold_their_parts(before, "no audio buffers received for"@, behind);
    text::law_texts_hold_their_parts(before, "paused or corked"@, behind);
    text::law_texts_hold_their_parts(
        before,
        "waiting for PipeWire format negotiation and first audio buffers"@,
        behind,
    );
    text::law_texts_hold_their_parts(
        before,
        "connected to PipeWire but no audio buffers have arrived yet"@,
        behind,
    );
}

/// A failed discovery is told with its error in full, and a status with its details in full.
pub proof fn law_failures_and_details_are_told_in_full(
    error: PipeWireDiscoveryError,
    recorded: PipeWireRuntimeSnapshot,
)
    ensures
        discovery_failed_text(error) == "PipeWire discovery failed: "@ + error.text(),
        recorded@ == (recorded.status, recorded.detail@),
{
}

} // verus!
