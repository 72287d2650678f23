//! The steps of the PipeWire worker: what each event changes, and what comes next.

use crate::backend::pipewire;
use crate::backend::pipewire::capture;
use crate::backend::pipewire::capture::{
    CaptureEvent, CaptureRunSummary, CaptureTarget, PipeWireCaptureError,
};
use crate::backend::pipewire::decode;
use crate::backend::pipewire::discovery::DiscoveredSource;
use crate::backend::pipewire::{
    is_pause_related_warning, DiscoveryOutcome, PipeWireRuntimeSnapshot, PipeWireRuntimeStatus,
};
use crate::error::AresError;
use crate::state::{AresRuntime, RuntimeModel, SharedAnalyzerState};
use crate::text;
use vstd::prelude::*;

verus! {

/// Milliseconds between two discoveries.
pub const REDISCOVERY_INTERVAL_MS: u64 = 2000;

/// The same in nanoseconds.
pub const REDISCOVERY_INTERVAL: u128 = 2_000_000_000;

/// Nanoseconds between two looks at the stop request while the worker sleeps.
pub const STOP_POLL_INTERVAL: u128 = 100_000_000;

/// What happens to the message of the last error.
#[derive(Debug)]
pub enum ErrorUpdate {
    Keep,
    Clear,
    Replace(String),
}

/// What contracts say of an update of the last error.
pub enum ErrorChange {
    Keep,
    Clear,
    Replace(Seq<char>),
}

impl View for ErrorUpdate {
    type V = ErrorChange;

    open spec fn view(&self) -> ErrorChange {
        match self {
            ErrorUpdate::Keep => ErrorChange::Keep,
            ErrorUpdate::Clear => ErrorChange::Clear,
            ErrorUpdate::Replace(message) => ErrorChange::Replace(message@),
        }
    }
}

/// What an event changes, in this order: the shared analysis goes back to silence, the last error
/// is updated, and a new status is recorded.
#[derive(Debug)]
pub struct Effects {
    pub reset_shared: bool,
    pub last_error: ErrorUpdate,
    pub status: Option<PipeWireRuntimeSnapshot>,
}

/// What contracts say of the effects of an event.
pub struct EffectsModel {
    pub reset_shared: bool,
    pub last_error: ErrorChange,
    pub status: Option<(PipeWireRuntimeStatus, Seq<char>)>,
}

impl View for Effects {
    type V = EffectsModel;

    open spec fn view(&self) -> EffectsModel {
        EffectsModel {
            reset_shared: self.reset_shared,
            last_error: self.last_error@,
            status: match self.status {
                Some(status) => Some(status@),
                None => None,
            },
        }
    }
}

impl EffectsModel {
    /// What a runtime becomes.
    pub open spec fn runtime_after<W>(self, runtime: RuntimeModel<W>) -> RuntimeModel<W> {
        match self.last_error {
            ErrorChange::Keep => runtime,
            ErrorChange::Clear => runtime.with_error(Seq::empty()),
            ErrorChange::Replace(message) => runtime.with_error(message),
        }
    }

    /// What a recorded status becomes.
    pub open spec fn status_after(
        self,
        recorded: (PipeWireRuntimeStatus, Seq<char>),
    ) -> (PipeWireRuntimeStatus, Seq<char>) {
        match self.status {
            Some(status) => status,
            None => recorded,
        }
    }
}

/// The effects that change nothing.
pub open spec fn no_effects() -> EffectsModel {
    EffectsModel { reset_shared: false, last_error: ErrorChange::Keep, status: None }
}

impl Effects {
    /// The effects that change nothing.
    fn nothing() -> (r: Self)
        ensures
            r@ == no_effects(),
    {
        Effects { reset_shared: false, last_error: ErrorUpdate::Keep, status: None }
    }

    /// Brings the effects about.
    pub fn apply<W, T: Copy>(
        self,
        shared: &mut SharedAnalyzerState<T>,
        runtime: &mut AresRuntime<W>,
        recorded: &mut PipeWireRuntimeSnapshot,
    )
        ensures
            final(shared).zero() == old(shared).zero(),
            self.reset_shared ==> final(shared).silent(),
            !self.reset_shared ==> final(shared)@ == old(shared)@,
            final(runtime)@ == self@.runtime_after(old(runtime)@),
            final(recorded)@ == self@.status_after(old(recorded)@),
    {
        if self.reset_shared {
            shared.reset();
        }
        match self.last_error {
            ErrorUpdate::Keep => {},
            ErrorUpdate::Clear => runtime.clear_last_error_message(),
            ErrorUpdate::Replace(message) => runtime.set_last_error_message(message.as_str()),
        }
        if let Some(status) = self.status {
            *recorded = status;
        }
    }
}

/// What an event of the capture changes; its format and its levels come in words.
pub open spec fn reaction(event: CaptureEvent<String, String>) -> EffectsModel {
    match event {
        CaptureEvent::Info { message } => no_effects(),
        CaptureEvent::StateChanged { old, new, capture_node_id } => if new@ == "Connecting"@ || new@
            == "Unconnected"@ {
            EffectsModel {
                status: Some(
                    (
                        PipeWireRuntimeStatus::Starting,
                        "PipeWire stream state: "@ + old@ + " -> "@ + new@,
                    ),
                ),
                ..no_effects()
            }
        } else if new@ == "Paused"@ {
            EffectsModel {
                reset_shared: true,
                last_error: ErrorChange::Replace("Spotify stream is paused or waiting for audio"@),
                status: Some(
                    (
                        PipeWireRuntimeStatus::PausedOrSilent,
                        "Spotify stream is paused or waiting for audio"@,
                    ),
                ),
            }
        } else if new@ == "Streaming"@ {
            EffectsModel {
                reset_shared: false,
                last_error: ErrorChange::Clear,
                status: Some((PipeWireRuntimeStatus::Capturing, "capturing Spotify audio"@)),
            }
        } else {
            no_effects()
        },
        CaptureEvent::FormatNegotiated { format } => EffectsModel {
            status: Some((PipeWireRuntimeStatus::Starting, "negotiated format: "@ + format@)),
            ..no_effects()
        },
        CaptureEvent::Levels { format, levels, buffers_processed } => EffectsModel {
            reset_shared: false,
            last_error: ErrorChange::Clear,
            status: Some(
                (
                    PipeWireRuntimeStatus::Capturing,
                    "capturing Spotify audio (buffers="@ + text::decimal(buffers_processed as nat)
                        + ", rms="@ + levels.rms@ + ", peak="@ + levels.peak@ + ")"@,
                ),
            ),
        },
        CaptureEvent::Warning { message } => if pipewire::is_pause_text(message@) {
            EffectsModel {
                reset_shared: true,
                last_error: ErrorChange::Replace(message@),
                status: Some((PipeWireRuntimeStatus::PausedOrSilent, message@)),
            }
        } else {
            EffectsModel { last_error: ErrorChange::Replace(message@), ..no_effects() }
        },
    }
}

/// The effects of a change of the stream state.
fn handle_state_change(old: &str, new: &str) -> (r: Effects)
    ensures
        forall|event: CaptureEvent<String, String>|
            event is StateChanged && event->old@ == old@ && event->new@ == new@ ==> r@
                == #[trigger] reaction(event),
{
    if text::equal_text(new, "Connecting") || text::equal_text(new, "Unconnected") {
        let mut detail: String = "PipeWire stream state: ".to_string();
        detail.append(old);
        detail.append(" -> ");
        detail.append(new);
        return Effects {
            reset_shared: false,
            last_error: ErrorUpdate::Keep,
            status: Some(
                PipeWireRuntimeSnapshot { status: PipeWireRuntimeStatus::Starting, detail },
            ),
        };
    }
    if text::equal_text(new, "Paused") {
        return Effects {
            reset_shared: true,
            last_error: ErrorUpdate::Replace(
                "Spotify stream is paused or waiting for audio".to_string(),
            ),
            status: Some(
                PipeWireRuntimeSnapshot::new(
                    PipeWireRuntimeStatus::PausedOrSilent,
                    "Spotify stream is paused or waiting for audio",
                ),
            ),
        };
    }
    if text::equal_text(new, "Streaming") {
        return Effects {
            reset_shared: false,
            last_error: ErrorUpdate::Clear,
            status: Some(
                PipeWireRuntimeSnapshot::new(
                    PipeWireRuntimeStatus::Capturing,
                    "capturing Spotify audio",
                ),
            ),
        };
    }
    Effects::nothing()
}

/// What an event of the capture changes; its format and its levels come in words.
pub fn handle_capture_event(event: &CaptureEvent<String, String>) -> (r: Effects)
    ensures
        r@ == reaction(*event),
{
    match event {
        CaptureEvent::Info { message } => Effects::nothing(),
        CaptureEvent::StateChanged { old, new, capture_node_id } => handle_state_change(
            old.as_str(),
            new.as_str(),
        ),
        CaptureEvent::FormatNegotiated { format } => {
            let mut detail: String = "negotiated format: ".to_string();
            detail.append(format.as_str());
            Effects {
                reset_shared: false,
                last_error: ErrorUpdate::Keep,
                status: Some(
                    PipeWireRuntimeSnapshot { status: PipeWireRuntimeStatus::Starting, detail },
                ),
            }
        },
        CaptureEvent::Levels { format, levels, buffers_processed } => {
            let mut detail: String = "capturing Spotify audio (buffers=".to_string();
            text::append_decimal(&mut detail, *buffers_processed);
            detail.append(", rms=");
            detail.append(levels.rms.as_str());
            detail.append(", peak=");
            detail.append(levels.peak.as_str());
            detail.append(")");
            Effects {
                reset_shared: false,
                last_error: ErrorUpdate::Clear,
                status: Some(
                    PipeWireRuntimeSnapshot { status: PipeWireRuntimeStatus::Capturing, detail },
                ),
            }
        },
        CaptureEvent::Warning { message } => if is_pause_related_warning(message.as_str()) {
            Effects {
                reset_shared: true,
                last_error: ErrorUpdate::Replace(message.clone()),
                status: Some(
                    PipeWireRuntimeSnapshot::new(
                        PipeWireRuntimeStatus::PausedOrSilent,
                        message.as_str(),
                    ),
                ),
            }
        } else {
            Effects {
                reset_shared: false,
                last_error: ErrorUpdate::Replace(message.clone()),
                status: None,
            }
        },
    }
}

/// What the worker does next.
#[derive(Debug)]
pub enum WorkerPhase {
    /// Look at the stop request and begin a round.
    BeginRound,
    /// Discover sources.
    Discover,
    /// Capture a source.
    Capture { source: DiscoveredSource, target: CaptureTarget },
    /// Sleep until the next round, unless a stop is requested before.
    Sleep,
    /// Nothing: the worker has ended.
    Stopped,
}

/// What the worker has come upon.
#[derive(Debug)]
pub enum WorkerEvent {
    /// The worker has been started.
    Started,
    /// A round begins.
    RoundBegins { stop_requested: bool },
    /// A discovery has ended.
    Discovered(Result<DiscoveryOutcome, AresError>),
    /// A capture has ended.
    SessionEnded { stopped_normally: bool, stop_requested: bool },
    /// A sleep has ended; it is not complete if a stop was requested.
    SleepEnded { completed: bool },
}

/// What an event leads to.
#[derive(Debug)]
pub struct WorkerStep {
    pub effects: Effects,
    pub next: WorkerPhase,
}

impl WorkerEvent {
    /// The event tells the worker to stop.
    pub open spec fn stops(self) -> bool {
        match self {
            WorkerEvent::Started => false,
            WorkerEvent::RoundBegins { stop_requested } => stop_requested,
            WorkerEvent::Discovered(_) => false,
            WorkerEvent::SessionEnded { stopped_normally, stop_requested } => stopped_normally
                || stop_requested,
            WorkerEvent::SleepEnded { completed } => !completed,
        }
    }

    /// What the event changes.
    pub open spec fn effects(self) -> EffectsModel {
        if self.stops() {
            EffectsModel {
                reset_shared: true,
                status: Some((PipeWireRuntimeStatus::Stopped, "PipeWire backend stopped"@)),
                ..no_effects()
            }
        } else {
            match self {
                WorkerEvent::Started => EffectsModel {
                    reset_shared: true,
                    last_error: ErrorChange::Clear,
                    status: Some(
                        (
                            PipeWireRuntimeStatus::Starting,
                            "starting PipeWire Spotify backend"@,
                        ),
                    ),
                },
                WorkerEvent::RoundBegins { .. } => EffectsModel {
                    reset_shared: true,
                    status: Some(
                        (
                            PipeWireRuntimeStatus::Discovering,
                            "discovering Spotify PipeWire playback source"@,
                        ),
                    ),
                    ..no_effects()
                },
                WorkerEvent::Discovered(Ok(DiscoveryOutcome::Ready { .. })) => EffectsModel {
                    last_error: ErrorChange::Clear,
                    ..no_effects()
                },
                WorkerEvent::Discovered(Ok(DiscoveryOutcome::Waiting { reason })) => EffectsModel {
                    reset_shared: true,
                    last_error: ErrorChange::Replace(reason@),
                    status: Some((PipeWireRuntimeStatus::WaitingForSpotify, reason@)),
                },
                WorkerEvent::Discovered(Err(error)) => EffectsModel {
                    reset_shared: true,
                    last_error: ErrorChange::Replace(error.text()),
                    status: Some((PipeWireRuntimeStatus::Error, error.text())),
                },
                WorkerEvent::SessionEnded { .. } => EffectsModel {
                    status: Some(
                        (
                            PipeWireRuntimeStatus::Reconnecting,
                            "rediscovering Spotify playback source in "@ + text::decimal(
                                REDISCOVERY_INTERVAL_MS as nat,
                            ) + " ms"@,
                        ),
                    ),
                    ..no_effects()
                },
                WorkerEvent::SleepEnded { .. } => no_effects(),
            }
        }
    }

    /// What the worker does after the event.
    pub open spec fn next(self) -> WorkerPhase {
        if self.stops() {
            WorkerPhase::Stopped
        } else {
            match self {
                WorkerEvent::Started => WorkerPhase::BeginRound,
                WorkerEvent::RoundBegins { .. } => WorkerPhase::Discover,
                WorkerEvent::Discovered(Ok(DiscoveryOutcome::Ready { source, target })) =>
                    WorkerPhase::Capture { source, target },
                WorkerEvent::Discovered(_) => WorkerPhase::Sleep,
                WorkerEvent::SessionEnded { .. } => WorkerPhase::Sleep,
                WorkerEvent::SleepEnded { .. } => WorkerPhase::BeginRound,
            }
        }
    }
}

/// The last step of the worker.
fn stop_step() -> (r: WorkerStep)
    ensures
        r.next is Stopped,
        r.effects@ == (EffectsModel {
            reset_shared: true,
            status: Some((PipeWireRuntimeStatus::Stopped, "PipeWire backend stopped"@)),
            ..no_effects()
        }),
{
    WorkerStep {
        effects: Effects {
            reset_shared: true,
            last_error: ErrorUpdate::Keep,
            status: Some(
                PipeWireRuntimeSnapshot::new(
                    PipeWireRuntimeStatus::Stopped,
                    "PipeWire backend stopped",
                ),
            ),
        },
        next: WorkerPhase::Stopped,
    }
}

/// What the result of a discovery leads to.
fn discovered_step(discovered: Result<DiscoveryOutcome, AresError>) -> (r: WorkerStep)
    ensures
        r.effects@ == WorkerEvent::Discovered(discovered).effects(),
        r.next == WorkerEvent::Discovered(discovered).next(),
{
    match discovered {
        Ok(DiscoveryOutcome::Ready { source, target }) => WorkerStep {
            effects: Effects {
                reset_shared: false,
                last_error: ErrorUpdate::Clear,
                status: None,
            },
            next: WorkerPhase::Capture { source, target },
        },
        Ok(DiscoveryOutcome::Waiting { reason }) => WorkerStep {
            effects: Effects {
                reset_shared: true,
                last_error: ErrorUpdate::Replace(reason.clone()),
                status: Some(
                    PipeWireRuntimeSnapshot {
                        status: PipeWireRuntimeStatus::WaitingForSpotify,
                        detail: reason,
                    },
                ),
            },
            next: WorkerPhase::Sleep,
        },
        Err(error) => WorkerStep {
            effects: Effects {
                reset_shared: true,
                last_error: ErrorUpdate::Replace(error.message().to_string()),
                status: Some(
                    PipeWireRuntimeSnapshot::new(PipeWireRuntimeStatus::Error, error.message()),
                ),
            },
            next: WorkerPhase::Sleep,
        },
    }
}

/// What an event of the worker leads to.
pub fn worker_step(event: WorkerEvent) -> (r: WorkerStep)
    ensures
        r.effects@ == event.effects(),
        r.next == event.next(),
{
    match event {
        WorkerEvent::Started => WorkerStep {
            effects: Effects {
                reset_shared: true,
                last_error: ErrorUpdate::Clear,
                status: Some(
                    PipeWireRuntimeSnapshot::new(
                        PipeWireRuntimeStatus::Starting,
                        "starting PipeWire Spotify backend",
                    ),
                ),
            },
            next: WorkerPhase::BeginRound,
        },
        WorkerEvent::RoundBegins { stop_requested } => {
            if stop_requested {
                return stop_step();
            }
            WorkerStep {
                effects: Effects {
                    reset_shared: true,
                    last_error: ErrorUpdate::Keep,
                    status: Some(
                        PipeWireRuntimeSnapshot::new(
                            PipeWireRuntimeStatus::Discovering,
                            "discovering Spotify PipeWire playback source",
                        ),
                    ),
                },
                next: WorkerPhase::Discover,
            }
        },
        WorkerEvent::Discovered(discovered) => discovered_step(discovered),
        WorkerEvent::SessionEnded { stopped_normally, stop_requested } => {
            if stopped_normally || stop_requested {
                return stop_step();
            }
            let mut detail: String = "rediscovering Spotify playback source in ".to_string();
            text::append_decimal(&mut detail, REDISCOVERY_INTERVAL_MS);
            detail.append(" ms");
            WorkerStep {
                effects: Effects {
                    reset_shared: false,
                    last_error: ErrorUpdate::Keep,
                    status: Some(
                        PipeWireRuntimeSnapshot {
                            status: PipeWireRuntimeStatus::Reconnecting,
                            detail,
                        },
                    ),
                },
                next: WorkerPhase::Sleep,
            }
        },
        WorkerEvent::SleepEnded { completed } => {
            if !completed {
                return stop_step();
            }
            WorkerStep { effects: Effects::nothing(), next: WorkerPhase::BeginRound }
        },
    }
}

/// What the start of a capture changes.
pub fn session_started(source: &DiscoveredSource, target: &CaptureTarget) -> (r: Effects)
    ensures
        r@ == (EffectsModel {
            status: Some(
                (
                    PipeWireRuntimeStatus::Starting,
                    "connecting to Spotify source `"@ + source@.shown_name() + "` via "@
                        + target.preferred().text(),
                ),
            ),
            ..no_effects()
        }),
{
    let mut detail: String = "connecting to Spotify source `".to_string();
    detail.append(source.display_name());
    detail.append("` via ");
    detail.append(target.preferred_target_id().describe().as_str());
    Effects {
        reset_shared: false,
        last_error: ErrorUpdate::Keep,
        status: Some(PipeWireRuntimeSnapshot { status: PipeWireRuntimeStatus::Starting, detail }),
    }
}

/// The message about a capture that ended though no stop was requested.
pub open spec fn lost_text<L>(
    source_name: Seq<char>,
    result: Result<CaptureRunSummary<L>, PipeWireCaptureError>,
) -> Seq<char> {
    match result {
        Ok(summary) => "Spotify stream `"@ + source_name + "` stopped after "@ + text::decimal(
            summary.buffers_processed as nat,
        ) + " buffers; rediscovering"@,
        Err(error) => "Spotify stream `"@ + source_name + "` was lost: "@ + error.text(),
    }
}

/// What the end of a capture changes, and whether it ended because a stop was requested. A stream
/// that is lost leaves silence behind.
pub fn session_ended<L>(
    source_name: &str,
    stop_requested: bool,
    result: Result<CaptureRunSummary<L>, PipeWireCaptureError>,
) -> (r: (bool, Effects))
    ensures
        r.0 == stop_requested,
        stop_requested ==> r.1@ == no_effects(),
        !stop_requested ==> r.1@ == (EffectsModel {
            reset_shared: true,
            last_error: ErrorChange::Replace(lost_text(source_name@, result)),
            status: Some(
                (PipeWireRuntimeStatus::StreamLost, lost_text(source_name@, result)),
            ),
        }),
{
    if stop_requested {
        return (true, Effects::nothing());
    }
    let mut message: String = "Spotify stream `".to_string();
    message.append(source_name);
    match &result {
        Ok(summary) => {
            message.append("` stopped after ");
            text::append_decimal(&mut message, summary.buffers_processed);
            message.append(" buffers; rediscovering");
        },
        Err(error) => {
            message.append("` was lost: ");
            message.append(error.message());
        },
    }
    let effects: Effects = Effects {
        reset_shared: true,
        last_error: ErrorUpdate::Replace(message.clone()),
        status: Some(
            PipeWireRuntimeSnapshot {
                status: PipeWireRuntimeStatus::StreamLost,
                detail: message,
            },
        ),
    };
    (false, effects)
}

/// What a sleep does next.
#[derive(Debug, Clone, Copy, PartialEq, Eq, Structural)]
pub enum SleepStep {
    /// Pause for that many nanoseconds and look again.
    Pause(u128),
    /// The sleep is over; it is not complete if a stop was requested.
    Finished { completed: bool },
}

/// What a sleep of `duration` nanoseconds does after `elapsed` of them: a stop request ends it at
/// the next look, and between two looks lie at most 100 milliseconds.
pub open spec fn sleep_step(stop_requested: bool, elapsed: u128, duration: u128) -> SleepStep {
    if stop_requested {
        SleepStep::Finished { completed: false }
    } else if elapsed >= duration {
        SleepStep::Finished { completed: true }
    } else if duration - elapsed < STOP_POLL_INTERVAL {
        SleepStep::Pause((duration - elapsed) as u128)
    } else {
        SleepStep::Pause(STOP_POLL_INTERVAL)
    }
}

/// What a sleep of `duration` nanoseconds does after `elapsed` of them.
pub fn sleep_with_stop(stop_requested: bool, elapsed: u128, duration: u128) -> (r: SleepStep)
    ensures
        r == sleep_step(stop_requested, elapsed, duration),
{
    if elapsed < duration {
        if stop_requested {
            return SleepStep::Finished { completed: false };
        }
        let left: u128 = duration - elapsed;
        if left < STOP_POLL_INTERVAL {
            SleepStep::Pause(left)
        } else {
            SleepStep::Pause(STOP_POLL_INTERVAL)
        }
    } else {
        SleepStep::Finished { completed: !stop_requested }
    }
}

/// What the sleep of the worker between two rounds does after `elapsed` nanoseconds: it lasts until
/// the next discovery is due.
pub fn rediscovery_sleep(stop_requested: bool, elapsed: u128) -> (r: SleepStep)
    ensures
        r == sleep_step(stop_requested, elapsed, REDISCOVERY_INTERVAL),
{
    sleep_with_stop(stop_requested, elapsed, REDISCOVERY_INTERVAL)
}

/// A sleep without a stop request pauses again and again, each time for a while and never beyond
/// its end, until its time has passed; a stop request ends it wherever it stands.
pub proof fn law_sleeps_last_their_time(elapsed: u128, duration: u128)
    ensures
        match sleep_step(false, elapsed, duration) {
            SleepStep::Pause(pause) => 0 < pause <= STOP_POLL_INTERVAL && elapsed + pause
                <= duration,
            SleepStep::Finished { completed } => completed && elapsed >= duration,
        },
        sleep_step(true, elapsed, duration) == (SleepStep::Finished { completed: false }),
{
}

/// The worker ends only when an event tells it to stop, and then leaves silence behind.
pub proof fn law_worker_ends_only_on_request(event: WorkerEvent)
    ensures
        event.next() is Stopped <==> event.stops(),
        event.stops() ==> event.effects().reset_shared && event.effects().status == Some(
            (PipeWireRuntimeStatus::Stopped, "PipeWire backend stopped"@),
        ),
{
}

/// While there is nothing to capture, and while discoveries fail, the worker stays alive: it gives
/// silence, says why, and sleeps until it discovers again.
pub proof fn law_worker_waits_in_silence(discovered: Result<DiscoveryOutcome, AresError>)
    requires
        discovered is Err || discovered->Ok_0 is Waiting,
    ensures
        WorkerEvent::Discovered(discovered).next() is Sleep,
        WorkerEvent::Discovered(discovered).effects().reset_shared,
        WorkerEvent::Discovered(discovered).effects().last_error is Replace,
{
}

/// The event is one that the phase can come upon.
pub open spec fn comes_in(phase: WorkerPhase, event: WorkerEvent) -> bool {
    match phase {
        WorkerPhase::BeginRound => event is RoundBegins,
        WorkerPhase::Discover => event is Discovered,
        WorkerPhase::Capture { .. } => event is SessionEnded,
        WorkerPhase::Sleep => event is SleepEnded,
        WorkerPhase::Stopped => false,
    }
}

/// The events are those of one run of a worker, from its start on.
pub open spec fn is_run(events: Seq<WorkerEvent>) -> bool {
    &&& events.len() > 0
    &&& events[0] is Started
    &&& forall|i: int|
        0 < i < events.len() ==> comes_in(events[i - 1].next(), #[trigger] events[i])
}

/// In every run what is captured is what the discovery directly before it found ready, and that
/// discovery belongs to a round that began with silence.
pub proof fn law_captures_follow_discoveries(events: Seq<WorkerEvent>, i: int)
    requires
        is_run(events),
        0 <= i < events.len(),
    ensures
        match events[i].next() {
            WorkerPhase::Capture { source, target } => {
                &&& i >= 2
                &&& events[i] == WorkerEvent::Discovered(
                    Ok(DiscoveryOutcome::Ready { source, target }),
                )
                &&& events[i - 1] is RoundBegins
                &&& events[i - 1].effects().reset_shared
            },
            _ => true,
        },
{
}

/// In every run a lost capture, a failed discovery and one that found nothing ready are followed,
/// unless the worker is told to stop, by a sleep, the next round and another discovery.
pub proof fn law_lost_streams_are_rediscovered(events: Seq<WorkerEvent>, i: int)
    requires
        is_run(events),
        0 <= i,
        i + 2 < events.len(),
        events[i] is SessionEnded || (events[i] is Discovered && !(events[i].next() is Capture)),
        !events[i].stops(),
        !events[i + 1].stops(),
        !events[i + 2].stops(),
    ensures
        events[i].next() is Sleep,
        events[i + 1].next() is BeginRound,
        events[i + 2].next() is Discover,
        events[i + 2].effects().reset_shared,
{
    assert(comes_in(events[i].next(), events[i + 1]));
    assert(comes_in(events[i + 1].next(), events[i + 2]));
}

/// In every run nothing comes behind the event that tells the worker to stop.
pub proof fn law_stop_ends_the_run(events: Seq<WorkerEvent>, i: int)
    requires
        is_run(events),
        0 <= i < events.len(),
        events[i].stops(),
    ensures
        i == events.len() - 1,
{
    if i + 1 < events.len() {
        assert(comes_in(events[i].next(), events[i + 1]));
    }
}

/// The event tells of a stop request only if there is one.
pub open spec fn tells_truly(event: WorkerEvent, requested: bool) -> bool {
    match event {
        WorkerEvent::Started => true,
        WorkerEvent::RoundBegins { stop_requested } => stop_requested ==> requested,
        WorkerEvent::Discovered(_) => true,
        WorkerEvent::SessionEnded { stopped_normally, stop_requested } => stopped_normally
            || stop_requested ==> requested,
        WorkerEvent::SleepEnded { completed } => !completed ==> requested,
    }
}

/// `requests` says at which events of a run a stop is requested: a request is never taken back, and
/// no event tells of one that has not been made.
pub open spec fn are_requests_of(requests: Seq<bool>, events: Seq<WorkerEvent>) -> bool {
    &&& requests.len() == events.len()
    &&& forall|i: int, j: int|
        0 <= i <= j < requests.len() && #[trigger] requests[i] ==> #[trigger] requests[j]
    &&& forall|i: int| 0 <= i < events.len() ==> tells_truly(#[trigger] events[i], requests[i])
}

/// A worker lives until a stop is requested: a run ends only with a request, and without one every
/// event of it, whatever was found, lost or failed, is followed by another phase.
pub proof fn law_workers_live_until_a_stop_is_requested(
    events: Seq<WorkerEvent>,
    requests: Seq<bool>,
)
    requires
        is_run(events),
        are_requests_of(requests, events),
    ensures
        events.last().next() is Stopped ==> requests.last(),
        forall|i: int|
            0 <= i < events.len() && (#[trigger] events[i]).next() is Stopped ==> requests[i],
        !requests.last() ==> forall|i: int|
            0 <= i < events.len() ==> !((#[trigger] events[i]).next() is Stopped),
{
    let last = events.len() - 1;
    assert(events.last() == events[last] && requests.last() == requests[last]);
    assert forall|i: int| 0 <= i < events.len() && (#[trigger] events[i]).next() is Stopped implies
        requests[i] && requests[last] by {
        assert(tells_truly(events[i], requests[i]));
    }
}

/// The event is one that can come while a stop is requested: where it tells of the request, it
/// tells that there is one.
pub open spec fn sees_stop(event: WorkerEvent) -> bool {
    match event {
        WorkerEvent::Started => true,
        WorkerEvent::RoundBegins { stop_requested } => stop_requested,
        WorkerEvent::Discovered(_) => true,
        WorkerEvent::SessionEnded { stop_requested, .. } => stop_requested,
        WorkerEvent::SleepEnded { completed } => !completed,
    }
}

/// A run in which a stop is requested ends soon: behind the first event that comes with the request
/// there is at most one more, and a run that can go no further has left silence behind.
pub proof fn law_stop_requests_are_followed(events: Seq<WorkerEvent>, i: int)
    requires
        is_run(events),
        0 <= i < events.len(),
        forall|k: int| i <= k < events.len() ==> sees_stop(#[trigger] events[k]),
    ensures
        events.len() <= i + 2,
        events.len() == i + 2 ==> events.last().stops(),
        events.last().stops() ==> events.last().next() is Stopped
            && events.last().effects().reset_shared,
{
    assert(sees_stop(events[i]));
    if i + 1 < events.len() {
        assert(comes_in(events[i].next(), events[i + 1]));
        assert(sees_stop(events[i + 1]));
        if i + 2 < events.len() {
            assert(comes_in(events[i + 1].next(), events[i + 2]));
        }
    }
}

/// A stream that goes to the paused state gives silence.
pub proof fn law_paused_streams_are_silent(event: CaptureEvent<String, String>)
    requires
        event is StateChanged,
        event->new@ == capture::StreamState::Paused.name(),
    ensures
        reaction(event).reset_shared,
        reaction(event).status == Some(
            (
                PipeWireRuntimeStatus::PausedOrSilent,
                "Spotify stream is paused or waiting for audio"@,
            ),
        ),
{
    reveal_strlit("Paused");
    reveal_strlit("Connecting");
    reveal_strlit("Unconnected");
    assert("Paused"@.len() != "Connecting"@.len());
    assert("Paused"@.len() != "Unconnected"@.len());
}

/// What a timer warns of, buffers that do not come or no longer come, gives silence.
pub proof fn law_timer_warnings_give_silence<L>(
    progress: capture::CaptureProgress<L>,
    now: u128,
    warned: Option<CaptureEvent<decode::ObservedAudioFormat, L>>,
    event: CaptureEvent<String, String>,
)
    requires
        progress.is_tick_event(now, warned),
        warned is Some,
        warned->0 is Warning,
        event is Warning,
        event->Warning_message@ == warned->0->Warning_message@,
    ensures
        reaction(event).reset_shared,
        reaction(event).status == Some(
            (PipeWireRuntimeStatus::PausedOrSilent, event->Warning_message@),
        ),
{
    let message = event->Warning_message@;
    if progress.wait_due(now) {
        assert(message.subrange(0, message.len() as int) =~= message);
        assert(text::occurs_at(message, message, 0));
    } else {
        reveal_strlit("no audio buffers received for");
        reveal_strlit("no audio buffers received for ");
        let head = "no audio buffers received for"@;
        assert(message.subrange(0, head.len() as int) =~= head);
        assert(text::occurs_at(message, head, 0));
    }
}

/// A sleep pauses for what is left of it, but never longer than 100 milliseconds at a time, and is
/// complete exactly when its time has passed.
pub proof fn law_sleeps_pause_for_what_is_left(elapsed: u128, duration: u128)
    ensures
        elapsed >= duration ==> sleep_step(false, elapsed, duration) == (SleepStep::Finished {
            completed: true,
        }),
        elapsed < duration && duration - elapsed <= 100_000_000 ==> sleep_step(
            false,
            elapsed,
            duration,
        ) == SleepStep::Pause((duration - elapsed) as u128),
        elapsed < duration && duration - elapsed > 100_000_000 ==> sleep_step(
            false,
            elapsed,
            duration,
        ) == SleepStep::Pause(100_000_000),
{
}

/// The effects of an event touch the last error and the recorded status each on its own: what is
/// not replaced stays, and a message is taken over in full.
pub proof fn law_effects_keep_what_they_do_not_replace<W>(
    effects: EffectsModel,
    runtime: RuntimeModel<W>,
    recorded: (PipeWireRuntimeStatus, Seq<char>),
)
    ensures
        effects.runtime_after(runtime).worker == runtime.worker,
        effects.runtime_after(runtime).kind == runtime.kind,
        effects.last_error is Keep ==> effects.runtime_after(runtime).error == runtime.error,
        effects.last_error is Clear ==> effects.runtime_after(runtime).error.len() == 0,
        effects.last_error is Replace ==> effects.runtime_after(runtime).error
            == effects.last_error->Replace_0,
        effects.status is None ==> effects.status_after(recorded) == recorded,
        effects.status is Some ==> effects.status_after(recorded) == effects.status->0,
{
}

/// What a change of the stream state leads to: a stream on its way is starting, a paused one is
/// silent and says so, and a streaming one has no error.
pub proof fn law_reactions_to_stream_states(event: CaptureEvent<String, String>)
    requires
        event is StateChanged,
    ensures
        ({
            let r = reaction(event);
            let new = event->new@;
            &&& new == "Connecting"@ || new == "Unconnected"@ ==> {
                &&& !r.reset_shared
                &&& r.last_error is Keep
                &&& r.status == Some(
                    (
                        PipeWireRuntimeStatus::Starting,
                        "PipeWire stream state: "@ + event->old@ + " -> "@ + new,
                    ),
                )
            }
            &&& new == "Paused"@ ==> {
                &&& r.reset_shared
                &&& r.last_error == ErrorChange::Replace(
                    "Spotify stream is paused or waiting for audio"@,
                )
            }
            &&& new == "Streaming"@ ==> {
                &&& !r.reset_shared
                &&& r.last_error is Clear
                &&& r.status == Some(
                    (PipeWireRuntimeStatus::Capturing, "capturing Spotify audio"@),
                )
            }
            &&& new != "Connecting"@ && new != "Unconnected"@ && new != "Paused"@ && new
                != "Streaming"@ ==> !r.reset_shared && r.last_error is Keep && r.status is None
        }),
{
    reveal_strlit("Paused");
    reveal_strlit("Connecting");
    reveal_strlit("Unconnected");
    reveal_strlit("Streaming");
    assert("Paused"@.len() == 6 && "Connecting"@.len() == 10 && "Unconnected"@.len() == 11
        && "Streaming"@.len() == 9);
}

/// What the other events of a capture lead to. Levels and formats are told in full and never
/// silence the output; a warning is always the last error, and silences it only if it is about a
/// pause.
pub proof fn law_reactions_to_reports(event: CaptureEvent<String, String>)
    ensures
        ({
            let r = reaction(event);
            match event {
                CaptureEvent::Info { message } => !r.reset_shared && r.last_error is Keep
                    && r.status is None,
                CaptureEvent::StateChanged { .. } => true,
                CaptureEvent::FormatNegotiated { format } => {
                    &&& !r.reset_shared
                    &&& r.last_error is Keep
                    &&& r.status == Some(
                        (PipeWireRuntimeStatus::Starting, "negotiated format: "@ + format@),
                    )
                },
                CaptureEvent::Levels { format, levels, buffers_processed } => {
                    &&& !r.reset_shared
                    &&& r.last_error is Clear
                    &&& r.status == Some(
                        (
                            PipeWireRuntimeStatus::Capturing,
                            "capturing Spotify audio (buffers="@ + text::decimal(
                                buffers_processed as nat,
                            ) + ", rms="@ + levels.rms@ + ", peak="@ + levels.peak@ + ")"@,
                        ),
                    )
                },
                CaptureEvent::Warning { message } => {
                    &&& r.last_error == ErrorChange::Replace(message@)
                    &&& pipewire::is_pause_text(message@) ==> r.reset_shared && r.status == Some(
                        (PipeWireRuntimeStatus::PausedOrSilent, message@),
                    )
                    &&& !pipewire::is_pause_text(message@) ==> !r.reset_shared && r.status is None
                },
            }
        }),
{
}

/// What the worker does next, and what it tells, on each of its events while no stop is asked for.
/// Reasons and errors are told in full.
pub proof fn law_worker_goes_on(event: WorkerEvent)
    requires
        !event.stops(),
    ensures
        match event {
            WorkerEvent::Started => {
                &&& event.next() is BeginRound
                &&& event.effects().reset_shared
                &&& event.effects().last_error is Clear
                &&& event.effects().status == Some(
                    (PipeWireRuntimeStatus::Starting, "starting PipeWire Spotify backend"@),
                )
            },
            WorkerEvent::RoundBegins { .. } => {
                &&& event.next() is Discover
                &&& event.effects().reset_shared
                &&& event.effects().last_error is Keep
                &&& event.effects().status == Some(
                    (
                        PipeWireRuntimeStatus::Discovering,
                        "discovering Spotify PipeWire playback source"@,
                    ),
                )
            },
            WorkerEvent::Discovered(Ok(DiscoveryOutcome::Ready { source, target })) => {
                &&& event.next() == (WorkerPhase::Capture { source, target })
                &&& !event.effects().reset_shared
                &&& event.effects().last_error is Clear
                &&& event.effects().status is None
            },
            WorkerEvent::Discovered(Ok(DiscoveryOutcome::Waiting { reason })) => {
                &&& event.next() is Sleep
                &&& event.effects().reset_shared
                &&& event.effects().last_error == ErrorChange::Replace(reason@)
                &&& event.effects().status == Some(
                    (PipeWireRuntimeStatus::WaitingForSpotify, reason@),
                )
            },
            WorkerEvent::Discovered(Err(error)) => {
                &&& event.next() is Sleep
                &&& event.effects().reset_shared
                &&& event.effects().last_error == ErrorChange::Replace(error.text())
                &&& event.effects().status == Some((PipeWireRuntimeStatus::Error, error.text()))
            },
            WorkerEvent::SessionEnded { .. } => {
                &&& event.next() is Sleep
                &&& event.effects().last_error is Keep
                &&& event.effects().status == Some(
                    (
                        PipeWireRuntimeStatus::Reconnecting,
                        "rediscovering Spotify playback source in 2000 ms"@,
                    ),
                )
            },
            WorkerEvent::SleepEnded { .. } => {
                &&& event.next() is BeginRound
                &&& !event.effects().reset_shared
                &&& event.effects().last_error is Keep
                &&& event.effects().status is None
            },
        },
{
    reveal_strlit("rediscovering Spotify playback source in ");
    reveal_strlit(" ms");
    reveal_strlit("rediscovering Spotify playback source in 2000 ms");
    reveal_with_fuel(text::decimal, 5);
    assert(text::decimal(2000) =~= seq!['2', '0', '0', '0']);
    assert("rediscovering Spotify playback source in "@ + text::decimal(2000) + " ms"@
        =~= "rediscovering Spotify playback source in 2000 ms"@);
}

/// Which events tell the worker to stop: exactly those that say that a stop was requested.
pub proof fn law_events_that_stop_the_worker(
    requested: bool,
    stopped_normally: bool,
    completed: bool,
    discovered: Result<DiscoveryOutcome, AresError>,
)
    ensures
        !WorkerEvent::Started.stops(),
        !WorkerEvent::Discovered(discovered).stops(),
        (WorkerEvent::RoundBegins { stop_requested: requested }).stops() == requested,
        (WorkerEvent::SessionEnded { stopped_normally, stop_requested: requested }).stops() == (
        stopped_normally || requested),
        (WorkerEvent::SleepEnded { completed }).stops() == !completed,
{
}

/// A lost stream is told by its name, and with how many buffers it gave or the error that ended it,
/// in full.
pub proof fn law_losses_are_told_in_full<L>(
    name: Seq<char>,
    summary: CaptureRunSummary<L>,
    error: PipeWireCaptureError,
)
    ensures
        lost_text::<L>(name, Ok(summary)) == "Spotify stream `"@ + name + "` stopped after "@
            + text::decimal(summary.buffers_processed as nat) + " buffers; rediscovering"@,
        lost_text::<L>(name, Err(error)) == "Spotify stream `"@ + name + "` was lost: "@
            + error.text(),
{
}

/// What contracts say of effects shows each of them as it is.
pub proof fn law_effects_are_shown_as_they_are(effects: Effects, message: String)
    ensures
        effects@.reset_shared == effects.reset_shared,
        effects@.last_error == effects.last_error@,
        effects.status is None ==> effects@.status is None,
        effects.status is Some ==> effects@.status == Some(
            (effects.status->0.status, effects.status->0.detail@),
        ),
        ErrorUpdate::Keep@ is Keep,
        ErrorUpdate::Clear@ is Clear,
        ErrorUpdate::Replace(message)@ == ErrorChange::Replace(message@),
{
}

} // verus!
