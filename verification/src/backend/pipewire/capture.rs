//! What a capture of one stream does on each event of the stream and of its timer.

use crate::backend::pipewire::decode;
use crate::backend::pipewire::decode::{
    decode_audio_buffer, BufferPlane, ObservedAudioFormat, RawSample,
};
use crate::backend::pipewire::discovery;
use crate::backend::pipewire::discovery::copy_text;
use crate::text;
use vstd::prelude::*;

verus! {

/// Nanoseconds between two ticks of the capture timer.
pub const LEVEL_EMIT_INTERVAL: u128 = 100_000_000;

/// Nanoseconds after which a capture without a buffer is reported.
pub const WAITING_NOTICE_DELAY: u128 = 2_000_000_000;

/// Milliseconds without a new buffer after which a capture is reported as stalled.
pub const BUFFER_STALL_NOTICE_DELAY_MS: u64 = 750;

/// The same in nanoseconds.
pub const BUFFER_STALL_NOTICE_DELAY: u128 = 750_000_000;

/// How the node to capture is named to PipeWire.
#[derive(Debug, Clone, Copy, PartialEq, Eq, Structural)]
pub enum CaptureTargetId {
    ObjectSerial(u64),
    GlobalNodeId(u32),
}

impl CaptureTargetId {
    /// The identifier in words.
    pub open spec fn text(self) -> Seq<char> {
        match self {
            CaptureTargetId::ObjectSerial(serial) => "object.serial="@ + text::decimal(
                serial as nat,
            ),
            CaptureTargetId::GlobalNodeId(id) => "global node id="@ + text::decimal(id as nat),
        }
    }

    /// The identifier in words.
    pub fn describe(self) -> (r: String)
        ensures
            r@ == self.text(),
    {
        match self {
            CaptureTargetId::ObjectSerial(serial) => {
                let mut r: String = "object.serial=".to_string();
                text::append_decimal(&mut r, serial);
                r
            },
            CaptureTargetId::GlobalNodeId(id) => {
                let mut r: String = "global node id=".to_string();
                text::append_decimal(&mut r, id as u64);
                r
            },
        }
    }
}

/// The node to capture.
#[derive(Debug, PartialEq, Eq)]
pub struct CaptureTarget {
    pub node_id: u32,
    pub object_serial: Option<u64>,
    pub display_name: String,
    pub node_name: Option<String>,
}

impl Clone for CaptureTarget {
    fn clone(&self) -> (r: Self)
        ensures
            r == *self,
    {
        CaptureTarget {
            node_id: self.node_id,
            object_serial: self.object_serial,
            display_name: self.display_name.clone(),
            node_name: copy_text(&self.node_name),
        }
    }
}

impl CaptureTarget {
    /// How the node is named to PipeWire: by its serial number where it has one.
    pub open spec fn preferred(self) -> CaptureTargetId {
        match self.object_serial {
            Some(serial) => CaptureTargetId::ObjectSerial(serial),
            None => CaptureTargetId::GlobalNodeId(self.node_id),
        }
    }

    /// How the node is named to PipeWire.
    pub fn preferred_target_id(&self) -> (r: CaptureTargetId)
        ensures
            r == self.preferred(),
    {
        match self.object_serial {
            Some(serial) => CaptureTargetId::ObjectSerial(serial),
            None => CaptureTargetId::GlobalNodeId(self.node_id),
        }
    }
}

/// Loudness of one captured buffer, over readings of type `L`.
#[derive(Debug, Clone, Copy, PartialEq)]
pub struct AudioLevelSnapshot<L> {
    pub rms: L,
    pub peak: L,
    pub frames: usize,
}

/// What a finished capture has seen.
#[derive(Debug, PartialEq)]
pub struct CaptureRunSummary<L> {
    pub target_id: CaptureTargetId,
    pub capture_node_id: Option<u32>,
    pub observed_format: Option<ObservedAudioFormat>,
    pub last_levels: Option<AudioLevelSnapshot<L>>,
    pub buffers_processed: u64,
}

impl<L: Copy> Clone for CaptureRunSummary<L> {
    fn clone(&self) -> (r: Self)
        ensures
            r == *self,
    {
        *self
    }
}

impl<L: Copy> Copy for CaptureRunSummary<L> {

}

/// What a capture tells its observer. `F` stands for the negotiated format and `L` for a loudness
/// reading, each as a value or already in words.
#[derive(Debug, Clone, PartialEq)]
pub enum CaptureEvent<F, L> {
    Info { message: String },
    StateChanged { old: String, new: String, capture_node_id: Option<u32> },
    FormatNegotiated { format: F },
    Levels { format: F, levels: AudioLevelSnapshot<L>, buffers_processed: u64 },
    Warning { message: String },
}

/// The event is a warning with that message.
pub open spec fn warns<F, L>(event: Option<CaptureEvent<F, L>>, message: Seq<char>) -> bool {
    event is Some && event->0 is Warning && event->0->Warning_message@ == message
}

/// The event is a notice with that message.
pub open spec fn informs<F, L>(event: Option<CaptureEvent<F, L>>, message: Seq<char>) -> bool {
    event is Some && event->0 is Info && event->0->Info_message@ == message
}

/// Why a capture failed.
#[derive(Debug)]
pub enum PipeWireCaptureError {
    InvalidTarget(&'static str),
    PipeWire(String),
    Stream(String),
}

impl PipeWireCaptureError {
    /// The message of the error.
    pub open spec fn text(self) -> Seq<char> {
        match self {
            PipeWireCaptureError::InvalidTarget(message) => message@,
            PipeWireCaptureError::PipeWire(message) => message@,
            PipeWireCaptureError::Stream(message) => message@,
        }
    }

    /// The message of the error.
    pub fn message(&self) -> (r: &str)
        ensures
            r@ == self.text(),
    {
        match self {
            PipeWireCaptureError::InvalidTarget(message) => message,
            PipeWireCaptureError::PipeWire(message) => message.as_str(),
            PipeWireCaptureError::Stream(message) => message.as_str(),
        }
    }
}

/// What a capture needs before its stream is connected.
#[derive(Debug)]
pub struct CaptureSetup {
    /// How the node is named to PipeWire.
    pub target_id: CaptureTargetId,
    /// The notice that names the node.
    pub notice: String,
    /// The value of the stream property `target.object`, where it is set.
    pub target_object: Option<String>,
    /// The node identifier that the stream connects to, where one is given.
    pub connect_id: Option<u32>,
}

/// The notice that names the node to capture.
pub open spec fn target_notice(target: CaptureTarget) -> Seq<char> {
    match target.preferred() {
        CaptureTargetId::ObjectSerial(serial) => "targeting Spotify node "@ + target.display_name@
            + " via target.object=object.serial "@ + text::decimal(serial as nat),
        CaptureTargetId::GlobalNodeId(id) => "targeting Spotify node "@ + target.display_name@
            + " via global node id "@ + text::decimal(id as nat) + " fallback"@,
    }
}

/// The node identifier that the stream connects to: none where the node goes by its serial number.
pub fn connect_target_id(target_id: CaptureTargetId) -> (r: Option<u32>)
    ensures
        r == match target_id {
            CaptureTargetId::ObjectSerial(_) => None::<u32>,
            CaptureTargetId::GlobalNodeId(id) => Some(id),
        },
{
    match target_id {
        CaptureTargetId::ObjectSerial(_) => None,
        CaptureTargetId::GlobalNodeId(id) => Some(id),
    }
}

/// What a capture of the target needs. A target with node identifier zero is refused.
pub fn prepare_capture(target: &CaptureTarget) -> (r: Result<CaptureSetup, PipeWireCaptureError>)
    ensures
        target.node_id == 0 ==> r is Err && r->Err_0 is InvalidTarget && r->Err_0.text()
            == "target node id must be non-zero"@,
        target.node_id != 0 ==> {
            &&& r is Ok
            &&& r->Ok_0.target_id == target.preferred()
            &&& r->Ok_0.notice@ == target_notice(*target)
            &&& match target.preferred() {
                CaptureTargetId::ObjectSerial(serial) => r->Ok_0.target_object is Some
                    && r->Ok_0.target_object->0@ == text::decimal(serial as nat)
                    && r->Ok_0.connect_id is None,
                CaptureTargetId::GlobalNodeId(id) => r->Ok_0.target_object is None
                    && r->Ok_0.connect_id == Some(id),
            }
        },
{
    if target.node_id == 0 {
        return Err(PipeWireCaptureError::InvalidTarget("target node id must be non-zero"));
    }
    let target_id: CaptureTargetId = target.preferred_target_id();
    let mut notice: String = "targeting Spotify node ".to_string();
    notice.append(target.display_name.as_str());
    let target_object: Option<String> = match target_id {
        CaptureTargetId::ObjectSerial(serial) => {
            notice.append(" via target.object=object.serial ");
            text::append_decimal(&mut notice, serial);
            Some(text::decimal_text(serial))
        },
        CaptureTargetId::GlobalNodeId(id) => {
            notice.append(" via global node id ");
            text::append_decimal(&mut notice, id as u64);
            notice.append(" fallback");
            None
        },
    };
    Ok(
        CaptureSetup {
            target_id,
            notice,
            target_object,
            connect_id: connect_target_id(target_id),
        },
    )
}

/// The identifier of a node, where the number is one: zero and the highest number stand for none.
pub open spec fn known_node_id(node_id: u32) -> Option<u32> {
    if node_id != u32::MAX && node_id != 0 {
        Some(node_id)
    } else {
        None
    }
}

/// Where an identifier is given, it is that of a node.
pub open spec fn valid_node_id(id: Option<u32>) -> bool {
    id is Some ==> id->0 != 0 && id->0 != u32::MAX
}

/// The identifier of a node, where the number is one.
pub fn sanitize_node_id(node_id: u32) -> (r: Option<u32>)
    ensures
        r == known_node_id(node_id),
        valid_node_id(r),
{
    if node_id != u32::MAX && node_id != 0 {
        Some(node_id)
    } else {
        None
    }
}

/// The state of a stream.
#[derive(Debug, PartialEq, Eq)]
pub enum StreamState {
    Error(String),
    Unconnected,
    Connecting,
    Paused,
    Streaming,
}

impl StreamState {
    /// The name of the state.
    pub open spec fn name(self) -> Seq<char> {
        match self {
            StreamState::Error(message) => "Error("@ + message@ + ")"@,
            StreamState::Unconnected => "Unconnected"@,
            StreamState::Connecting => "Connecting"@,
            StreamState::Paused => "Paused"@,
            StreamState::Streaming => "Streaming"@,
        }
    }
}

/// The name of a stream state.
pub fn stream_state_name(state: &StreamState) -> (r: String)
    ensures
        r@ == state.name(),
{
    match state {
        StreamState::Error(message) => {
            let mut r: String = "Error(".to_string();
            r.append(message.as_str());
            r.append(")");
            r
        },
        StreamState::Unconnected => "Unconnected".to_string(),
        StreamState::Connecting => "Connecting".to_string(),
        StreamState::Paused => "Paused".to_string(),
        StreamState::Streaming => "Streaming".to_string(),
    }
}

/// What became of a parameter that the stream announced.
#[derive(Debug)]
pub enum FormatReport {
    /// There was no parameter.
    NoParam,
    /// The parameter is not a format.
    OtherParam,
    /// The format could not be parsed; the error in words.
    Unparsed { error: String },
    /// The format was parsed: whether it is audio and raw, the media type and subtype in words,
    /// and the details of raw audio or why they could not be read.
    Parsed {
        audio: bool,
        raw: bool,
        media_type: String,
        media_subtype: String,
        details: Result<ObservedAudioFormat, String>,
    },
}

/// How far a capture has come.
pub struct CaptureProgress<L> {
    pub target_id: CaptureTargetId,
    pub capture_node_id: Option<u32>,
    pub observed_format: Option<ObservedAudioFormat>,
    pub last_levels: Option<AudioLevelSnapshot<L>>,
    pub buffers_processed: u64,
    pub last_emitted_buffer_count: u64,
    /// When the capture started, in nanoseconds of a clock that never goes back.
    pub started_at: u128,
    /// When the last buffer was processed, by the same clock.
    pub last_buffer_at: Option<u128>,
    pub wait_notice_emitted: bool,
    pub warned_missing_format: bool,
    pub last_conversion_warning: Option<String>,
    pub last_error: Option<String>,
    pub stop_notice_emitted: bool,
    pub stall_notice_emitted: bool,
}

/// What can change the progress of a capture.
pub enum CaptureStep<L> {
    /// A tick of the timer while no stop is requested.
    Tick { now: u128 },
    /// A tick of the timer that sees a stop request.
    StopSeen,
    /// A change of the stream state, with the error of the new state where it is one.
    StateChanged { node_id: u32, error: Option<String> },
    /// A format that can be used was announced.
    FormatSeen { format: ObservedAudioFormat },
    /// A buffer came before a format.
    FormatMissed,
    /// A buffer could not be decoded, and the warning was not given last.
    Undecodable { warning: Option<String> },
    /// A buffer was processed.
    Recorded { levels: AudioLevelSnapshot<L>, now: u128 },
}

/// What a tick of the timer leads to.
pub struct TimerStep<L> {
    pub event: Option<CaptureEvent<ObservedAudioFormat, L>>,
    /// The capture is over.
    pub quit: bool,
}

/// What a change of the stream state leads to.
pub struct StreamStep<L> {
    pub event: CaptureEvent<ObservedAudioFormat, L>,
    /// The capture is over.
    pub quit: bool,
}

/// What a captured buffer leads to.
pub enum BufferStep<L> {
    /// Nothing to do.
    Nothing,
    /// A warning to pass on.
    Warn(CaptureEvent<ObservedAudioFormat, L>),
    /// Frames to analyse, in the format in which they came.
    Frames(ObservedAudioFormat, Vec<Vec<RawSample>>),
}

/// The time that has passed between two moments.
pub open spec fn elapsed(since: u128, now: u128) -> int {
    if now >= since {
        now - since
    } else {
        0
    }
}

/// The time that has passed between two moments.
fn elapsed_since(since: u128, now: u128) -> (r: u128)
    ensures
        r == elapsed(since, now),
{
    if now >= since {
        now - since
    } else {
        0
    }
}

/// The warning about a capture that no longer gets buffers.
pub open spec fn stall_text() -> Seq<char> {
    "no audio buffers received for "@ + text::decimal(BUFFER_STALL_NOTICE_DELAY_MS as nat)
        + " ms; Spotify may be paused or corked"@
}

/// The warning about a capture that has not got a buffer yet.
pub open spec fn waiting_text(format_known: bool) -> Seq<char> {
    if format_known {
        "connected to PipeWire but no audio buffers have arrived yet"@
    } else {
        "waiting for PipeWire format negotiation and first audio buffers"@
    }
}

impl<L> CaptureProgress<L> {
    /// What holds of every capture: the emitted count never runs ahead, a capture has seen levels
    /// and a time of arrival exactly when it has processed a buffer, it has seen a format by then,
    /// and what it holds as the identifier of its node is one.
    pub open spec fn wf(self) -> bool {
        &&& self.last_emitted_buffer_count <= self.buffers_processed
        &&& self.buffers_processed > 0 ==> self.observed_format is Some
        &&& self.buffers_processed > 0 <==> self.last_levels is Some
        &&& self.buffers_processed > 0 <==> self.last_buffer_at is Some
        &&& valid_node_id(self.capture_node_id)
    }

    /// A capture that has just started.
    pub open spec fn started(target_id: CaptureTargetId, now: u128) -> Self {
        CaptureProgress {
            target_id,
            capture_node_id: None,
            observed_format: None,
            last_levels: None,
            buffers_processed: 0,
            last_emitted_buffer_count: 0,
            started_at: now,
            last_buffer_at: None,
            wait_notice_emitted: false,
            warned_missing_format: false,
            last_conversion_warning: None,
            last_error: None,
            stop_notice_emitted: false,
            stall_notice_emitted: false,
        }
    }

    /// A buffer has been processed since levels were last emitted.
    pub open spec fn fresh(self) -> bool {
        self.buffers_processed > self.last_emitted_buffer_count
    }

    /// Levels are to be emitted.
    pub open spec fn levels_due(self) -> bool {
        self.fresh() && self.observed_format is Some && self.last_levels is Some
    }

    /// The warning about a first buffer that does not come is due.
    pub open spec fn wait_due(self, now: u128) -> bool {
        &&& !self.levels_due()
        &&& !self.wait_notice_emitted
        &&& self.buffers_processed == 0
        &&& elapsed(self.started_at, now) >= WAITING_NOTICE_DELAY
    }

    /// The warning about buffers that no longer come is due.
    pub open spec fn stall_due(self, now: u128) -> bool {
        &&& !self.levels_due()
        &&& !self.stall_notice_emitted
        &&& self.buffers_processed > 0
        &&& self.last_buffer_at is Some
        &&& elapsed(self.last_buffer_at->0, now) >= BUFFER_STALL_NOTICE_DELAY
    }

    /// The progress after a tick of the timer.
    pub open spec fn after_tick(self, now: u128) -> Self {
        CaptureProgress {
            last_emitted_buffer_count: if self.fresh() {
                self.buffers_processed
            } else {
                self.last_emitted_buffer_count
            },
            wait_notice_emitted: self.wait_notice_emitted || self.wait_due(now),
            stall_notice_emitted: self.stall_notice_emitted || self.stall_due(now),
            ..self
        }
    }

    /// The progress after a step.
    pub open spec fn after(self, step: CaptureStep<L>) -> Self {
        match step {
            CaptureStep::Tick { now } => self.after_tick(now),
            CaptureStep::StopSeen => CaptureProgress { stop_notice_emitted: true, ..self },
            CaptureStep::StateChanged { node_id, error } => CaptureProgress {
                capture_node_id: known_node_id(node_id),
                last_error: if error is Some {
                    error
                } else {
                    self.last_error
                },
                ..self
            },
            CaptureStep::FormatSeen { format } => CaptureProgress {
                observed_format: Some(format),
                ..self
            },
            CaptureStep::FormatMissed => CaptureProgress { warned_missing_format: true, ..self },
            CaptureStep::Undecodable { warning } => CaptureProgress {
                last_conversion_warning: warning,
                ..self
            },
            CaptureStep::Recorded { levels, now } => CaptureProgress {
                buffers_processed: (self.buffers_processed + 1) as u64,
                last_levels: Some(levels),
                last_buffer_at: Some(now),
                stall_notice_emitted: false,
                ..self
            },
        }
    }

    /// The progress after steps, one behind the other.
    pub open spec fn after_all(self, steps: Seq<CaptureStep<L>>) -> Self
        decreases steps.len(),
    {
        if steps.len() == 0 {
            self
        } else {
            self.after_all(steps.drop_last()).after(steps.last())
        }
    }

    /// The step can come now: a buffer is recorded only once a format has been seen, and while it
    /// can be counted.
    pub open spec fn allows(self, step: CaptureStep<L>) -> bool {
        step is Recorded ==> self.observed_format is Some && self.buffers_processed < u64::MAX
    }

    /// The event of a tick of the timer.
    pub open spec fn is_tick_event(
        self,
        now: u128,
        event: Option<CaptureEvent<ObservedAudioFormat, L>>,
    ) -> bool {
        if self.levels_due() {
            event == Some(
                CaptureEvent::Levels {
                    format: self.observed_format->0,
                    levels: self.last_levels->0,
                    buffers_processed: self.buffers_processed,
                },
            )
        } else if self.wait_due(now) {
            warns(event, waiting_text(self.observed_format is Some))
        } else if self.stall_due(now) {
            warns(event, stall_text())
        } else {
            event is None
        }
    }
}

impl<L: Copy> CaptureProgress<L> {
    /// A capture that has just started.
    pub fn new(target_id: CaptureTargetId, now: u128) -> (r: Self)
        ensures
            r.wf(),
            r == CaptureProgress::<L>::started(target_id, now),
    {
        CaptureProgress {
            target_id,
            capture_node_id: None,
            observed_format: None,
            last_levels: None,
            buffers_processed: 0,
            last_emitted_buffer_count: 0,
            started_at: now,
            last_buffer_at: None,
            wait_notice_emitted: false,
            warned_missing_format: false,
            last_conversion_warning: None,
            last_error: None,
            stop_notice_emitted: false,
            stall_notice_emitted: false,
        }
    }

    /// The event of a tick of the timer: new levels, else a warning that buffers do not come or
    /// no longer come, each given once.
    pub fn pending_timer_event(&mut self, now: u128) -> (r: Option<
        CaptureEvent<ObservedAudioFormat, L>,
    >)
        ensures
            *final(self) == old(self).after(CaptureStep::Tick { now }),
            old(self).is_tick_event(now, r),
            old(self).wf() ==> final(self).wf(),
    {
        if self.buffers_processed > self.last_emitted_buffer_count {
            self.last_emitted_buffer_count = self.buffers_processed;
            if let (Some(format), Some(levels)) = (self.observed_format, self.last_levels) {
                return Some(
                    CaptureEvent::Levels {
                        format,
                        levels,
                        buffers_processed: self.buffers_processed,
                    },
                );
            }
        }
        if !self.wait_notice_emitted && self.buffers_processed == 0 && elapsed_since(
            self.started_at,
            now,
        ) >= WAITING_NOTICE_DELAY {
            self.wait_notice_emitted = true;
            let message: String = if self.observed_format.is_some() {
                "connected to PipeWire but no audio buffers have arrived yet".to_string()
            } else {
                "waiting for PipeWire format negotiation and first audio buffers".to_string()
            };
            return Some(CaptureEvent::Warning { message });
        }
        if !self.stall_notice_emitted && self.buffers_processed > 0 {
            if let Some(at) = self.last_buffer_at {
                if elapsed_since(at, now) >= BUFFER_STALL_NOTICE_DELAY {
                    self.stall_notice_emitted = true;
                    let mut message: String = "no audio buffers received for ".to_string();
                    text::append_decimal(&mut message, BUFFER_STALL_NOTICE_DELAY_MS);
                    message.append(" ms; Spotify may be paused or corked");
                    return Some(CaptureEvent::Warning { message });
                }
            }
        }
        None
    }

    /// A tick of the timer. Once a stop is requested the capture is over, and the stop notice,
    /// where there is one, is given once.
    pub fn on_timer(&mut self, stop_requested: bool, stop_notice: Option<&str>, now: u128) -> (r:
        TimerStep<L>)
        ensures
            r.quit == stop_requested,
            stop_requested ==> {
                &&& *final(self) == old(self).after(CaptureStep::StopSeen)
                &&& if !old(self).stop_notice_emitted && stop_notice is Some {
                    informs(r.event, stop_notice->0@)
                } else {
                    r.event is None
                }
            },
            !stop_requested ==> {
                &&& *final(self) == old(self).after(CaptureStep::Tick { now })
                &&& old(self).is_tick_event(now, r.event)
            },
            old(self).wf() ==> final(self).wf(),
    {
        if stop_requested {
            let first: bool = !self.stop_notice_emitted;
            self.stop_notice_emitted = true;
            let event: Option<CaptureEvent<ObservedAudioFormat, L>> = match stop_notice {
                Some(message) => if first {
                    Some(CaptureEvent::Info { message: message.to_string() })
                } else {
                    None
                },
                None => None,
            };
            TimerStep { event, quit: true }
        } else {
            let event: Option<CaptureEvent<ObservedAudioFormat, L>> = self.pending_timer_event(now);
            TimerStep { event, quit: false }
        }
    }

    /// A change of the stream state. The observer is told of it; an error ends the capture and is
    /// kept.
    pub fn on_state_changed(
        &mut self,
        node_id: u32,
        old_state: &StreamState,
        new_state: StreamState,
    ) -> (r: StreamStep<L>)
        ensures
            r.quit == (new_state is Error),
            r.event is StateChanged,
            r.event->old@ == old_state.name(),
            r.event->new@ == new_state.name(),
            r.event->capture_node_id == known_node_id(node_id),
            *final(self) == old(self).after(
                CaptureStep::StateChanged {
                    node_id,
                    error: if new_state is Error {
                        Some(new_state->Error_0)
                    } else {
                        None
                    },
                },
            ),
            old(self).wf() ==> final(self).wf(),
    {
        let capture_node_id: Option<u32> = sanitize_node_id(node_id);
        self.capture_node_id = capture_node_id;
        let event: CaptureEvent<ObservedAudioFormat, L> = CaptureEvent::StateChanged {
            old: stream_state_name(old_state),
            new: stream_state_name(&new_state),
            capture_node_id,
        };
        match new_state {
            StreamState::Error(message) => {
                self.last_error = Some(message);
                StreamStep { event, quit: true }
            },
            _ => StreamStep { event, quit: false },
        }
    }

    /// A parameter that the stream announced. Raw audio sets the format; what cannot be used is
    /// warned of.
    pub fn on_param_changed(&mut self, report: FormatReport) -> (r: Option<
        CaptureEvent<ObservedAudioFormat, L>,
    >)
        ensures
            match report {
                FormatReport::NoParam => r is None && *final(self) == *old(self),
                FormatReport::OtherParam => r is None && *final(self) == *old(self),
                FormatReport::Unparsed { error } => warns(
                    r,
                    "failed to parse stream format: "@ + error@,
                ) && *final(self) == *old(self),
                FormatReport::Parsed { audio, raw, media_type, media_subtype, details } => if !audio
                    || !raw {
                    warns(
                        r,
                        "unsupported PipeWire media format: "@ + media_type@ + " / "@
                            + media_subtype@,
                    ) && *final(self) == *old(self)
                } else {
                    match details {
                        Err(error) => warns(
                            r,
                            "failed to parse audio format details: "@ + error@,
                        ) && *final(self) == *old(self),
                        Ok(format) => {
                            &&& r == Some(
                                CaptureEvent::<
                                    ObservedAudioFormat,
                                    L,
                                >::FormatNegotiated { format },
                            )
                            &&& *final(self) == old(self).after(
                                CaptureStep::FormatSeen { format },
                            )
                        },
                    }
                },
            },
            old(self).wf() ==> final(self).wf(),
    {
        match report {
            FormatReport::NoParam => None,
            FormatReport::OtherParam => None,
            FormatReport::Unparsed { error } => {
                let mut message: String = "failed to parse stream format: ".to_string();
                message.append(error.as_str());
                Some(CaptureEvent::Warning { message })
            },
            FormatReport::Parsed { audio, raw, media_type, media_subtype, details } => {
                if !audio || !raw {
                    let mut message: String = "unsupported PipeWire media format: ".to_string();
                    message.append(media_type.as_str());
                    message.append(" / ");
                    message.append(media_subtype.as_str());
                    return Some(CaptureEvent::Warning { message });
                }
                match details {
                    Err(error) => {
                        let mut message: String =
                            "failed to parse audio format details: ".to_string();
                        message.append(error.as_str());
                        Some(CaptureEvent::Warning { message })
                    },
                    Ok(format) => {
                        self.observed_format = Some(format);
                        Some(CaptureEvent::FormatNegotiated { format })
                    },
                }
            },
        }
    }

    /// A captured buffer. Before a format is known, and when the buffer cannot be decoded, it is
    /// dropped with a warning; the same warning is not given twice in a row.
    pub fn on_buffer(&mut self, planes: &[BufferPlane], format_name: &str) -> (r: BufferStep<L>)
        ensures
            match old(self).observed_format {
                None => {
                    &&& *final(self) == old(self).after(CaptureStep::FormatMissed)
                    &&& if old(self).warned_missing_format {
                        r is Nothing
                    } else {
                        r is Warn && warns(
                            Some(r->Warn_0),
                            "received audio buffers before format negotiation completed"@,
                        )
                    }
                },
                Some(format) => match decode::buffer_error(format) {
                    Some(error) => if discovery::text_of(old(self).last_conversion_warning) == Some(
                        error.text(format_name@),
                    ) {
                        r is Nothing && *final(self) == *old(self)
                    } else {
                        &&& r is Warn
                        &&& warns(Some(r->Warn_0), error.text(format_name@))
                        &&& discovery::text_of(final(self).last_conversion_warning) == Some(
                            error.text(format_name@),
                        )
                        &&& *final(self) == old(self).after(
                            CaptureStep::Undecodable {
                                warning: final(self).last_conversion_warning,
                            },
                        )
                    },
                    None => {
                        &&& *final(self) == *old(self)
                        &&& if decode::buffer_frames(planes@, format).len() == 0 {
                            r is Nothing
                        } else {
                            &&& r is Frames
                            &&& r->Frames_0 == format
                            &&& decode::frames_view(r->Frames_1@) == decode::buffer_frames(
                                planes@,
                                format,
                            )
                        }
                    },
                },
            },
            old(self).wf() ==> final(self).wf(),
    {
        let format: ObservedAudioFormat = match self.observed_format {
            Some(format) => format,
            None => {
                let first: bool = !self.warned_missing_format;
                self.warned_missing_format = true;
                if !first {
                    return BufferStep::Nothing;
                }
                return BufferStep::Warn(
                    CaptureEvent::Warning {
                        message:
                            "received audio buffers before format negotiation completed".to_string(),
                    },
                );
            },
        };
        match decode_audio_buffer(planes, format) {
            Ok(Some(frames)) => BufferStep::Frames(format, frames),
            Ok(None) => BufferStep::Nothing,
            Err(error) => {
                let message: String = error.message(format_name);
                let repeated: bool = match &self.last_conversion_warning {
                    Some(last) => text::equal_text(last.as_str(), message.as_str()),
                    None => false,
                };
                if repeated {
                    BufferStep::Nothing
                } else {
                    self.last_conversion_warning = Some(message.clone());
                    BufferStep::Warn(CaptureEvent::Warning { message })
                }
            },
        }
    }

    /// Records that a buffer has been processed.
    pub fn record_buffer(&mut self, levels: AudioLevelSnapshot<L>, now: u128)
        requires
            old(self).buffers_processed < u64::MAX,
        ensures
            *final(self) == old(self).after(CaptureStep::Recorded { levels, now }),
            old(self).wf() && old(self).observed_format is Some ==> final(self).wf(),
    {
        self.buffers_processed = self.buffers_processed + 1;
        self.last_levels = Some(levels);
        self.last_buffer_at = Some(now);
        self.stall_notice_emitted = false;
    }

    /// What the capture has seen.
    pub fn summary(&self) -> (r: CaptureRunSummary<L>)
        ensures
            r.target_id == self.target_id,
            r.capture_node_id == self.capture_node_id,
            r.observed_format == self.observed_format,
            r.last_levels == self.last_levels,
            r.buffers_processed == self.buffers_processed,
            self.wf() ==> valid_node_id(r.capture_node_id),
    {
        CaptureRunSummary {
            target_id: self.target_id,
            capture_node_id: self.capture_node_id,
            observed_format: self.observed_format,
            last_levels: self.last_levels,
            buffers_processed: self.buffers_processed,
        }
    }

    /// The result of a capture that is over: the error of the stream, if there was one, else what
    /// the capture has seen.
    pub fn finish(&self) -> (r: Result<CaptureRunSummary<L>, PipeWireCaptureError>)
        ensures
            match self.last_error {
                Some(message) => r is Err && r->Err_0 is Stream && r->Err_0.text() == message@,
                None => {
                    &&& r is Ok
                    &&& r->Ok_0 == (CaptureRunSummary {
                        target_id: self.target_id,
                        capture_node_id: self.capture_node_id,
                        observed_format: self.observed_format,
                        last_levels: self.last_levels,
                        buffers_processed: self.buffers_processed,
                    })
                    &&& self.wf() ==> valid_node_id(r->Ok_0.capture_node_id)
                },
            },
    {
        match &self.last_error {
            Some(message) => Err(PipeWireCaptureError::Stream(message.clone())),
            None => Ok(self.summary()),
        }
    }
}

/// Whatever steps follow, a flag that a notice has been given stays, but for that of buffers that
/// no longer come, which a recorded buffer takes back; and without a recorded buffer nothing new is
/// there to report.
proof fn lemma_flags_stay<L>(progress: CaptureProgress<L>, steps: Seq<CaptureStep<L>>)
    ensures
        progress.wait_notice_emitted ==> progress.after_all(steps).wait_notice_emitted,
        progress.stop_notice_emitted ==> progress.after_all(steps).stop_notice_emitted,
        progress.warned_missing_format ==> progress.after_all(steps).warned_missing_format,
        (forall|i: int| 0 <= i < steps.len() ==> !((#[trigger] steps[i]) is Recorded)) ==> {
            &&& progress.stall_notice_emitted ==> progress.after_all(steps).stall_notice_emitted
            &&& !progress.fresh() ==> !progress.after_all(steps).fresh()
        },
    decreases steps.len(),
{
    if steps.len() > 0 {
        let init = steps.drop_last();
        lemma_flags_stay(progress, init);
        assert(steps.last() == steps[steps.len() - 1]);
        assert(forall|i: int| 0 <= i < init.len() ==> init[i] == steps[i]);
    }
}

/// What a tick of the timer reported is not due at any later tick, whatever other ticks and steps
/// lie between them, until another buffer has been recorded.
pub proof fn law_notices_are_given_once<L>(
    progress: CaptureProgress<L>,
    now: u128,
    steps: Seq<CaptureStep<L>>,
    later: u128,
)
    requires
        forall|i: int| 0 <= i < steps.len() ==> !((#[trigger] steps[i]) is Recorded),
    ensures
        !progress.after_tick(now).after_all(steps).levels_due(),
        progress.wait_due(now) ==> !progress.after_tick(now).after_all(steps).wait_due(later),
        progress.stall_due(now) ==> !progress.after_tick(now).after_all(steps).stall_due(later),
{
    lemma_flags_stay(progress.after_tick(now), steps);
}

/// The warning about a first buffer, the stop notice and the warning about a missing format are
/// given once in a whole capture, recorded buffers or not.
pub proof fn law_some_notices_are_never_repeated<L>(
    progress: CaptureProgress<L>,
    now: u128,
    steps: Seq<CaptureStep<L>>,
    later: u128,
)
    ensures
        progress.wait_due(now) ==> !progress.after_tick(now).after_all(steps).wait_due(later),
        progress.after(CaptureStep::StopSeen).after_all(steps).stop_notice_emitted,
        progress.after(CaptureStep::FormatMissed).after_all(steps).warned_missing_format,
{
    lemma_flags_stay(progress.after_tick(now), steps);
    lemma_flags_stay(progress.after(CaptureStep::StopSeen), steps);
    lemma_flags_stay(progress.after(CaptureStep::FormatMissed), steps);
}

/// What holds of every capture holds from its start on, after any steps that can come.
pub proof fn law_captures_stay_well_formed<L>(
    target_id: CaptureTargetId,
    now: u128,
    steps: Seq<CaptureStep<L>>,
)
    requires
        forall|i: int|
            0 <= i < steps.len() ==> CaptureProgress::<L>::started(target_id, now).after_all(
                steps.take(i),
            ).allows(#[trigger] steps[i]),
    ensures
        CaptureProgress::<L>::started(target_id, now).after_all(steps).wf(),
    decreases steps.len(),
{
    if steps.len() > 0 {
        let init = steps.drop_last();
        let last = steps.len() - 1;
        assert forall|i: int| 0 <= i < init.len() implies CaptureProgress::<L>::started(
            target_id,
            now,
        ).after_all(init.take(i)).allows(#[trigger] init[i]) by {
            assert(init.take(i) =~= steps.take(i));
            assert(init[i] == steps[i]);
        }
        law_captures_stay_well_formed(target_id, now, init);
        assert(steps.take(last) =~= init);
        assert(CaptureProgress::<L>::started(target_id, now).after_all(steps.take(last)).allows(
            steps[last],
        ));
    }
}

/// Once a buffer has been processed, the next tick of the timer reports its levels.
pub proof fn law_new_buffers_are_reported<L>(
    progress: CaptureProgress<L>,
    now: u128,
    event: Option<CaptureEvent<ObservedAudioFormat, L>>,
)
    requires
        progress.wf(),
        progress.is_tick_event(now, event),
    ensures
        progress.fresh() <==> event is Some && event->0 is Levels,
        progress.fresh() ==> event->0->buffers_processed == progress.buffers_processed
            && Some(event->0->levels) == progress.last_levels,
{
}

/// The words of the warning about buffers that no longer come.
proof fn lemma_stall_text()
    ensures
        stall_text() == "no audio buffers received for 750 ms; Spotify may be paused or corked"@,
{
    reveal_strlit("no audio buffers received for ");
    reveal_strlit(" ms; Spotify may be paused or corked");
    reveal_strlit("no audio buffers received for 750 ms; Spotify may be paused or corked");
    reveal_with_fuel(text::decimal, 4);
    assert(text::decimal(750) =~= seq!['7', '5', '0']);
    assert(stall_text()
        =~= "no audio buffers received for 750 ms; Spotify may be paused or corked"@);
}

/// Whenever all processed buffers have been reported, no stall has been reported since the last of
/// them, and it came 750 milliseconds ago or longer, a tick warns of it, however long the capture
/// has lasted.
pub proof fn law_stalls_are_noticed<L>(
    progress: CaptureProgress<L>,
    at: u128,
    now: u128,
    event: Option<CaptureEvent<ObservedAudioFormat, L>>,
)
    requires
        progress.is_tick_event(now, event),
        progress.buffers_processed > 0,
        progress.last_emitted_buffer_count == progress.buffers_processed,
        !progress.stall_notice_emitted,
        progress.last_buffer_at == Some(at),
        now >= at + 750_000_000,
    ensures
        event is Some,
        event->0 is Warning,
        event->0->Warning_message@
            == "no audio buffers received for 750 ms; Spotify may be paused or corked"@,
        progress.after_tick(now).stall_notice_emitted,
{
    lemma_stall_text();
}

/// Whenever no buffer has been processed, this has not been reported, and the capture started two
/// seconds ago or longer, a tick warns of it, and says whether a format is known.
pub proof fn law_missing_buffers_are_noticed<L>(
    progress: CaptureProgress<L>,
    now: u128,
    event: Option<CaptureEvent<ObservedAudioFormat, L>>,
)
    requires
        progress.is_tick_event(now, event),
        progress.buffers_processed == 0,
        !progress.wait_notice_emitted,
        now >= progress.started_at + 2_000_000_000,
    ensures
        event is Some,
        event->0 is Warning,
        progress.observed_format is Some ==> event->0->Warning_message@
            == "connected to PipeWire but no audio buffers have arrived yet"@,
        progress.observed_format is None ==> event->0->Warning_message@
            == "waiting for PipeWire format negotiation and first audio buffers"@,
        progress.after_tick(now).wait_notice_emitted,
{
}

/// Whenever buffers have been processed since levels were last reported, a tick reports the levels
/// of the last of them, with its format and their number.
pub proof fn law_new_levels_are_reported<L>(
    progress: CaptureProgress<L>,
    format: ObservedAudioFormat,
    levels: AudioLevelSnapshot<L>,
    now: u128,
    event: Option<CaptureEvent<ObservedAudioFormat, L>>,
)
    requires
        progress.is_tick_event(now, event),
        progress.buffers_processed > progress.last_emitted_buffer_count,
        progress.observed_format == Some(format),
        progress.last_levels == Some(levels),
    ensures
        event == Some(
            (CaptureEvent::<ObservedAudioFormat, L>::Levels {
                format,
                levels,
                buffers_processed: progress.buffers_processed,
            }),
        ),
        progress.after_tick(now).last_emitted_buffer_count == progress.buffers_processed,
{
}

/// A tick reports nothing else: while buffers come in time, and once a pause has been reported,
/// nothing at all.
pub proof fn law_ticks_are_silent_otherwise<L>(
    progress: CaptureProgress<L>,
    now: u128,
    event: Option<CaptureEvent<ObservedAudioFormat, L>>,
)
    requires
        progress.wf(),
        progress.is_tick_event(now, event),
        progress.last_emitted_buffer_count == progress.buffers_processed,
        progress.buffers_processed == 0 ==> progress.wait_notice_emitted || now
            < progress.started_at + 2_000_000_000,
        progress.buffers_processed > 0 ==> progress.stall_notice_emitted || now
            < progress.last_buffer_at->0 + 750_000_000,
    ensures
        event is None,
        progress.after_tick(now) == progress,
{
}

/// A tick changes nothing but what it has reported by then, and each kind of report on its own.
pub proof fn law_ticks_only_mark_reports<L>(progress: CaptureProgress<L>, now: u128)
    ensures
        ({
            let after = progress.after_tick(now);
            &&& after == (CaptureProgress {
                last_emitted_buffer_count: after.last_emitted_buffer_count,
                wait_notice_emitted: after.wait_notice_emitted,
                stall_notice_emitted: after.stall_notice_emitted,
                ..progress
            })
            &&& after.last_emitted_buffer_count == progress.last_emitted_buffer_count
                || after.last_emitted_buffer_count == progress.buffers_processed
            &&& after.last_emitted_buffer_count >= progress.last_emitted_buffer_count
            &&& after.last_emitted_buffer_count >= progress.buffers_processed
            &&& after.wait_notice_emitted && !progress.wait_notice_emitted
                ==> progress.buffers_processed == 0 && now >= progress.started_at + 2_000_000_000
            &&& after.stall_notice_emitted && !progress.stall_notice_emitted
                ==> progress.buffers_processed > 0 && progress.last_buffer_at is Some && now
                >= progress.last_buffer_at->0 + 750_000_000
        }),
{
}

/// What a capture knows of its buffers changes only when a buffer is recorded.
pub proof fn law_only_records_change_what_is_known<L>(
    progress: CaptureProgress<L>,
    steps: Seq<CaptureStep<L>>,
)
    requires
        forall|i: int| 0 <= i < steps.len() ==> !((#[trigger] steps[i]) is Recorded),
    ensures
        progress.after_all(steps).buffers_processed == progress.buffers_processed,
        progress.after_all(steps).last_levels == progress.last_levels,
        progress.after_all(steps).last_buffer_at == progress.last_buffer_at,
        progress.after_all(steps).started_at == progress.started_at,
        progress.after_all(steps).target_id == progress.target_id,
        progress.observed_format is Some ==> progress.after_all(steps).observed_format is Some,
    decreases steps.len(),
{
    if steps.len() > 0 {
        let init = steps.drop_last();
        assert(forall|i: int| 0 <= i < init.len() ==> init[i] == steps[i]);
        assert(!(steps[steps.len() - 1] is Recorded));
        law_only_records_change_what_is_known(progress, init);
    }
}

/// A capture has counted as many buffers as were recorded, and knows the levels and the time of the
/// last.
pub proof fn law_buffers_are_counted<L>(
    progress: CaptureProgress<L>,
    steps: Seq<CaptureStep<L>>,
    levels: AudioLevelSnapshot<L>,
    now: u128,
)
    requires
        progress.buffers_processed + steps.len() < u64::MAX,
    ensures
        progress.after_all(steps).buffers_processed == progress.buffers_processed + steps.filter(
            |step: CaptureStep<L>| step is Recorded,
        ).len(),
        progress.after(CaptureStep::Recorded { levels, now }).buffers_processed
            == progress.buffers_processed + 1,
        progress.after(CaptureStep::Recorded { levels, now }).last_levels == Some(levels),
        progress.after(CaptureStep::Recorded { levels, now }).last_buffer_at == Some(now),
        !progress.after(CaptureStep::Recorded { levels, now }).stall_notice_emitted,
    decreases steps.len(),
{
    reveal(Seq::filter);
    if steps.len() > 0 {
        let init = steps.drop_last();
        law_buffers_are_counted(progress, init, levels, now);
        let pred = |step: CaptureStep<L>| step is Recorded;
        assert(init.filter(pred).len() <= init.len()) by {
            lemma_filter_len(init, pred);
        }
    }
}

/// No more passes than there was.
proof fn lemma_filter_len<L>(
    steps: Seq<CaptureStep<L>>,
    pred: spec_fn(CaptureStep<L>) -> bool,
)
    ensures
        steps.filter(pred).len() <= steps.len(),
    decreases steps.len(),
{
    reveal(Seq::filter);
    if steps.len() > 0 {
        lemma_filter_len(steps.drop_last(), pred);
    }
}

/// A pause is noticed at any time of a capture: once a buffer has been recorded and reported, and
/// no other has come for 750 milliseconds, a stall has been reported since, or the next tick
/// reports it.
pub proof fn law_pauses_are_noticed_at_any_time<L>(
    progress: CaptureProgress<L>,
    levels: AudioLevelSnapshot<L>,
    at: u128,
    reported_at: u128,
    steps: Seq<CaptureStep<L>>,
    now: u128,
    event: Option<CaptureEvent<ObservedAudioFormat, L>>,
)
    requires
        progress.wf(),
        progress.observed_format is Some,
        progress.buffers_processed < u64::MAX,
        forall|i: int| 0 <= i < steps.len() ==> !((#[trigger] steps[i]) is Recorded),
        now >= at + 750_000_000,
        progress.after(CaptureStep::Recorded { levels, now: at }).after_tick(reported_at).after_all(
            steps,
        ).is_tick_event(now, event),
    ensures
        ({
            let paused = progress.after(CaptureStep::Recorded { levels, now: at }).after_tick(
                reported_at,
            ).after_all(steps);
            ||| paused.stall_notice_emitted
            ||| event is Some && event->0 is Warning && event->0->Warning_message@
                == "no audio buffers received for 750 ms; Spotify may be paused or corked"@
        }),
{
    let recorded = progress.after(CaptureStep::Recorded { levels, now: at });
    let reported = recorded.after_tick(reported_at);
    let paused = reported.after_all(steps);
    law_only_records_change_what_is_known(reported, steps);
    lemma_flags_stay(reported, steps);
    lemma_stall_text();
}

/// An error of the stream is kept: only another error takes its place.
pub proof fn law_errors_are_kept<L>(progress: CaptureProgress<L>, steps: Seq<CaptureStep<L>>)
    requires
        forall|i: int|
            0 <= i < steps.len() ==> !((#[trigger] steps[i]) is StateChanged
                && steps[i]->error is Some),
    ensures
        progress.after_all(steps).last_error == progress.last_error,
    decreases steps.len(),
{
    if steps.len() > 0 {
        let init = steps.drop_last();
        let last = steps[steps.len() - 1];
        assert(forall|i: int| 0 <= i < init.len() ==> init[i] == steps[i]);
        assert(!(last is StateChanged && last->error is Some));
        law_errors_are_kept(progress, init);
    }
}

/// What each other step leaves behind: a change of state the node and its error, a format the
/// format, and a warning that it was given. Nothing else changes.
pub proof fn law_steps_change_what_they_are_about<L>(
    progress: CaptureProgress<L>,
    node_id: u32,
    error: String,
    format: ObservedAudioFormat,
    warning: Option<String>,
)
    ensures
        progress.after(CaptureStep::StateChanged { node_id, error: None }) == (CaptureProgress {
            capture_node_id: if node_id == 0 || node_id == u32::MAX {
                None
            } else {
                Some(node_id)
            },
            ..progress
        }),
        progress.after(CaptureStep::StateChanged { node_id, error: Some(error) })
            == (CaptureProgress {
            capture_node_id: if node_id == 0 || node_id == u32::MAX {
                None
            } else {
                Some(node_id)
            },
            last_error: Some(error),
            ..progress
        }),
        progress.after(CaptureStep::FormatSeen { format }) == (CaptureProgress {
            observed_format: Some(format),
            ..progress
        }),
        progress.after(CaptureStep::StopSeen) == (CaptureProgress {
            stop_notice_emitted: true,
            ..progress
        }),
        progress.after(CaptureStep::FormatMissed) == (CaptureProgress {
            warned_missing_format: true,
            ..progress
        }),
        progress.after(CaptureStep::Undecodable { warning }) == (CaptureProgress {
            last_conversion_warning: warning,
            ..progress
        }),
{
}

/// A node goes by its serial number where it has one, and by its identifier only without; the
/// notice and the description of the target say which, with the number in full.
pub proof fn law_targets_go_by_serial_number(target: CaptureTarget)
    ensures
        match target.object_serial {
            Some(serial) => {
                &&& target.preferred() == CaptureTargetId::ObjectSerial(serial)
                &&& target.preferred().text() == "object.serial="@ + text::decimal(serial as nat)
                &&& target_notice(target) == "targeting Spotify node "@ + target.display_name@
                    + " via target.object=object.serial "@ + text::decimal(serial as nat)
            },
            None => {
                &&& target.preferred() == CaptureTargetId::GlobalNodeId(target.node_id)
                &&& target.preferred().text() == "global node id="@ + text::decimal(
                    target.node_id as nat,
                )
                &&& target_notice(target) == "targeting Spotify node "@ + target.display_name@
                    + " via global node id "@ + text::decimal(target.node_id as nat)
                    + " fallback"@
            },
        },
{
}

/// The name of a state of error holds the error in full, and the message of a failed capture is the
/// one that it was given.
pub proof fn law_errors_are_told_in_full(message: String, target: &'static str)
    ensures
        StreamState::Error(message).name() == "Error("@ + message@ + ")"@,
        StreamState::Unconnected.name() == "Unconnected"@,
        StreamState::Connecting.name() == "Connecting"@,
        StreamState::Paused.name() == "Paused"@,
        StreamState::Streaming.name() == "Streaming"@,
        PipeWireCaptureError::Stream(message).text() == message@,
        PipeWireCaptureError::PipeWire(message).text() == message@,
        PipeWireCaptureError::InvalidTarget(target).text() == target@,
{
}

/// A warning and a notice are told by their kind and by their whole message.
pub proof fn law_messages_of_events<F, L>(
    event: Option<CaptureEvent<F, L>>,
    message: Seq<char>,
)
    ensures
        warns(event, message) ==> event is Some && event->0 is Warning
            && event->0->Warning_message@ == message,
        informs(event, message) ==> event is Some && event->0 is Info && event->0->Info_message@
            == message,
{
}

/// The time between two moments of a clock that never goes back.
pub proof fn law_elapsed_time(since: u128, now: u128)
    ensures
        since <= now ==> since + elapsed(since, now) == now,
        now < since ==> elapsed(since, now) == 0,
{
}

} // verus!
