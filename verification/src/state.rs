//! The state behind the C interface: the latest analysis, the worker, and the last error.

use crate::backend::BackendKind;
use crate::dsp::bands::DEFAULT_BAND_COUNT;
use crate::error::{AresError, ARES_OK};
use vstd::prelude::*;

verus! {

/// One level for each band.
pub type BandFrame<T> = [T; DEFAULT_BAND_COUNT];

/// The levels that an analysis gave, over values of type `T`.
#[derive(Debug)]
pub struct AnalyzerSnapshot<T> {
    pub bands: BandFrame<T>,
    pub rms: T,
    pub peak: T,
}

impl<T: Copy> Clone for AnalyzerSnapshot<T> {
    fn clone(&self) -> (r: Self)
        ensures
            r == *self,
    {
        *self
    }
}

impl<T: Copy> Copy for AnalyzerSnapshot<T> {

}

impl<T> AnalyzerSnapshot<T> {
    /// All levels are `zero`.
    pub open spec fn is_silence(self, zero: T) -> bool {
        &&& forall|i: int| 0 <= i < DEFAULT_BAND_COUNT ==> #[trigger] self.bands@[i] == zero
        &&& self.rms == zero
        &&& self.peak == zero
    }
}

impl<T: Copy> AnalyzerSnapshot<T> {
    /// The levels of silence.
    pub fn silence(zero: T) -> (r: Self)
        ensures
            r.is_silence(zero),
    {
        AnalyzerSnapshot { bands: [zero;64], rms: zero, peak: zero }
    }
}

/// The latest analysis, shared between the worker and the callers of the C interface.
#[derive(Debug)]
pub struct SharedAnalyzerState<T> {
    zero: T,
    snapshot: AnalyzerSnapshot<T>,
}

impl<T> View for SharedAnalyzerState<T> {
    type V = AnalyzerSnapshot<T>;

    closed spec fn view(&self) -> AnalyzerSnapshot<T> {
        self.snapshot
    }
}

impl<T> SharedAnalyzerState<T> {
    /// The level of silence.
    pub closed spec fn zero(self) -> T {
        self.zero
    }

    /// The latest analysis is silence.
    pub open spec fn silent(self) -> bool {
        self@.is_silence(self.zero())
    }
}

impl<T: Copy> SharedAnalyzerState<T> {
    /// Silence, of level `zero`.
    pub fn new(zero: T) -> (r: Self)
        ensures
            r.zero() == zero,
            r.silent(),
    {
        SharedAnalyzerState { zero, snapshot: AnalyzerSnapshot::silence(zero) }
    }

    /// The latest analysis.
    pub fn read_snapshot(&self) -> (r: AnalyzerSnapshot<T>)
        ensures
            r == self@,
    {
        self.snapshot
    }

    /// Puts a new analysis in place of the latest.
    pub fn write_snapshot(&mut self, snapshot: AnalyzerSnapshot<T>)
        ensures
            final(self)@ == snapshot,
            final(self).zero() == old(self).zero(),
    {
        self.snapshot = snapshot;
    }

    /// Goes back to silence.
    pub fn reset(&mut self)
        ensures
            final(self).silent(),
            final(self).zero() == old(self).zero(),
    {
        self.snapshot = AnalyzerSnapshot::silence(self.zero);
    }
}

/// The worker behind the C interface, by a handle of type `W`, and the last error.
#[derive(Debug)]
pub struct AresRuntime<W> {
    worker: Option<W>,
    backend_kind: Option<BackendKind>,
    last_error: String,
}

/// What a start leads to.
#[derive(Debug, Clone, Copy, PartialEq, Eq, Structural)]
pub enum StartStep {
    /// A worker is running already; the return code of the call.
    AlreadyRunning(i32),
    /// A backend has to be started.
    Launch,
}

/// What there is to know of a runtime.
#[verifier::ext_equal]
pub struct RuntimeModel<W> {
    /// The handle of the worker.
    pub worker: Option<W>,
    /// The backend of the worker.
    pub kind: Option<BackendKind>,
    /// The message of the last error; empty when there is none.
    pub error: Seq<char>,
}

impl<W> RuntimeModel<W> {
    /// No worker, and no error.
    pub open spec fn idle() -> Self {
        RuntimeModel { worker: None, kind: None, error: Seq::empty() }
    }

    /// What holds of every runtime: a backend is known exactly while there is a worker.
    pub open spec fn wf(self) -> bool {
        self.worker is Some <==> self.kind is Some
    }

    /// With another last error.
    pub open spec fn with_error(self, error: Seq<char>) -> Self {
        RuntimeModel { error, ..self }
    }

    /// Without the worker.
    pub open spec fn without_worker(self) -> Self {
        RuntimeModel { worker: None, kind: None, ..self }
    }

    /// There is a worker, and it is running.
    pub open spec fn runs(self, worker_running: bool) -> bool {
        self.worker is Some && worker_running
    }

    /// After a look at the worker, which has finished with a result where there is one.
    pub open spec fn reaped(self, finished: Option<Result<(), AresError>>) -> Self {
        match finished {
            None => self,
            Some(Ok(_)) => self.without_worker(),
            Some(Err(error)) => self.without_worker().with_error(error.text()),
        }
    }

    /// After the first half of a start.
    pub open spec fn asked_to_start(self, worker_running: bool) -> Self {
        if self.runs(worker_running) {
            self.with_error(Seq::empty())
        } else {
            self
        }
    }

    /// After the second half of a start, which a backend was launched in or not.
    pub open spec fn started(self, launched: Result<(W, BackendKind), AresError>) -> Self {
        match launched {
            Ok(pair) => RuntimeModel {
                worker: Some(pair.0),
                kind: Some(pair.1),
                error: Seq::empty(),
            },
            Err(error) => self.with_error(error.text()),
        }
    }

    /// After a stop.
    pub open spec fn stopped(self) -> Self {
        self.without_worker().with_error(Seq::empty())
    }
}

impl<W> View for AresRuntime<W> {
    type V = RuntimeModel<W>;

    closed spec fn view(&self) -> RuntimeModel<W> {
        RuntimeModel { worker: self.worker, kind: self.backend_kind, error: self.last_error@ }
    }
}

impl<W> AresRuntime<W> {
    /// A runtime without a worker and without an error.
    pub fn new() -> (r: Self)
        ensures
            r@ == RuntimeModel::<W>::idle(),
    {
        AresRuntime { worker: None, backend_kind: None, last_error: String::new() }
    }

    /// The worker, to ask it whether it has finished.
    pub fn worker(&mut self) -> (r: Option<&mut W>)
        ensures
            match r {
                Some(worker) => {
                    &&& old(self)@.worker == Some(*worker)
                    &&& final(self)@ == (RuntimeModel { worker: Some(*final(worker)), ..old(self)@ })
                },
                None => old(self)@.worker is None && final(self)@ == old(self)@,
            },
    {
        self.worker.as_mut()
    }

    /// Takes note of the result of a worker, where it has finished: the worker is gone, the
    /// analysis goes back to silence, and a failure becomes the last error.
    pub fn reap_finished_worker<T: Copy>(
        &mut self,
        shared: &mut SharedAnalyzerState<T>,
        finished: Option<Result<(), AresError>>,
    )
        ensures
            final(self)@ == old(self)@.reaped(finished),
            final(shared).zero() == old(shared).zero(),
            finished is None ==> final(shared)@ == old(shared)@,
            finished is Some ==> final(shared).silent(),
    {
        if let Some(result) = finished {
            self.worker = None;
            self.backend_kind = None;
            shared.reset();
            if let Err(error) = result {
                self.last_error = error.message().to_string();
            }
        }
    }

    /// What a start leads to, given whether the worker is running: with a running worker there is
    /// nothing to do but to forget the last error.
    pub fn start(&mut self, worker_running: bool) -> (r: StartStep)
        ensures
            final(self)@ == old(self)@.asked_to_start(worker_running),
            r == (if old(self)@.runs(worker_running) {
                StartStep::AlreadyRunning(ARES_OK)
            } else {
                StartStep::Launch
            }),
    {
        if self.worker.is_some() && worker_running {
            self.last_error = String::new();
            StartStep::AlreadyRunning(ARES_OK)
        } else {
            StartStep::Launch
        }
    }

    /// Takes note of a backend that was started, or of why it was not. Gives the return code.
    pub fn finish_start(&mut self, launched: Result<(W, BackendKind), AresError>) -> (r: i32)
        ensures
            final(self)@ == old(self)@.started(launched),
            r == match launched {
                Ok(_) => ARES_OK,
                Err(error) => error.return_code(),
            },
    {
        match launched {
            Ok((worker, kind)) => {
                self.backend_kind = Some(kind);
                self.worker = Some(worker);
                self.last_error = String::new();
                ARES_OK
            },
            Err(error) => self.set_error(error),
        }
    }

    /// Hands out the worker, to be stopped.
    pub fn take_worker(&mut self) -> (r: Option<W>)
        ensures
            r == old(self)@.worker,
            final(self)@ == old(self)@.without_worker(),
    {
        self.backend_kind = None;
        self.worker.take()
    }

    /// Ends a stop, once the worker that was handed out has stopped: the analysis goes back to
    /// silence and the last error is forgotten. Gives the return code.
    pub fn finish_stop<T: Copy>(&mut self, shared: &mut SharedAnalyzerState<T>) -> (r: i32)
        ensures
            r == ARES_OK,
            final(self)@ == old(self)@.stopped(),
            final(shared).silent(),
            final(shared).zero() == old(shared).zero(),
    {
        self.worker = None;
        self.backend_kind = None;
        shared.reset();
        self.last_error = String::new();
        ARES_OK
    }

    /// Whether a worker is running, given what the worker says of itself.
    pub fn is_running(&self, worker_running: bool) -> (r: bool)
        ensures
            r == self@.runs(worker_running),
    {
        self.worker.is_some() && worker_running
    }

    /// The backend of the worker.
    pub fn active_backend_kind(&self) -> (r: Option<BackendKind>)
        ensures
            r == self@.kind,
    {
        self.backend_kind
    }

    /// Makes an error the last one. Gives its return code.
    pub fn set_error(&mut self, error: AresError) -> (r: i32)
        ensures
            r == error.return_code(),
            final(self)@ == old(self)@.with_error(error.text()),
    {
        self.last_error = error.message().to_string();
        error.code()
    }

    /// The message of the last error.
    pub fn last_error(&self) -> (r: String)
        ensures
            r@ == self@.error,
    {
        self.last_error.clone()
    }

    /// Makes a message the one of the last error.
    pub fn set_last_error_message(&mut self, message: &str)
        ensures
            final(self)@ == old(self)@.with_error(message@),
    {
        self.last_error = message.to_string();
    }

    /// Forgets the last error.
    pub fn clear_last_error_message(&mut self)
        ensures
            final(self)@ == old(self)@.with_error(Seq::empty()),
    {
        self.last_error = String::new();
    }
}

/// A backend is known exactly while there is a worker: every operation keeps this.
pub proof fn law_backend_is_known_with_the_worker<W>(
    runtime: RuntimeModel<W>,
    finished: Option<Result<(), AresError>>,
    worker_running: bool,
    launched: Result<(W, BackendKind), AresError>,
    error: Seq<char>,
)
    requires
        runtime.wf(),
    ensures
        RuntimeModel::<W>::idle().wf(),
        runtime.reaped(finished).wf(),
        runtime.asked_to_start(worker_running).wf(),
        runtime.started(launched).wf(),
        runtime.without_worker().wf(),
        runtime.stopped().wf(),
        runtime.with_error(error).wf(),
{
}

/// Starting again while the worker is running changes nothing.
pub proof fn law_start_is_idempotent<W>(runtime: RuntimeModel<W>, worker: W, kind: BackendKind)
    ensures
        runtime.started(Ok((worker, kind))).runs(true),
        runtime.started(Ok((worker, kind))).asked_to_start(true) == runtime.started(
            Ok((worker, kind)),
        ),
{
}

/// Whatever happened before, a stop leads to a runtime without a worker and without an error, also
/// where the worker had ended with one, and stopping again changes nothing.
pub proof fn law_stop_is_idempotent<W>(
    runtime: RuntimeModel<W>,
    finished: Option<Result<(), AresError>>,
    worker_running: bool,
)
    ensures
        runtime.without_worker().stopped() == RuntimeModel::<W>::idle(),
        runtime.reaped(finished).without_worker().stopped() == RuntimeModel::<W>::idle(),
        runtime.stopped().without_worker().stopped() == runtime.stopped(),
        !runtime.stopped().runs(worker_running),
{
}

/// A start that fails leaves its message behind; until it is told to forget, or has another error,
/// the runtime reports that message.
pub proof fn law_failed_starts_are_reported<W>(runtime: RuntimeModel<W>, error: AresError)
    ensures
        runtime.started(Err(error)).error == error.text(),
        runtime.started(Err(error)).reaped(None).error == error.text(),
        runtime.started(Err(error)).without_worker().error == error.text(),
        runtime.started(Err(error)).worker == runtime.worker,
{
}

/// A worker that has failed is gone, and the runtime reports why.
pub proof fn law_failed_workers_are_reported<W>(
    runtime: RuntimeModel<W>,
    error: AresError,
    worker_running: bool,
)
    ensures
        runtime.reaped(Some(Err(error))).error == error.text(),
        !runtime.reaped(Some(Err(error))).runs(worker_running),
        runtime.reaped(Some(Err(error))).asked_to_start(worker_running).error == error.text(),
{
}

/// Each operation on a runtime, by what it leaves of the worker, of its backend and of the last
/// error.
pub proof fn law_operations_on_a_runtime<W>(
    runtime: RuntimeModel<W>,
    worker: W,
    kind: BackendKind,
    error: AresError,
    message: Seq<char>,
    worker_running: bool,
)
    ensures
        RuntimeModel::<W>::idle().worker is None && RuntimeModel::<W>::idle().kind is None
            && RuntimeModel::<W>::idle().error.len() == 0,
        runtime.with_error(message) == (RuntimeModel { error: message, ..runtime }),
        runtime.without_worker() == (RuntimeModel { worker: None, kind: None, ..runtime }),
        runtime.reaped(None) == runtime,
        runtime.reaped(Some(Ok(()))) == (RuntimeModel { worker: None, kind: None, ..runtime }),
        runtime.reaped(Some(Err(error))) == (RuntimeModel::<W> {
            worker: None,
            kind: None,
            error: error.text(),
        }),
        runtime.started(Ok((worker, kind))).worker == Some(worker),
        runtime.started(Ok((worker, kind))).kind == Some(kind),
        runtime.started(Ok((worker, kind))).error.len() == 0,
        runtime.started(Err(error)) == (RuntimeModel { error: error.text(), ..runtime }),
        runtime.runs(worker_running) == (runtime.worker is Some && worker_running),
        runtime.asked_to_start(worker_running).worker == runtime.worker,
        runtime.asked_to_start(worker_running).kind == runtime.kind,
        runtime.worker is Some && worker_running ==> runtime.asked_to_start(worker_running).error.len()
            == 0,
        runtime.worker is None || !worker_running ==> runtime.asked_to_start(worker_running)
            == runtime,
        runtime.stopped().worker is None && runtime.stopped().kind is None
            && runtime.stopped().error.len() == 0,
{
}

/// Silence is silence in every band, in the loudness and in the peak.
pub proof fn law_silence_is_silent_everywhere<T>(snapshot: AnalyzerSnapshot<T>, zero: T, i: int)
    requires
        snapshot.is_silence(zero),
        0 <= i < 64,
    ensures
        snapshot.bands@[i] == zero,
        snapshot.rms == zero,
        snapshot.peak == zero,
{
    assert(DEFAULT_BAND_COUNT == 64);
}

/// A shared analysis that is silent is so in every band, in the loudness and in the peak, and one
/// that is all zero is silent.
pub proof fn law_silent_means_all_zero<T>(shared: SharedAnalyzerState<T>)
    ensures
        shared.silent() <==> shared@.rms == shared.zero() && shared@.peak == shared.zero() && (
        forall|i: int| 0 <= i < 64 ==> #[trigger] shared@.bands@[i] == shared.zero()),
{
    assert(DEFAULT_BAND_COUNT == 64);
}

} // verus!
