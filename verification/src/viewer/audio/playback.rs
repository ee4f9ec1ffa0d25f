//! One stream of the guest's sound, and the program that plays it.

use vstd::prelude::*;

use super::format::backends_for;
use super::format::describe_pcm_info;
use super::format::pcm_text;
use super::format::preferred_backends;
use super::format::AudioBackend;
use super::format::PCMInfo;
use super::volume::Volume;
use crate::diagnostics::pipewire_hint;
use crate::diagnostics::pipewire_sudo_environment_hint;
use crate::diagnostics::SessionEnvironment;
use crate::error::Failure;
use crate::text::concat3;
use crate::text::concat6;
use crate::text::concat7;
use crate::text::joined;
use crate::text::number::decimal;
use crate::text::number::to_decimal;
use crate::text::opt_string;
use crate::text::opt_text;
use crate::text::scan::contains;
use crate::text::scan::occurs;
use crate::viewer::pixel::ByteOrder;

verus! {

/// What to do with a chunk of sound.
#[derive(Copy, Clone, Debug, PartialEq, Eq, Structural)]
pub enum AudioStep {
    /// Nothing, or nothing more.
    Finish,
    /// Start a program.
    Start(AudioBackend),
    /// Write the chunk to the program that runs.
    Write,
    /// Stop the program that runs, and start another.
    Replace(AudioBackend),
    /// Stop the program that runs, and drop the chunk.
    Abandon,
}

/// Where a chunk of sound is on its way.
#[derive(Copy, Clone, Debug, PartialEq, Eq, Structural)]
pub enum ChunkPhase {
    /// There is none.
    Idle,
    /// A program is being started for it. It has failed once before where `retry` is true.
    Starting { retry: bool },
    /// It is being written.
    Writing { retry: bool },
}

/// The state of a stream.
pub struct StreamState {
    pub enabled: bool,
    pub candidates: Seq<AudioBackend>,
    /// How many candidates have failed.
    pub failed: nat,
    /// The program that runs.
    pub running: Option<AudioBackend>,
    /// No program is left to try.
    pub exhausted: bool,
    pub phase: ChunkPhase,
}

impl StreamState {
    /// The program that runs is the first that has not failed, and candidates do not run out before
    /// they have failed.
    pub open spec fn wf(self) -> bool {
        &&& self.failed <= self.candidates.len()
        &&& self.running matches Some(backend) ==> {
            &&& self.failed < self.candidates.len()
            &&& backend == self.candidates[self.failed as int]
            &&& !self.exhausted
        }
        &&& match self.phase {
            ChunkPhase::Idle => true,
            ChunkPhase::Starting { .. } => {
                &&& self.running is None
                &&& self.failed < self.candidates.len()
                &&& !self.exhausted
            },
            ChunkPhase::Writing { .. } => self.running is Some,
        }
    }

    /// Starts the next candidate for a chunk, or gives up where there is none.
    pub open spec fn start_next(self, retry: bool) -> (StreamState, Option<AudioBackend>) {
        if self.failed < self.candidates.len() {
            (
                StreamState { phase: ChunkPhase::Starting { retry }, running: None, ..self },
                Some(self.candidates[self.failed as int]),
            )
        } else {
            (
                StreamState { phase: ChunkPhase::Idle, running: None, exhausted: true, ..self },
                None,
            )
        }
    }

    /// A chunk arrives.
    pub open spec fn after_chunk(self) -> (StreamState, AudioStep) {
        if !self.enabled || self.exhausted {
            (StreamState { phase: ChunkPhase::Idle, ..self }, AudioStep::Finish)
        } else if self.running is Some {
            (
                StreamState { phase: ChunkPhase::Writing { retry: false }, ..self },
                AudioStep::Write,
            )
        } else {
            let (next, backend) = self.start_next(false);
            (
                next,
                match backend {
                    Some(backend) => AudioStep::Start(backend),
                    None => AudioStep::Finish,
                },
            )
        }
    }

    /// A program has started, or has not.
    pub open spec fn after_start(self, started: bool) -> (StreamState, AudioStep) {
        let retry = self.phase == ChunkPhase::Starting { retry: true };
        if started {
            (
                StreamState {
                    phase: ChunkPhase::Writing { retry },
                    running: Some(self.candidates[self.failed as int]),
                    ..self
                },
                AudioStep::Write,
            )
        } else {
            let (next, backend) = StreamState { failed: self.failed + 1, ..self }.start_next(retry);
            (
                next,
                match backend {
                    Some(backend) => AudioStep::Start(backend),
                    None => AudioStep::Finish,
                },
            )
        }
    }

    /// The chunk was written, or was not. A chunk is tried on a second program, not on a third.
    pub open spec fn after_write(self, written: bool) -> (StreamState, AudioStep) {
        if written {
            (StreamState { phase: ChunkPhase::Idle, ..self }, AudioStep::Finish)
        } else {
            let failed = StreamState { failed: self.failed + 1, ..self };
            if self.phase == (ChunkPhase::Writing { retry: true }) {
                (
                    StreamState { phase: ChunkPhase::Idle, running: None, exhausted: true, ..failed },
                    AudioStep::Abandon,
                )
            } else {
                let (next, backend) = failed.start_next(true);
                (
                    next,
                    match backend {
                        Some(backend) => AudioStep::Replace(backend),
                        None => AudioStep::Abandon,
                    },
                )
            }
        }
    }
}

/// One stream of the guest's sound.
#[derive(Debug)]
pub struct AudioStreamWorker {
    stream_label: String,
    info: PCMInfo,
    enabled: bool,
    volume: Volume,
    candidates: Vec<AudioBackend>,
    next_candidate: usize,
    running: Option<AudioBackend>,
    exhausted: bool,
    phase: ChunkPhase,
}

/// The label of a stream.
pub open spec fn label_text(vm_name: Seq<char>, id: u64) -> Seq<char> {
    vm_name + " audio stream "@ + decimal(id as nat)
}

/// The message of a stream that no program plays.
pub open spec fn unsupported_stream_text(vm_name: Seq<char>, id: u64, info: PCMInfo) -> Seq<char> {
    "QD2 audio: "@ + vm_name + " stream "@ + decimal(id as nat)
        + " uses an unsupported PCM format ("@ + pcm_text(info) + ")"@
}

/// The message of a program that has started.
pub open spec fn started_text(label: Seq<char>, backend: AudioBackend, info: PCMInfo) -> Seq<char> {
    "QD2 audio: "@ + label + " using `"@ + backend.title() + "` for "@ + pcm_text(info)
}

/// The message of a program that has not started.
pub open spec fn not_started_text(
    label: Seq<char>,
    backend: AudioBackend,
    failure: Seq<Seq<char>>,
) -> Seq<char> {
    "QD2 audio: could not start `"@ + backend.title() + "` for "@ + label + ": "@ + joined(
        failure,
        ": "@,
    )
}

/// The message of a program that does not take sound any more.
pub open spec fn write_failure_text(
    label: Seq<char>,
    backend: AudioBackend,
    retry: bool,
    failure: Seq<Seq<char>>,
) -> Seq<char> {
    "QD2 audio: "@ + label + " backend `"@ + backend.title() + if retry {
        "` failed after fallback: "@
    } else {
        "` failed: "@
    } + failure[0]
}

impl AudioStreamWorker {
    /// The state of the stream.
    pub closed spec fn state(&self) -> StreamState {
        StreamState {
            enabled: self.enabled,
            candidates: self.candidates@,
            failed: self.next_candidate as nat,
            running: self.running,
            exhausted: self.exhausted,
            phase: self.phase,
        }
    }

    /// The label of the stream.
    pub closed spec fn spec_label(&self) -> Seq<char> {
        self.stream_label@
    }

    /// The format of the stream.
    pub closed spec fn spec_info(&self) -> PCMInfo {
        self.info
    }

    /// The volume of the stream.
    pub closed spec fn spec_volume(&self) -> Volume {
        self.volume
    }

    /// The two streams are the same but for their state.
    pub open spec fn continues(&self, other: &AudioStreamWorker) -> bool {
        &&& self.spec_label() == other.spec_label()
        &&& self.spec_info() == other.spec_info()
        &&& self.spec_volume() == other.spec_volume()
    }

    /// A new stream, with the message to print where no program plays it.
    pub fn new(vm_name: &str, id: u64, info: PCMInfo, native: ByteOrder) -> (result: (
        AudioStreamWorker,
        Option<String>,
    ))
        ensures
            result.0.state().wf(),
            result.0.state() == (StreamState {
                enabled: true,
                candidates: backends_for(info, native),
                failed: 0,
                running: None,
                exhausted: false,
                phase: ChunkPhase::Idle,
            }),
            result.0.spec_label() == label_text(vm_name@, id),
            result.0.spec_info() == info,
            !result.0.spec_volume().mute,
            result.0.spec_volume().volume@.len() == 0,
            opt_string(result.1) == if backends_for(info, native).len() == 0 {
                Some(unsupported_stream_text(vm_name@, id, info))
            } else {
                None
            },
    {
        let candidates = preferred_backends(&info, native);
        let number = to_decimal(id);
        let message = if candidates.len() == 0 {
            let format = describe_pcm_info(&info);
            Some(
                concat7(
                    "QD2 audio: ",
                    vm_name,
                    " stream ",
                    number.as_str(),
                    " uses an unsupported PCM format (",
                    format.as_str(),
                    ")",
                ),
            )
        } else {
            None
        };
        let worker = AudioStreamWorker {
            stream_label: concat3(vm_name, " audio stream ", number.as_str()),
            info,
            enabled: true,
            volume: Volume { mute: false, volume: Vec::new() },
            candidates,
            next_candidate: 0,
            running: None,
            exhausted: false,
            phase: ChunkPhase::Idle,
        };
        (worker, message)
    }

    /// Switches the stream on or off.
    pub fn set_enabled(&mut self, enabled: bool)
        ensures
            final(self).continues(old(self)),
            final(self).state() == (StreamState { enabled, ..old(self).state() }),
    {
        self.enabled = enabled;
    }

    /// Sets the volume of the stream.
    pub fn set_volume(&mut self, volume: Volume)
        ensures
            final(self).spec_volume() == volume,
            final(self).spec_label() == old(self).spec_label(),
            final(self).spec_info() == old(self).spec_info(),
            final(self).state() == old(self).state(),
    {
        self.volume = volume;
    }

    /// The label of the stream.
    pub fn label(&self) -> (label: &str)
        ensures
            label@ == self.spec_label(),
    {
        self.stream_label.as_str()
    }

    /// The format of the stream.
    pub fn info(&self) -> (info: PCMInfo)
        ensures
            info == self.spec_info(),
    {
        self.info
    }

    /// The volume of the stream.
    pub fn volume(&self) -> (volume: &Volume)
        ensures
            *volume == self.spec_volume(),
    {
        &self.volume
    }

    fn start_next(&mut self, retry: bool) -> (backend: Option<AudioBackend>)
        requires
            old(self).state().failed <= old(self).state().candidates.len(),
        ensures
            final(self).continues(old(self)),
            (final(self).state(), backend) == old(self).state().start_next(retry),
    {
        self.running = None;
        if self.next_candidate < self.candidates.len() {
            self.phase = ChunkPhase::Starting { retry };
            Some(self.candidates[self.next_candidate])
        } else {
            self.phase = ChunkPhase::Idle;
            self.exhausted = true;
            None
        }
    }

    /// A chunk of sound has arrived.
    pub fn chunk(&mut self) -> (step: AudioStep)
        requires
            old(self).state().wf(),
        ensures
            final(self).state().wf(),
            final(self).continues(old(self)),
            (final(self).state(), step) == old(self).state().after_chunk(),
    {
        if !self.enabled || self.exhausted {
            self.phase = ChunkPhase::Idle;
            return AudioStep::Finish;
        }
        if self.running.is_some() {
            self.phase = ChunkPhase::Writing { retry: false };
            return AudioStep::Write;
        }
        match self.start_next(false) {
            Some(backend) => AudioStep::Start(backend),
            None => AudioStep::Finish,
        }
    }

    /// A program was started, or could not be: the message to print, and what to do next.
    pub fn started(&mut self, result: Result<(), Failure>) -> (outcome: (String, AudioStep))
        requires
            old(self).state().wf(),
            old(self).state().phase is Starting,
        ensures
            final(self).state().wf(),
            final(self).continues(old(self)),
            (final(self).state(), outcome.1) == old(self).state().after_start(result is Ok),
            ({
                let backend = old(self).state().candidates[old(self).state().failed as int];
                outcome.0@ == match result {
                    Ok(_) => started_text(old(self).spec_label(), backend, old(self).spec_info()),
                    Err(failure) => not_started_text(old(self).spec_label(), backend, failure@),
                }
            }),
    {
        let retry = matches!(self.phase, ChunkPhase::Starting { retry: true });
        assert(self.next_candidate < self.candidates.len());
        let backend = self.candidates[self.next_candidate];
        match result {
            Ok(_) => {
                let format = describe_pcm_info(&self.info);
                let message = concat6(
                    "QD2 audio: ",
                    self.stream_label.as_str(),
                    " using `",
                    backend.name(),
                    "` for ",
                    format.as_str(),
                );
                self.running = Some(backend);
                self.phase = ChunkPhase::Writing { retry };
                (message, AudioStep::Write)
            },
            Err(failure) => {
                let reason = failure.in_full();
                let message = concat6(
                    "QD2 audio: could not start `",
                    backend.name(),
                    "` for ",
                    self.stream_label.as_str(),
                    ": ",
                    reason.as_str(),
                );
                self.next_candidate = self.next_candidate + 1;
                let step = match self.start_next(retry) {
                    Some(next) => AudioStep::Start(next),
                    None => AudioStep::Finish,
                };
                (message, step)
            },
        }
    }

    /// The chunk was written, or could not be: the message to print, and what to do next.
    pub fn wrote(&mut self, result: Result<(), Failure>) -> (outcome: (Option<String>, AudioStep))
        requires
            old(self).state().wf(),
            old(self).state().phase is Writing,
        ensures
            final(self).state().wf(),
            final(self).continues(old(self)),
            (final(self).state(), outcome.1) == old(self).state().after_write(result is Ok),
            opt_string(outcome.0) == match result {
                Ok(_) => None,
                Err(failure) => Some(
                    write_failure_text(
                        old(self).spec_label(),
                        old(self).state().running->0,
                        old(self).state().phase == (ChunkPhase::Writing { retry: true }),
                        failure@,
                    ),
                ),
            },
    {
        let failure = match result {
            Ok(_) => {
                self.phase = ChunkPhase::Idle;
                return (None, AudioStep::Finish);
            },
            Err(failure) => failure,
        };
        let retry = matches!(self.phase, ChunkPhase::Writing { retry: true });
        assert(self.next_candidate < self.candidates.len());
        let backend = self.candidates[self.next_candidate];
        let reason = failure.to_string();
        let verdict = if retry {
            "` failed after fallback: "
        } else {
            "` failed: "
        };
        let message = concat6(
            "QD2 audio: ",
            self.stream_label.as_str(),
            " backend `",
            backend.name(),
            verdict,
            reason.as_str(),
        );
        self.next_candidate = self.next_candidate + 1;
        if retry {
            self.running = None;
            self.exhausted = true;
            self.phase = ChunkPhase::Idle;
            return (Some(message), AudioStep::Abandon);
        }
        let step = match self.start_next(true) {
            Some(next) => AudioStep::Replace(next),
            None => AudioStep::Abandon,
        };
        (Some(message), step)
    }
}

/// Every event leaves the stream in order, and takes back no failure: a program that has failed is
/// not started again.
pub proof fn failed_programs_stay_failed(state: StreamState, fine: bool)
    requires
        state.wf(),
    ensures
        ({
            let next = state.after_chunk().0;
            next.wf() && next.failed >= state.failed && next.candidates == state.candidates
        }),
        state.phase is Starting ==> ({
            let next = state.after_start(fine).0;
            &&& next.wf()
            &&& next.candidates == state.candidates
            &&& next.failed == state.failed + if fine {
                0int
            } else {
                1int
            }
        }),
        state.phase is Writing ==> ({
            let next = state.after_write(fine).0;
            &&& next.wf()
            &&& next.candidates == state.candidates
            &&& next.failed == state.failed + if fine {
                0int
            } else {
                1int
            }
        }),
{
}

/// The program that a step starts.
pub open spec fn starts(step: AudioStep) -> Option<AudioBackend> {
    match step {
        AudioStep::Start(backend) => Some(backend),
        AudioStep::Replace(backend) => Some(backend),
        _ => None,
    }
}

/// Where the step starts a program, it is the first candidate that has not failed.
pub open spec fn starts_in_order(outcome: (StreamState, AudioStep)) -> bool {
    starts(outcome.1) matches Some(backend) ==> {
        &&& outcome.0.failed < outcome.0.candidates.len()
        &&& outcome.0.candidates[outcome.0.failed as int] == backend
    }
}

/// Programs are started in the order of preference, each after those before it have failed.
pub proof fn candidates_are_tried_in_order(state: StreamState, fine: bool)
    requires
        state.wf(),
    ensures
        starts_in_order(state.after_chunk()),
        state.phase is Starting ==> starts_in_order(state.after_start(fine)),
        state.phase is Writing ==> starts_in_order(state.after_write(fine)),
{
}

/// A stream that has given up stays silent.
pub proof fn exhausted_streams_stay_silent(state: StreamState)
    requires
        state.wf(),
        state.exhausted,
    ensures
        state.after_chunk().1 == AudioStep::Finish,
        state.after_chunk().0.exhausted,
{
}

/// A chunk is written to at most two programs.
pub proof fn chunks_are_written_at_most_twice(state: StreamState)
    requires
        state.wf(),
        state.phase == (ChunkPhase::Writing { retry: true }),
    ensures
        state.after_write(false).1 == AudioStep::Abandon,
        state.after_write(true).1 == AudioStep::Finish,
{
}

/// The line that a program has printed speaks of a sound server that cannot be reached.
pub open spec fn mentions_refusal(line: Seq<char>) -> bool {
    ||| occurs(line, "Failed to connect to PipeWire instance"@)
    ||| occurs(line, "Host is down"@)
    ||| occurs(line, "Operation not permitted"@)
}

/// The hint about sound under sudo, which is given once.
#[derive(Debug)]
pub struct AudioHint {
    given: bool,
}

impl Default for AudioHint {
    fn default() -> (hint: AudioHint)
        ensures
            !hint.was_given(),
    {
        AudioHint { given: false }
    }
}

impl AudioHint {
    /// The hint has been given.
    pub closed spec fn was_given(&self) -> bool {
        self.given
    }

    /// The hint to print once a program has printed a line, or cannot be listened to.
    pub fn hint_for(
        &mut self,
        backend: AudioBackend,
        line: Option<&str>,
        environment: &SessionEnvironment,
    ) -> (hint: Option<String>)
        ensures
            ({
                let wanted = backend == AudioBackend::PwPlay && match opt_text(line) {
                    Some(text) => mentions_refusal(text),
                    None => true,
                };
                let text = pipewire_hint(
                    opt_string(environment.sudo_user),
                    opt_string(environment.sudo_uid),
                    opt_string(environment.runtime_dir),
                    opt_string(environment.dbus_session_bus),
                );
                &&& opt_string(hint) == if wanted && !old(self).was_given() {
                    text
                } else {
                    None
                }
                &&& final(self).was_given() == (old(self).was_given() || (wanted && text is Some))
            }),
    {
        if backend != AudioBackend::PwPlay {
            return None;
        }
        let wanted = match line {
            Some(text) => contains(text, "Failed to connect to PipeWire instance") || contains(
                text,
                "Host is down",
            ) || contains(text, "Operation not permitted"),
            None => true,
        };
        if !wanted {
            return None;
        }
        let hint = pipewire_sudo_environment_hint(environment);
        if hint.is_none() || self.given {
            return None;
        }
        self.given = true;
        hint
    }
}

/// The message that passes on what a program has printed.
pub fn backend_line(backend: AudioBackend, stream_label: &str, line: &str) -> (message: String)
    ensures
        message@ == "QD2 audio backend `"@ + backend.title() + "` ("@ + stream_label@ + "): "@
            + line@,
{
    concat6("QD2 audio backend `", backend.name(), "` (", stream_label, "): ", line)
}

/// A chunk is written where a program runs, and starts the first program that has not failed where
/// none does. It is dropped only where the stream is off or every program has failed. It costs no
/// program its place.
pub proof fn chunks_are_written_or_start_a_program(worker: &mut AudioStreamWorker, step: AudioStep)
    requires
        old(worker).state().wf(),
        call_ensures(AudioStreamWorker::chunk, (worker,), step),
    ensures
        ({
            let before = old(worker).state();
            let after = final(worker).state();
            let silent = !before.enabled || before.exhausted;
            let left = before.failed < before.candidates.len();
            &&& step is Write <==> !silent && before.running is Some
            &&& step is Start <==> !silent && before.running is None && left
            &&& step is Finish <==> silent || before.running is None && !left
            &&& step matches AudioStep::Start(backend) ==> backend
                == before.candidates[before.failed as int]
            &&& after.failed == before.failed && after.candidates == before.candidates
            &&& after.enabled == before.enabled
            &&& step is Write ==> after.running == before.running
            &&& final(worker).spec_label() == old(worker).spec_label()
            &&& final(worker).spec_info() == old(worker).spec_info()
            &&& final(worker).spec_volume() == old(worker).spec_volume()
        }),
{
}

/// A program that has started gets the chunk. One that has not is passed over for good: the next one
/// is started, and without a next one the stream falls silent.
pub proof fn the_next_program_is_started(
    worker: &mut AudioStreamWorker,
    result: Result<(), Failure>,
    outcome: (String, AudioStep),
)
    requires
        old(worker).state().wf(),
        old(worker).state().phase is Starting,
        call_ensures(AudioStreamWorker::started, (worker, result), outcome),
    ensures
        ({
            let before = old(worker).state();
            let after = final(worker).state();
            &&& after.candidates == before.candidates && after.enabled == before.enabled
            &&& result is Ok ==> {
                &&& outcome.1 is Write
                &&& after.running == Some(before.candidates[before.failed as int])
                &&& after.failed == before.failed
            }
            &&& result is Err ==> {
                &&& after.running is None
                &&& after.failed == before.failed + 1
                &&& before.failed + 1 < before.candidates.len() ==> outcome.1 == AudioStep::Start(
                    before.candidates[before.failed as int + 1],
                ) && !after.exhausted
                &&& before.failed + 1 == before.candidates.len() ==> outcome.1 is Finish
                    && after.exhausted
            }
        }),
{
}

/// A chunk that was written is done with, and its program goes on. One that was not is tried once
/// more on the next program; the stream falls silent where there is none, or where that has failed
/// with the same chunk.
pub proof fn chunks_get_a_second_chance(
    worker: &mut AudioStreamWorker,
    result: Result<(), Failure>,
    outcome: (Option<String>, AudioStep),
)
    requires
        old(worker).state().wf(),
        old(worker).state().phase is Writing,
        call_ensures(AudioStreamWorker::wrote, (worker, result), outcome),
    ensures
        ({
            let before = old(worker).state();
            let after = final(worker).state();
            let second = before.phase->Writing_retry;
            let next = before.failed + 1;
            &&& after.candidates == before.candidates && after.enabled == before.enabled
            &&& result is Ok <==> outcome.0 is None
            &&& result is Ok ==> {
                &&& outcome.1 is Finish
                &&& after.running == before.running && after.failed == before.failed
                &&& !after.exhausted
            }
            &&& result is Err ==> {
                &&& after.running is None && after.failed == next
                &&& !second && next < before.candidates.len() ==> outcome.1 == AudioStep::Replace(
                    before.candidates[next as int],
                ) && !after.exhausted && after.phase == (ChunkPhase::Starting { retry: true })
                &&& second || next == before.candidates.len() ==> outcome.1 is Abandon
                    && after.exhausted
            }
        }),
{
}

/// A chunk that is on its second chance stays so while programs are started for it, and a new chunk
/// has its first.
pub proof fn second_chances_are_remembered(state: StreamState, fine: bool)
    requires
        state.wf(),
    ensures
        state.phase matches ChunkPhase::Starting { retry } ==> match state.after_start(fine).0.phase {
            ChunkPhase::Idle => !fine,
            ChunkPhase::Starting { retry: later } => !fine && later == retry,
            ChunkPhase::Writing { retry: later } => fine && later == retry,
        },
        match state.after_chunk().0.phase {
            ChunkPhase::Idle => true,
            ChunkPhase::Starting { retry } => !retry,
            ChunkPhase::Writing { retry } => !retry,
        },
{
}

/// A new stream is on, at full volume, and tries the programs that play its format, the preferred
/// one first. Nothing but a stream without such a program is reported.
pub proof fn new_streams_try_the_preferred_programs(
    vm_name: &str,
    id: u64,
    info: PCMInfo,
    native: ByteOrder,
    result: (AudioStreamWorker, Option<String>),
    backends: Vec<AudioBackend>,
)
    requires
        call_ensures(AudioStreamWorker::new, (vm_name, id, info, native), result),
        call_ensures(super::format::preferred_backends, (&info, native), backends),
    ensures
        result.0.state().candidates == backends@,
        result.0.state().failed == 0,
        result.0.state().enabled && !result.0.state().exhausted,
        result.0.state().running is None,
        result.0.spec_info() == info,
        !result.0.spec_volume().mute && result.0.spec_volume().volume.len() == 0,
        result.1 is Some <==> backends.len() == 0,
{
}

/// The hint is given at most once, and only for the program that it is about.
pub proof fn hints_are_given_once(
    state: &mut AudioHint,
    backend: AudioBackend,
    line: Option<&str>,
    environment: SessionEnvironment,
    hint: Option<String>,
)
    requires
        call_ensures(AudioHint::hint_for, (state, backend, line, &environment), hint),
    ensures
        hint is Some ==> !old(state).was_given() && final(state).was_given() && backend is PwPlay,
        old(state).was_given() ==> final(state).was_given(),
        backend is Aplay ==> final(state).was_given() == old(state).was_given(),
{
}

/// Switching a stream on or off, or setting its volume, changes nothing else of it.
pub proof fn settings_are_apart(
    switched: &mut AudioStreamWorker,
    enabled: bool,
    adjusted: &mut AudioStreamWorker,
    volume: Volume,
)
    requires
        call_ensures(AudioStreamWorker::set_enabled, (switched, enabled), ()),
        call_ensures(AudioStreamWorker::set_volume, (adjusted, volume), ()),
    ensures
        final(switched).state().enabled == enabled,
        final(switched).state().running == old(switched).state().running,
        final(switched).state().failed == old(switched).state().failed,
        final(switched).state().exhausted == old(switched).state().exhausted,
        final(switched).state().phase == old(switched).state().phase,
        final(switched).spec_volume() == old(switched).spec_volume(),
        final(switched).spec_label() == old(switched).spec_label(),
        final(switched).spec_info() == old(switched).spec_info(),
        final(adjusted).spec_volume() == volume,
        final(adjusted).state() == old(adjusted).state(),
{
}

}
