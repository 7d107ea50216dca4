use vstd::prelude::*;

use crate::error::AppError;
use crate::state::{PlaybackState, StateView};

verus! {

/// A transport command, consumed once by the engine in submission order.
///
/// The engine never computes on a gain: `SetVolume` carries the bit pattern of the
/// `f32` gain (`f32::to_bits`) and hands it on unchanged. `Seek` carries the target
/// in milliseconds, and may be negative.
pub enum AudioCommand {
    Play { video_id: String, duration_ms: u64 },
    Pause,
    Resume,
    Stop,
    SetVolume(u32),
    Seek(i64),
}

pub enum CommandView {
    Play { video_id: Seq<char>, duration_ms: u64 },
    Pause,
    Resume,
    Stop,
    SetVolume(u32),
    Seek(i64),
}

impl View for AudioCommand {
    type V = CommandView;

    open spec fn view(&self) -> CommandView {
        match self {
            AudioCommand::Play { video_id, duration_ms } => CommandView::Play {
                video_id: video_id@,
                duration_ms: *duration_ms,
            },
            AudioCommand::Pause => CommandView::Pause,
            AudioCommand::Resume => CommandView::Resume,
            AudioCommand::Stop => CommandView::Stop,
            AudioCommand::SetVolume(v) => CommandView::SetVolume(*v),
            AudioCommand::Seek(ms) => CommandView::Seek(*ms),
        }
    }
}

/// What the owner of the output device must do to the live sink after a command.
#[derive(PartialEq, Eq, Structural, Clone, Copy, Debug)]
pub enum SinkEffect {
    Nothing,
    /// Stop and drop the live sink, if `stop_previous`, then acquire the track of the
    /// `Play` command and report the outcome with `begin_acquisition` and `finish_load`.
    StartTrack { stop_previous: bool },
    /// Stop and drop the live sink.
    StopSink,
    PauseSink,
    ResumeSink,
    /// Set the live sink's gain to this `f32` bit pattern.
    ApplyVolume(u32),
    /// Try a device seek to this many milliseconds and report it with `finish_seek`.
    TrySeek(u64),
}

/// The playback engine's own state: everything that the telemetry publishes.
pub struct Engine {
    state: PlaybackState,
    position_ms: u64,
    duration_ms: u64,
    volume: u32,
}

pub struct EngineView {
    pub state: StateView,
    pub position_ms: u64,
    pub duration_ms: u64,
    pub volume: u32,
}

impl EngineView {
    /// A sink is alive exactly while a track is playing or paused: there is never
    /// more than one, and none while a track loads.
    pub open spec fn has_sink(self) -> bool {
        self.state is Playing || self.state is Paused
    }

    pub open spec fn wf(self) -> bool {
        self.state.wf()
    }
}

/// A seek target below zero means the start of the track.
pub open spec fn clamp_seek(ms: i64) -> u64 {
    if ms < 0 {
        0
    } else {
        ms as u64
    }
}

/// Executable form of `clamp_seek`.
pub fn clamp_seek_ms(ms: i64) -> (r: u64)
    ensures
        r == clamp_seek(ms),
{
    if ms < 0 {
        0
    } else {
        ms as u64
    }
}

/// The engine's answer to one command: its next state and what to do to the sink.
pub open spec fn step(e: EngineView, c: CommandView) -> (EngineView, SinkEffect) {
    match c {
        CommandView::Play { video_id, duration_ms } => (
            EngineView { state: StateView::Loading, position_ms: 0, duration_ms, ..e },
            SinkEffect::StartTrack { stop_previous: e.has_sink() },
        ),
        CommandView::Pause => if e.has_sink() {
            (EngineView { state: StateView::Paused, ..e }, SinkEffect::PauseSink)
        } else {
            (e, SinkEffect::Nothing)
        },
        CommandView::Resume => if e.has_sink() {
            (EngineView { state: StateView::Playing, ..e }, SinkEffect::ResumeSink)
        } else {
            (e, SinkEffect::Nothing)
        },
        CommandView::Stop => (
            EngineView { state: StateView::Stopped, position_ms: 0, ..e },
            if e.has_sink() {
                SinkEffect::StopSink
            } else {
                SinkEffect::Nothing
            },
        ),
        CommandView::SetVolume(v) => (
            EngineView { volume: v, ..e },
            if e.has_sink() {
                SinkEffect::ApplyVolume(v)
            } else {
                SinkEffect::Nothing
            },
        ),
        CommandView::Seek(ms) => (
            e,
            if e.has_sink() {
                SinkEffect::TrySeek(clamp_seek(ms))
            } else {
                SinkEffect::Nothing
            },
        ),
    }
}

/// A track whose acquisition is about to start is buffering.
pub open spec fn buffering_step(e: EngineView) -> EngineView {
    if e.state is Loading {
        EngineView { state: StateView::Buffering, ..e }
    } else {
        e
    }
}

/// The end of a load: `failure` is the diagnostic of a failed acquisition or decode.
pub open spec fn load_step(e: EngineView, failure: Option<Seq<char>>) -> EngineView {
    if e.state is Buffering {
        match failure {
            None => EngineView { state: StateView::Playing, ..e },
            Some(m) => EngineView { state: StateView::Error(m), ..e },
        }
    } else {
        e
    }
}

/// One tick's poll of the live sink. The boolean says whether the sink is to be dropped.
pub open spec fn tick_step(e: EngineView, sink_empty: bool, sink_position_ms: u64) -> (
    EngineView,
    bool,
) {
    if !e.has_sink() {
        (e, false)
    } else if !sink_empty {
        (EngineView { position_ms: sink_position_ms, ..e }, false)
    } else if e.state is Playing {
        (EngineView { state: StateView::Idle, position_ms: 0, ..e }, true)
    } else {
        (e, false)
    }
}

/// A device seek that landed moves the position to its target; one that failed changes nothing.
pub open spec fn seek_step(e: EngineView, target_ms: u64, landed: bool) -> EngineView {
    if landed && e.has_sink() {
        EngineView { position_ms: target_ms, ..e }
    } else {
        e
    }
}

/// The failure that a load outcome reports, if any.
pub open spec fn failure_of(outcome: Result<(), AppError>) -> Option<Seq<char>> {
    match outcome {
        Ok(()) => None,
        Err(e) => Some(e.text()),
    }
}

/// `Play` first has the live sink, if any, stopped and dropped, and leaves no sink
/// alive while the new track loads: two sinks never coexist.
pub proof fn lemma_play_drops_live_sink(e: EngineView, video_id: Seq<char>, duration_ms: u64)
    ensures
        step(e, CommandView::Play { video_id, duration_ms }).1 == (SinkEffect::StartTrack {
            stop_previous: e.has_sink(),
        }),
        !step(e, CommandView::Play { video_id, duration_ms }).0.has_sink(),
        step(e, CommandView::Play { video_id, duration_ms }).0.position_ms == 0,
        step(e, CommandView::Play { video_id, duration_ms }).0.duration_ms == duration_ms,
{
}

/// A sink only comes alive through a successful load of a buffering track: no command,
/// tick or seek turns an engine without a sink into one with a sink.
pub proof fn lemma_only_load_creates_sink(
    e: EngineView,
    c: CommandView,
    failure: Option<Seq<char>>,
    sink_empty: bool,
    sink_position_ms: u64,
    target_ms: u64,
    landed: bool,
)
    requires
        !e.has_sink(),
    ensures
        !step(e, c).0.has_sink(),
        !buffering_step(e).has_sink(),
        !tick_step(e, sink_empty, sink_position_ms).0.has_sink(),
        !seek_step(e, target_ms, landed).has_sink(),
        load_step(e, failure).has_sink() ==> e.state is Buffering && failure is None,
{
}

/// While a track plays, `SetVolume(v)` stores `v` and applies it to the live sink at once.
pub proof fn lemma_volume_reaches_sink(e: EngineView, v: u32)
    requires
        e.state is Playing,
    ensures
        step(e, CommandView::SetVolume(v)) == (EngineView { volume: v, ..e }, SinkEffect::ApplyVolume(v)),
{
}

/// `Stop` always ends in `Stopped` at position 0, from any state, and leaves no sink.
pub proof fn lemma_stop_resets(e: EngineView)
    ensures
        step(e, CommandView::Stop).0.state is Stopped,
        step(e, CommandView::Stop).0.position_ms == 0,
        !step(e, CommandView::Stop).0.has_sink(),
        step(e, CommandView::Stop).1 == (if e.has_sink() {
            SinkEffect::StopSink
        } else {
            SinkEffect::Nothing
        }),
{
}

/// A playing sink that reports empty ends the track on that tick: the engine is idle at
/// position 0 and the sink is dropped.
pub proof fn lemma_end_of_stream(e: EngineView, sink_position_ms: u64)
    requires
        e.state is Playing,
    ensures
        tick_step(e, true, sink_position_ms) == (
            EngineView { state: StateView::Idle, position_ms: 0, ..e },
            true,
        ),
{
}

/// A seek to a negative target behaves exactly as a seek to the start.
pub proof fn lemma_negative_seek_is_seek_to_start(e: EngineView, ms: i64)
    requires
        ms < 0,
    ensures
        step(e, CommandView::Seek(ms)) == step(e, CommandView::Seek(0)),
{
}

/// Every step keeps a well-formed engine well formed.
pub proof fn lemma_steps_preserve_wf(
    e: EngineView,
    c: CommandView,
    outcome: Result<(), AppError>,
    sink_empty: bool,
    sink_position_ms: u64,
    target_ms: u64,
    landed: bool,
)
    requires
        e.wf(),
    ensures
        step(e, c).0.wf(),
        buffering_step(e).wf(),
        load_step(e, failure_of(outcome)).wf(),
        tick_step(e, sink_empty, sink_position_ms).0.wf(),
        seek_step(e, target_ms, landed).wf(),
{
    if let Err(err) = outcome {
        err.lemma_text_nonempty();
    }
}

/// The telemetry snapshot published once per tick.
pub struct Telemetry {
    pub position_ms: u64,
    pub duration_ms: u64,
    pub volume: u32,
    pub state: PlaybackState,
}

/// The payload of a `playback-progress` event.
pub struct ProgressPayload {
    pub position_ms: u64,
    pub duration_ms: u64,
    pub state: String,
}

impl View for Engine {
    type V = EngineView;

    closed spec fn view(&self) -> EngineView {
        EngineView {
            state: self.state@,
            position_ms: self.position_ms,
            duration_ms: self.duration_ms,
            volume: self.volume,
        }
    }
}

impl Engine {
    #[verifier::type_invariant]
    spec fn inv(self) -> bool {
        self@.wf()
    }

    /// An idle engine with no track, at the given gain (an `f32` bit pattern).
    pub fn new(volume: u32) -> (r: Engine)
        ensures
            r@ == (EngineView { state: StateView::Idle, position_ms: 0, duration_ms: 0, volume }),
    {
        Engine { state: PlaybackState::Idle, position_ms: 0, duration_ms: 0, volume }
    }

    pub fn state(&self) -> (r: &PlaybackState)
        ensures
            r@ == self@.state,
    {
        &self.state
    }

    pub fn position_ms(&self) -> (r: u64)
        ensures
            r == self@.position_ms,
    {
        self.position_ms
    }

    pub fn duration_ms(&self) -> (r: u64)
        ensures
            r == self@.duration_ms,
    {
        self.duration_ms
    }

    pub fn volume(&self) -> (r: u32)
        ensures
            r == self@.volume,
    {
        self.volume
    }

    /// Takes one command. `Play` drops any live sink before anything else happens to
    /// the track (the effect says so), and only `finish_load` can make a new one alive.
    pub fn handle(&mut self, cmd: &AudioCommand) -> (eff: SinkEffect)
        ensures
            (final(self)@, eff) == step(old(self)@, cmd@),
    {
        proof {
            use_type_invariant(&*self);
        }
        let live = self.has_sink();
        match cmd {
            AudioCommand::Play { video_id: _, duration_ms } => {
                self.state = PlaybackState::Loading;
                self.duration_ms = *duration_ms;
                self.position_ms = 0;
                SinkEffect::StartTrack { stop_previous: live }
            },
            AudioCommand::Pause => {
                if live {
                    self.state = PlaybackState::Paused;
                    SinkEffect::PauseSink
                } else {
                    SinkEffect::Nothing
                }
            },
            AudioCommand::Resume => {
                if live {
                    self.state = PlaybackState::Playing;
                    SinkEffect::ResumeSink
                } else {
                    SinkEffect::Nothing
                }
            },
            AudioCommand::Stop => {
                self.state = PlaybackState::Stopped;
                self.position_ms = 0;
                if live {
                    SinkEffect::StopSink
                } else {
                    SinkEffect::Nothing
                }
            },
            AudioCommand::SetVolume(v) => {
                self.volume = *v;
                if live {
                    SinkEffect::ApplyVolume(*v)
                } else {
                    SinkEffect::Nothing
                }
            },
            AudioCommand::Seek(ms) => {
                if live {
                    SinkEffect::TrySeek(clamp_seek_ms(*ms))
                } else {
                    SinkEffect::Nothing
                }
            },
        }
    }

    /// Marks the track whose acquisition starts now as buffering.
    pub fn begin_acquisition(&mut self)
        ensures
            final(self)@ == buffering_step(old(self)@),
    {
        proof {
            use_type_invariant(&*self);
        }
        if matches!(self.state, PlaybackState::Loading) {
            self.state = PlaybackState::Buffering;
        }
    }

    /// Reports how the acquisition and decode of the buffering track ended. On success
    /// the owner of the device now holds the new sink; on failure it holds none.
    pub fn finish_load(&mut self, outcome: &Result<(), AppError>)
        ensures
            final(self)@ == load_step(old(self)@, failure_of(*outcome)),
    {
        proof {
            use_type_invariant(&*self);
        }
        if matches!(self.state, PlaybackState::Buffering) {
            match outcome {
                Ok(()) => {
                    self.state = PlaybackState::Playing;
                },
                Err(e) => {
                    let msg = e.to_text();
                    proof {
                        e.lemma_text_nonempty();
                    }
                    self.state = PlaybackState::Error(msg);
                },
            }
        }
    }

    /// Polls the live sink once per tick: `sink_empty` is whether it has drained and
    /// `sink_position_ms` its elapsed position (both are ignored when there is no sink).
    /// Returns whether the sink is to be dropped: the track played to its end.
    pub fn tick(&mut self, sink_empty: bool, sink_position_ms: u64) -> (release: bool)
        ensures
            (final(self)@, release) == tick_step(old(self)@, sink_empty, sink_position_ms),
    {
        proof {
            use_type_invariant(&*self);
        }
        if !self.has_sink() {
            false
        } else if !sink_empty {
            self.position_ms = sink_position_ms;
            false
        } else if self.state.is_playing() {
            self.state = PlaybackState::Idle;
            self.position_ms = 0;
            true
        } else {
            false
        }
    }

    /// Reports whether the device seek to `target_ms` asked for by `TrySeek` landed.
    pub fn finish_seek(&mut self, target_ms: u64, landed: bool)
        ensures
            final(self)@ == seek_step(old(self)@, target_ms, landed),
    {
        proof {
            use_type_invariant(&*self);
        }
        if landed && self.has_sink() {
            self.position_ms = target_ms;
        }
    }

    /// The full telemetry snapshot.
    pub fn snapshot(&self) -> (r: Telemetry)
        ensures
            r.position_ms == self@.position_ms,
            r.duration_ms == self@.duration_ms,
            r.volume == self@.volume,
            r.state@ == self@.state,
    {
        Telemetry {
            position_ms: self.position_ms,
            duration_ms: self.duration_ms,
            volume: self.volume,
            state: self.state.copied(),
        }
    }

    /// The `playback-progress` event for this tick.
    pub fn progress(&self) -> (r: ProgressPayload)
        ensures
            r.position_ms == self@.position_ms,
            r.duration_ms == self@.duration_ms,
            r.state@ == self@.state.text(),
    {
        ProgressPayload {
            position_ms: self.position_ms,
            duration_ms: self.duration_ms,
            state: self.state.to_text(),
        }
    }

    /// Whether the owner of the device holds a live sink.
    pub fn has_sink(&self) -> (r: bool)
        ensures
            r == self@.has_sink(),
    {
        match self.state {
            PlaybackState::Playing | PlaybackState::Paused => true,
            _ => false,
        }
    }
}

} // verus!
