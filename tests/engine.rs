use sunder::acquisition::{download_verdict, plan_acquisition, AcquisitionPlan};
use sunder::engine::{clamp_seek_ms, AudioCommand, Engine, SinkEffect};
use sunder::error::AppError;
use sunder::state::PlaybackState;

fn play(id: &str, duration_ms: u64) -> AudioCommand {
    AudioCommand::Play { video_id: id.to_string(), duration_ms }
}

fn playing_engine(duration_ms: u64) -> Engine {
    let mut e = Engine::new(0.8f32.to_bits());
    assert_eq!(e.handle(&play("X", duration_ms)), SinkEffect::StartTrack { stop_previous: false });
    e.begin_acquisition();
    e.finish_load(&Ok(()));
    e
}

#[test]
fn new_engine_is_idle_without_sink() {
    let e = Engine::new(0.8f32.to_bits());
    assert_eq!(*e.state(), PlaybackState::Idle);
    assert_eq!(e.position_ms(), 0);
    assert_eq!(e.duration_ms(), 0);
    assert_eq!(f32::from_bits(e.volume()), 0.8);
    assert!(!e.has_sink());
}

#[test]
fn play_goes_through_loading_and_buffering() {
    let mut e = Engine::new(0);
    let eff = e.handle(&play("abc", 1000));
    assert_eq!(eff, SinkEffect::StartTrack { stop_previous: false });
    assert_eq!(*e.state(), PlaybackState::Loading);
    assert_eq!(e.duration_ms(), 1000);
    e.begin_acquisition();
    assert_eq!(*e.state(), PlaybackState::Buffering);
    assert!(!e.has_sink());
    e.finish_load(&Ok(()));
    assert_eq!(*e.state(), PlaybackState::Playing);
    assert!(e.has_sink());
}

#[test]
fn second_play_stops_the_live_sink_first() {
    let mut e = playing_engine(5000);
    e.tick(false, 1200);
    let eff = e.handle(&play("Y", 7000));
    assert_eq!(eff, SinkEffect::StartTrack { stop_previous: true });
    assert!(!e.has_sink());
    assert_eq!(e.position_ms(), 0);
    assert_eq!(e.duration_ms(), 7000);
    assert_eq!(*e.state(), PlaybackState::Loading);
}

#[test]
fn set_volume_while_playing_is_applied_at_once() {
    let mut e = playing_engine(5000);
    let v = 0.25f32.to_bits();
    assert_eq!(e.handle(&AudioCommand::SetVolume(v)), SinkEffect::ApplyVolume(v));
    assert_eq!(e.volume(), v);
    assert_eq!(*e.state(), PlaybackState::Playing);
}

#[test]
fn set_volume_without_sink_is_only_stored() {
    let mut e = Engine::new(0);
    let v = 1.0f32.to_bits();
    assert_eq!(e.handle(&AudioCommand::SetVolume(v)), SinkEffect::Nothing);
    assert_eq!(e.volume(), v);
    assert_eq!(*e.state(), PlaybackState::Idle);
}

#[test]
fn stop_resets_from_every_state() {
    let mut idle = Engine::new(0);
    assert_eq!(idle.handle(&AudioCommand::Stop), SinkEffect::Nothing);
    assert_eq!(*idle.state(), PlaybackState::Stopped);
    assert_eq!(idle.position_ms(), 0);

    let mut playing = playing_engine(9000);
    playing.tick(false, 4321);
    assert_eq!(playing.position_ms(), 4321);
    assert_eq!(playing.handle(&AudioCommand::Stop), SinkEffect::StopSink);
    assert_eq!(*playing.state(), PlaybackState::Stopped);
    assert_eq!(playing.position_ms(), 0);
    assert!(!playing.has_sink());

    let mut paused = playing_engine(9000);
    paused.handle(&AudioCommand::Pause);
    assert_eq!(paused.handle(&AudioCommand::Stop), SinkEffect::StopSink);
    assert_eq!(*paused.state(), PlaybackState::Stopped);

    let mut failed = Engine::new(0);
    failed.handle(&play("bad", 0));
    failed.begin_acquisition();
    failed.finish_load(&Err(AppError::Audio("no device".to_string())));
    assert_eq!(failed.handle(&AudioCommand::Stop), SinkEffect::Nothing);
    assert_eq!(*failed.state(), PlaybackState::Stopped);
    assert_eq!(failed.position_ms(), 0);
}

#[test]
fn end_of_stream_returns_to_idle() {
    let mut e = playing_engine(3000);
    assert!(!e.tick(false, 2990));
    assert_eq!(e.position_ms(), 2990);
    assert!(e.tick(true, 0));
    assert_eq!(*e.state(), PlaybackState::Idle);
    assert_eq!(e.position_ms(), 0);
    assert!(!e.has_sink());
    assert!(!e.tick(true, 0));
    assert_eq!(*e.state(), PlaybackState::Idle);
}

#[test]
fn empty_sink_while_paused_is_kept() {
    let mut e = playing_engine(3000);
    e.tick(false, 500);
    e.handle(&AudioCommand::Pause);
    assert!(!e.tick(true, 0));
    assert_eq!(*e.state(), PlaybackState::Paused);
    assert_eq!(e.position_ms(), 500);
    assert!(e.has_sink());
}

#[test]
fn negative_seek_is_seek_to_start() {
    let mut a = playing_engine(60000);
    let mut b = playing_engine(60000);
    a.tick(false, 30000);
    b.tick(false, 30000);
    let ea = a.handle(&AudioCommand::Seek(-5000));
    let eb = b.handle(&AudioCommand::Seek(0));
    assert_eq!(ea, eb);
    assert_eq!(ea, SinkEffect::TrySeek(0));
    assert_eq!(a.position_ms(), b.position_ms());
    assert_eq!(clamp_seek_ms(-5000), 0);
    assert_eq!(clamp_seek_ms(42), 42);
}

#[test]
fn seek_moves_position_only_when_it_lands() {
    let mut e = playing_engine(60000);
    e.tick(false, 1000);
    assert_eq!(e.handle(&AudioCommand::Seek(12500)), SinkEffect::TrySeek(12500));
    e.finish_seek(12500, false);
    assert_eq!(e.position_ms(), 1000);
    assert_eq!(*e.state(), PlaybackState::Playing);
    e.finish_seek(12500, true);
    assert_eq!(e.position_ms(), 12500);
}

#[test]
fn commands_without_sink_are_ignored() {
    let mut e = Engine::new(0);
    assert_eq!(e.handle(&AudioCommand::Pause), SinkEffect::Nothing);
    assert_eq!(e.handle(&AudioCommand::Resume), SinkEffect::Nothing);
    assert_eq!(e.handle(&AudioCommand::Seek(1000)), SinkEffect::Nothing);
    assert_eq!(*e.state(), PlaybackState::Idle);
}

#[test]
fn failed_acquisition_reports_exit_status() {
    let mut e = Engine::new(0);
    e.handle(&play("missing-id", 0));
    e.begin_acquisition();
    assert_eq!(plan_acquisition(false), AcquisitionPlan::Download);
    let outcome = download_verdict(false, "exit status: 1", false, "/tmp/sunder/missing-id.mp3");
    e.finish_load(&outcome);
    match e.state() {
        PlaybackState::Error(m) => {
            assert_eq!(m, "extraction: yt-dlp failed (exit status: 1)");
            assert!(m.contains("exit status: 1"));
        }
        other => panic!("unexpected state {:?}", other),
    }
    assert!(!e.has_sink());
    assert_eq!(e.state().to_text(), "error: extraction: yt-dlp failed (exit status: 1)");
}

#[test]
fn cached_asset_plays_without_download() {
    let mut e = Engine::new(0);
    assert_eq!(e.handle(&play("cached-id", 210000)), SinkEffect::StartTrack { stop_previous: false });
    e.begin_acquisition();
    assert_eq!(plan_acquisition(true), AcquisitionPlan::UseCached);
    e.finish_load(&Ok(()));
    assert_eq!(*e.state(), PlaybackState::Playing);
    assert_eq!(e.duration_ms(), 210000);
    let p = e.progress();
    assert_eq!(p.duration_ms, 210000);
    assert_eq!(p.state, "playing");
}

#[test]
fn pause_after_play_freezes_position() {
    let mut e = playing_engine(100000);
    e.tick(false, 800);
    assert_eq!(e.handle(&AudioCommand::Pause), SinkEffect::PauseSink);
    assert_eq!(*e.state(), PlaybackState::Paused);
    e.tick(false, 816);
    let frozen = e.position_ms();
    e.tick(false, 816);
    e.tick(false, 816);
    assert_eq!(e.position_ms(), frozen);
    assert_eq!(*e.state(), PlaybackState::Paused);
    assert_eq!(e.handle(&AudioCommand::Resume), SinkEffect::ResumeSink);
    assert_eq!(*e.state(), PlaybackState::Playing);
}

#[test]
fn load_outcome_outside_buffering_is_ignored() {
    let mut e = Engine::new(0);
    e.finish_load(&Ok(()));
    assert_eq!(*e.state(), PlaybackState::Idle);
    e.begin_acquisition();
    assert_eq!(*e.state(), PlaybackState::Idle);
}

#[test]
fn snapshot_carries_all_counters() {
    let mut e = playing_engine(4000);
    e.tick(false, 1500);
    let t = e.snapshot();
    assert_eq!(t.position_ms, 1500);
    assert_eq!(t.duration_ms, 4000);
    assert_eq!(f32::from_bits(t.volume), 0.8);
    assert_eq!(t.state, PlaybackState::Playing);
    let p = e.progress();
    assert_eq!(p.position_ms, 1500);
    assert_eq!(p.state, "playing");
}

#[test]
fn state_texts() {
    assert_eq!(PlaybackState::Idle.to_text(), "idle");
    assert_eq!(PlaybackState::Loading.to_text(), "loading");
    assert_eq!(PlaybackState::Buffering.to_text(), "buffering");
    assert_eq!(PlaybackState::Playing.to_text(), "playing");
    assert_eq!(PlaybackState::Paused.to_text(), "paused");
    assert_eq!(PlaybackState::Stopped.to_text(), "stopped");
    assert_eq!(PlaybackState::Error("boom".to_string()).to_text(), "error: boom");
    assert_eq!(PlaybackState::Error("a".to_string()).copied(), PlaybackState::Error("a".to_string()));
    assert_ne!(PlaybackState::Error("a".to_string()), PlaybackState::Error("b".to_string()));
    assert_ne!(PlaybackState::Idle, PlaybackState::Stopped);
}
