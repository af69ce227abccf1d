use audio_engine::audio::{
    AudioAction, AudioCache, AudioContext, AudioMsg, SinkEffect, Speaker, FULL_VOLUME,
};

fn msg(song: &str, action: AudioAction) -> AudioMsg {
    AudioMsg { song: song.to_string(), speaker: Speaker::Mono, action: action }
}

fn start(song: &str, data: Vec<u8>, do_loop: bool) -> AudioMsg {
    msg(song, AudioAction::Start { song_data: data, do_loop: do_loop })
}

#[test]
fn start_is_idempotent() {
    let mut cache = AudioCache::new();
    let song = "a.ogg".to_string();

    let first = cache.upsert(start("a.ogg", vec![1, 2, 3], false));
    match first {
        Ok(Some(SinkEffect::Create { song_data, do_loop })) => {
            assert_eq!(song_data, vec![1, 2, 3]);
            assert!(!do_loop);
        }
        _ => panic!("first start must build a sink"),
    }
    assert_eq!(cache.slot_count(), 1);
    assert_eq!(cache.volume_of(&song), Some(FULL_VOLUME));
    assert_eq!(cache.is_playing(&song), Some(true));

    let second = cache.upsert(start("a.ogg", vec![1, 2, 3], false));
    assert!(matches!(second, Ok(None)));
    assert_eq!(cache.slot_count(), 1);
    assert_eq!(cache.volume_of(&song), Some(FULL_VOLUME));
    assert_eq!(cache.is_playing(&song), Some(true));
}

#[test]
fn missing_slot_guard() {
    let mut cache = AudioCache::new();
    let song = "missing.ogg".to_string();

    assert!(cache.upsert(msg("missing.ogg", AudioAction::Pause)).is_err());
    assert!(cache.upsert(msg("missing.ogg", AudioAction::Play)).is_err());
    assert!(cache.upsert(msg("missing.ogg", AudioAction::AdjustVolume(5_000))).is_err());
    assert!(!cache.contains_song(&song));
    assert_eq!(cache.slot_count(), 0);
}

#[test]
fn volume_normalization() {
    let mut cache = AudioCache::new();
    let song = "a.ogg".to_string();
    cache.upsert(start("a.ogg", vec![0], false)).unwrap();

    // A level of fifty points normalizes to half of full volume.
    let r = cache.upsert(msg("a.ogg", AudioAction::AdjustVolume(5_000)));
    assert!(matches!(r, Ok(Some(SinkEffect::SetVolume { volume: 5_000 }))));
    assert_eq!(cache.volume_of(&song), Some(FULL_VOLUME / 2));

    // The same level again owes the playback resource nothing.
    let again = cache.upsert(msg("a.ogg", AudioAction::AdjustVolume(5_000)));
    assert!(matches!(again, Ok(None)));
    assert_eq!(cache.volume_of(&song), Some(5_000));

    // A different level owes one call again.
    let third = cache.upsert(msg("a.ogg", AudioAction::AdjustVolume(7_500)));
    assert!(matches!(third, Ok(Some(SinkEffect::SetVolume { volume: 7_500 }))));
    assert_eq!(cache.volume_of(&song), Some(7_500));
}

#[test]
fn out_of_range_volume_is_accepted() {
    let mut cache = AudioCache::new();
    let song = "a.ogg".to_string();
    cache.upsert(start("a.ogg", vec![0], false)).unwrap();
    let r = cache.upsert(msg("a.ogg", AudioAction::AdjustVolume(20_000)));
    assert!(matches!(r, Ok(Some(SinkEffect::SetVolume { volume: 20_000 }))));
    assert_eq!(cache.volume_of(&song), Some(20_000));
}

#[test]
fn fade_out_and_play_until_end_are_accepted_noops() {
    let mut cache = AudioCache::new();
    let song = "a.ogg".to_string();

    // On a vacant slot they fail like any non-start command.
    assert!(cache.upsert(msg("a.ogg", AudioAction::FadeOut(100))).is_err());
    assert!(
        cache.upsert(msg("a.ogg", AudioAction::PlayUntilEnd { fade_out: Some(100) })).is_err()
    );

    // On an occupied slot they are absorbed without any state change.
    cache.upsert(start("a.ogg", vec![0], true)).unwrap();
    assert!(matches!(cache.upsert(msg("a.ogg", AudioAction::FadeOut(100))), Ok(None)));
    assert!(matches!(
        cache.upsert(msg("a.ogg", AudioAction::PlayUntilEnd { fade_out: None })),
        Ok(None)
    ));
    assert_eq!(cache.volume_of(&song), Some(FULL_VOLUME));
    assert_eq!(cache.is_playing(&song), Some(true));
}

#[test]
fn pause_and_play_toggle_the_slot() {
    let mut cache = AudioCache::new();
    let song = "a.ogg".to_string();
    cache.upsert(start("a.ogg", vec![0], false)).unwrap();

    let r = cache.upsert(msg("a.ogg", AudioAction::Pause));
    assert!(matches!(r, Ok(Some(SinkEffect::Pause))));
    assert_eq!(cache.is_playing(&song), Some(false));

    // Pausing an already-paused slot is harmless and still owes the call.
    let r = cache.upsert(msg("a.ogg", AudioAction::Pause));
    assert!(matches!(r, Ok(Some(SinkEffect::Pause))));
    assert_eq!(cache.is_playing(&song), Some(false));

    let r = cache.upsert(msg("a.ogg", AudioAction::Play));
    assert!(matches!(r, Ok(Some(SinkEffect::Play))));
    assert_eq!(cache.is_playing(&song), Some(true));
}

#[test]
fn fifo_per_sender_ordering() {
    let mut engine = AudioContext::new();
    let song = "a.ogg".to_string();

    engine.send_msg(start("a.ogg", vec![0], false)).unwrap();
    engine.send_msg(msg("a.ogg", AudioAction::Pause)).unwrap();
    engine.send_msg(msg("a.ogg", AudioAction::Play)).unwrap();
    assert_eq!(engine.pending_len(), 3);

    // Absent, then the queued commands drive it Playing, Paused, Playing.
    assert!(!engine.has_slot(&song));
    engine.step();
    assert_eq!(engine.is_playing(&song), Some(true));
    engine.step();
    assert_eq!(engine.is_playing(&song), Some(false));
    engine.step();
    assert_eq!(engine.is_playing(&song), Some(true));
    assert!(engine.step().is_none());
}

#[test]
fn teardown_drains_queue() {
    let mut engine = AudioContext::new();
    engine.send_msg(start("a.ogg", vec![1], false)).unwrap();
    engine.send_msg(start("b.ogg", vec![2], false)).unwrap();
    engine.send_msg(start("c.ogg", vec![3], true)).unwrap();
    assert_eq!(engine.pending_len(), 3);

    let effects = engine.shutdown();
    assert_eq!(effects.len(), 3);
    assert!(matches!(effects[0], SinkEffect::Create { .. }));
    assert!(matches!(effects[2], SinkEffect::Create { do_loop: true, .. }));
    assert_eq!(engine.pending_len(), 0);
    assert!(engine.is_closed());
    assert_eq!(engine.slot_count(), 3);
    assert!(engine.has_slot(&"b.ogg".to_string()));
}

#[test]
fn post_closure_send_fails() {
    let mut engine = AudioContext::new();
    engine.send_msg(start("a.ogg", vec![0], false)).unwrap();
    engine.shutdown();

    let rejected = engine.send_msg(msg("a.ogg", AudioAction::Pause));
    let e = rejected.unwrap_err();
    assert_eq!(e.0.song, "a.ogg");
    assert!(matches!(e.0.action, AudioAction::Pause));

    // Nothing changed: the queue stays empty and the cache keeps its state.
    assert_eq!(engine.pending_len(), 0);
    assert_eq!(engine.slot_count(), 1);
    assert_eq!(engine.is_playing(&"a.ogg".to_string()), Some(true));
}

#[test]
fn independent_keys_do_not_interfere() {
    let mut cache = AudioCache::new();
    let a = "a.ogg".to_string();
    let b = "b.ogg".to_string();
    cache.upsert(start("a.ogg", vec![1], false)).unwrap();
    cache.upsert(start("b.ogg", vec![2], false)).unwrap();

    cache.upsert(msg("a.ogg", AudioAction::Pause)).unwrap();
    cache.upsert(msg("b.ogg", AudioAction::AdjustVolume(3_000))).unwrap();
    cache.upsert(msg("a.ogg", AudioAction::AdjustVolume(9_000))).unwrap();

    assert_eq!(cache.is_playing(&a), Some(false));
    assert_eq!(cache.volume_of(&a), Some(9_000));
    assert_eq!(cache.is_playing(&b), Some(true));
    assert_eq!(cache.volume_of(&b), Some(3_000));
    assert_eq!(cache.slot_count(), 2);
}

#[test]
fn create_effect_carries_the_audio_data() {
    let mut engine = AudioContext::new();
    engine.send_msg(start("loop.ogg", vec![9, 8, 7], true)).unwrap();
    let stepped = engine.step().expect("one command was pending").unwrap();
    match stepped {
        Some(SinkEffect::Create { song_data, do_loop }) => {
            assert_eq!(song_data, vec![9, 8, 7]);
            assert!(do_loop);
        }
        _ => panic!("a start on a vacant slot must build a sink"),
    }
}

#[test]
fn worker_absorbs_missing_slot_failures() {
    let mut engine = AudioContext::new();
    engine.send_msg(msg("a.ogg", AudioAction::Pause)).unwrap();
    engine.send_msg(start("a.ogg", vec![0], false)).unwrap();

    // The first command fails inside the worker; the queue moves on.
    assert!(engine.step().expect("pending").is_err());
    assert!(engine.step().expect("pending").is_ok());
    assert!(engine.has_slot(&"a.ogg".to_string()));
}

#[test]
fn teardown_of_an_idle_engine_owes_nothing() {
    let mut engine = AudioContext::new();
    let effects = engine.shutdown();
    assert!(effects.is_empty());
    assert!(engine.is_closed());
    assert_eq!(engine.pending_len(), 0);
    assert_eq!(engine.slot_count(), 0);
}

#[test]
fn speaker_default_is_mono() {
    assert_eq!(Speaker::default(), Speaker::Mono);
    assert_ne!(Speaker::Stereo { left: 1, right: 2 }, Speaker::Mono);
}
