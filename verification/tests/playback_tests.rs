use ascii_video::converter::{AsciiConverter, CharacterSet};
use ascii_video::frame::Frame;
use ascii_video::playback::{
    delay_for_fps, extraction_fps, translate_key, AudioAction, Command, Key, PlaybackState,
};

fn fresh(total: usize, delay: u64) -> PlaybackState {
    PlaybackState::new(total, delay, 500, true)
}

#[test]
fn new_clamps_delay_and_volume() {
    assert_eq!(fresh(10, 1000).delay_ms, 500);
    assert_eq!(fresh(10, 1).delay_ms, 16);
    assert_eq!(fresh(10, 100).delay_ms, 100);
    let s = PlaybackState::new(10, 100, 9999, false);
    assert_eq!(s.volume, 1000);
    assert_eq!(s.current_frame, 0);
    assert!(!s.paused);
    assert!(!s.stopped);
}

#[test]
fn repeated_slower_never_passes_500ms() {
    let mut s = fresh(10, 100);
    for _ in 0..100 {
        s.apply_command(Command::Slower);
        assert!(s.delay_ms <= 500);
    }
    assert_eq!(s.delay_ms, 500);
}

#[test]
fn repeated_faster_never_drops_below_16ms() {
    let mut s = fresh(10, 400);
    for _ in 0..100 {
        s.apply_command(Command::Faster);
        assert!(s.delay_ms >= 16);
    }
    assert_eq!(s.delay_ms, 16);
}

#[test]
fn speed_steps_scale_by_a_fifth() {
    let mut s = fresh(10, 100);
    s.apply_command(Command::Slower);
    assert_eq!(s.delay_ms, 120);
    s.apply_command(Command::Faster);
    assert_eq!(s.delay_ms, 96);
}

#[test]
fn skip_back_under_ten_lands_on_zero() {
    let mut s = fresh(30, 100);
    s.current_frame = 7;
    s.apply_command(Command::SkipBack);
    assert_eq!(s.current_frame, 0);
    s.current_frame = 17;
    s.apply_command(Command::SkipBack);
    assert_eq!(s.current_frame, 7);
}

#[test]
fn skip_forward_stops_before_the_end() {
    let mut s = fresh(30, 100);
    s.current_frame = 25;
    s.apply_command(Command::SkipForward);
    assert_eq!(s.current_frame, 25);
    s.current_frame = 10;
    s.apply_command(Command::SkipForward);
    assert_eq!(s.current_frame, 20);
}

#[test]
fn pause_resume_mirror_audio() {
    let mut s = fresh(10, 100);
    assert_eq!(s.apply_command(Command::TogglePause), AudioAction::Pause);
    assert!(s.paused);
    assert_eq!(s.apply_command(Command::TogglePause), AudioAction::Play);
    assert!(!s.paused);
}

#[test]
fn quit_stops_audio_and_session() {
    let mut s = fresh(10, 100);
    assert_eq!(s.apply_command(Command::Quit), AudioAction::Stop);
    assert!(s.stopped);
    // a stopped session no longer advances
    assert!(!s.tick(10_000));
}

#[test]
fn volume_steps_clamp_and_respect_mute() {
    let mut s = fresh(10, 100);
    assert_eq!(s.apply_command(Command::VolumeUp), AudioAction::SetVolume(600));
    for _ in 0..20 {
        s.apply_command(Command::VolumeUp);
    }
    assert_eq!(s.volume, 1000);
    for _ in 0..20 {
        s.apply_command(Command::VolumeDown);
    }
    assert_eq!(s.volume, 0);
    assert_eq!(s.apply_command(Command::ToggleMute), AudioAction::SetVolume(0));
    assert!(s.muted);
    // volume changes while muted do not touch the audio track
    assert_eq!(s.apply_command(Command::VolumeUp), AudioAction::Stay);
    assert_eq!(s.volume, 100);
    assert_eq!(s.apply_command(Command::ToggleMute), AudioAction::SetVolume(100));
    assert_eq!(s.effective_volume(), 100);
}

#[test]
fn pause_freezes_current_frame_across_any_delay() {
    let mut s = fresh(10, 100);
    s.apply_command(Command::TogglePause);
    let before = s.current_frame;
    for elapsed in [0u64, 50, 100, 100_000, u64::MAX] {
        assert!(!s.tick(elapsed));
        assert_eq!(s.current_frame, before);
    }
    s.apply_command(Command::TogglePause);
    assert!(s.tick(100));
    assert_eq!(s.current_frame, before + 1);
}

#[test]
fn tick_wraps_at_the_last_frame() {
    let mut s = fresh(3, 100);
    assert!(s.tick(100));
    assert!(s.tick(100));
    assert_eq!(s.current_frame, 2);
    assert!(s.tick(100));
    assert_eq!(s.current_frame, 0);
}

#[test]
fn end_to_end_predecoded_playback_advances_on_schedule() {
    // a 10-frame pre-decoded buffer, grid 10x5, no color, sparse charset,
    // 100 ms per frame
    let conv = AsciiConverter::new(10, 5, CharacterSet::Simple, false);
    let mut grids = Vec::new();
    for i in 0..10u64 {
        let shade = (i * 25) as u8;
        let frame = Frame::new(10, 5, vec![shade; 150], i * 100, i);
        grids.push(conv.convert(&frame));
    }
    assert_eq!(grids.len(), 10);
    let mut s = PlaybackState::new(grids.len(), 100, 500, false);
    // no time has passed: still on frame 0
    assert!(!s.tick(0));
    assert_eq!(grids[s.current_frame].timestamp, 0);
    // the delay has elapsed: on frame 1
    assert!(s.tick(100));
    assert_eq!(s.current_frame, 1);
    assert_eq!(grids[s.current_frame].timestamp, 100);
}

#[test]
fn keys_translate_to_commands() {
    assert_eq!(translate_key(Key::Char('q')), Some(Command::Quit));
    assert_eq!(translate_key(Key::Char('p')), Some(Command::TogglePause));
    assert_eq!(translate_key(Key::Char('m')), Some(Command::ToggleMute));
    assert_eq!(translate_key(Key::Char('+')), Some(Command::VolumeUp));
    assert_eq!(translate_key(Key::Char('=')), Some(Command::VolumeUp));
    assert_eq!(translate_key(Key::Char('-')), Some(Command::VolumeDown));
    assert_eq!(translate_key(Key::Left), Some(Command::Slower));
    assert_eq!(translate_key(Key::Right), Some(Command::Faster));
    assert_eq!(translate_key(Key::Up), Some(Command::SkipBack));
    assert_eq!(translate_key(Key::Down), Some(Command::SkipForward));
    assert_eq!(translate_key(Key::Char('z')), None);
}

#[test]
fn status_labels_follow_the_state() {
    let mut s = fresh(10, 100);
    assert_eq!(s.status_label(), "PLAYING");
    s.apply_command(Command::TogglePause);
    assert_eq!(s.status_label(), "PAUSED");
    assert_eq!(s.volume_status(), "VOL: 50%");
    s.apply_command(Command::ToggleMute);
    assert_eq!(s.volume_status(), "MUTED");
    let silent = PlaybackState::new(10, 100, 500, false);
    assert_eq!(silent.volume_status(), "NO AUDIO");
    let mut loud = fresh(10, 100);
    for _ in 0..10 {
        loud.apply_command(Command::VolumeUp);
    }
    assert_eq!(loud.volume_status(), "VOL: 100%");
}

#[test]
fn extraction_rate_is_capped_at_fifteen() {
    assert_eq!(extraction_fps(100), 10);
    assert_eq!(extraction_fps(10), 15);
    assert_eq!(extraction_fps(1), 15);
    assert_eq!(extraction_fps(2000), 1);
    assert_eq!(extraction_fps(334), 3);
    assert_eq!(delay_for_fps(30), 33);
    assert_eq!(delay_for_fps(2), 500);
}
