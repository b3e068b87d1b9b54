//! The playback scheduler's decision core: a state machine from commands and
//! elapsed wall-clock time to the next playback state, plus the audio action
//! that keeps an optional audio track in lock-step with every transition.
//!
//! The scheduler owns this state exclusively; the input poller only enqueues
//! commands, which the tick loop drains in arrival order and applies here.

use vstd::prelude::*;

verus! {

/// The shortest per-frame delay the speed control reaches (fastest playback).
pub const MIN_DELAY_MS: u64 = 16;

/// The longest per-frame delay the speed control reaches (slowest playback).
pub const MAX_DELAY_MS: u64 = 500;

/// How far one volume command moves the per-mille volume.
pub const VOLUME_STEP: u16 = 100;

/// How many frames one seek command jumps.
pub const SKIP_FRAMES: usize = 10;

/// A key event the input poller recognizes.
#[derive(Clone, Copy, Debug, PartialEq, Eq, Structural)]
pub enum Key {
    Char(char),
    Left,
    Right,
    Up,
    Down,
}

/// One playback command, drained from the input queue in arrival order.
#[derive(Clone, Copy, Debug, PartialEq, Eq, Structural)]
pub enum Command {
    Quit,
    TogglePause,
    ToggleMute,
    VolumeUp,
    VolumeDown,
    Slower,
    Faster,
    SkipBack,
    SkipForward,
}

/// What the audio track must do to stay in lock-step with a transition.
#[derive(Clone, Copy, Debug, PartialEq, Eq, Structural)]
pub enum AudioAction {
    Stay,
    Play,
    Pause,
    Stop,
    SetVolume(u16),
}

/// Which command a key stands for, if any.
pub open spec fn key_command_spec(key: Key) -> Option<Command> {
    match key {
        Key::Char(c) => if c == 'q' {
            Some(Command::Quit)
        } else if c == 'p' {
            Some(Command::TogglePause)
        } else if c == 'm' {
            Some(Command::ToggleMute)
        } else if c == '+' || c == '=' {
            Some(Command::VolumeUp)
        } else if c == '-' {
            Some(Command::VolumeDown)
        } else {
            None
        },
        Key::Left => Some(Command::Slower),
        Key::Right => Some(Command::Faster),
        Key::Up => Some(Command::SkipBack),
        Key::Down => Some(Command::SkipForward),
    }
}

/// Translates a key event into its playback command.
pub fn translate_key(key: Key) -> (c: Option<Command>)
    ensures
        c == key_command_spec(key),
{
    match key {
        Key::Char(c) => {
            if c == 'q' {
                Some(Command::Quit)
            } else if c == 'p' {
                Some(Command::TogglePause)
            } else if c == 'm' {
                Some(Command::ToggleMute)
            } else if c == '+' || c == '=' {
                Some(Command::VolumeUp)
            } else if c == '-' {
                Some(Command::VolumeDown)
            } else {
                None
            }
        },
        Key::Left => Some(Command::Slower),
        Key::Right => Some(Command::Faster),
        Key::Up => Some(Command::SkipBack),
        Key::Down => Some(Command::SkipForward),
    }
}

/// The playback delay a session starts from, clamped onto the speed
/// control's range.
pub open spec fn clamp_delay_spec(d: u64) -> u64 {
    if d < MIN_DELAY_MS {
        MIN_DELAY_MS
    } else if d > MAX_DELAY_MS {
        MAX_DELAY_MS
    } else {
        d
    }
}

/// One slow-down step: a fifth more delay, capped at the maximum.
pub open spec fn slower_spec(d: u64) -> u64 {
    if d * 12 / 10 >= MAX_DELAY_MS {
        MAX_DELAY_MS
    } else {
        (d * 12 / 10) as u64
    }
}

/// One speed-up step: a fifth less delay, floored at the minimum.
pub open spec fn faster_spec(d: u64) -> u64 {
    if d * 8 / 10 <= MIN_DELAY_MS {
        MIN_DELAY_MS
    } else {
        (d * 8 / 10) as u64
    }
}

/// One volume-up step on the per-mille scale, capped at full volume.
pub open spec fn volume_up_spec(v: u16) -> u16 {
    if v + VOLUME_STEP >= 1000 {
        1000u16
    } else {
        (v + VOLUME_STEP) as u16
    }
}

/// One volume-down step on the per-mille scale, floored at silence.
pub open spec fn volume_down_spec(v: u16) -> u16 {
    if v >= VOLUME_STEP {
        (v - VOLUME_STEP) as u16
    } else {
        0u16
    }
}

/// A seek ten frames back, stopping at the first frame.
pub open spec fn skip_back_spec(cf: usize) -> usize {
    if cf >= SKIP_FRAMES {
        (cf - SKIP_FRAMES) as usize
    } else {
        0usize
    }
}

/// A seek ten frames forward, ignored where it would pass the last frame.
pub open spec fn skip_forward_spec(cf: usize, total: usize) -> usize {
    if cf + SKIP_FRAMES < total {
        (cf + SKIP_FRAMES) as usize
    } else {
        cf
    }
}

/// The playback state the scheduler owns: the frame cursor, the pacing and
/// pause flags, and the audio settings mirrored onto the audio track.
#[derive(Clone, Copy, Debug, PartialEq, Eq, Structural)]
pub struct PlaybackState {
    /// The index of the frame on display.
    pub current_frame: usize,
    /// How many frames the session plays through.
    pub total_frames: usize,
    /// Whether playback is paused.
    pub paused: bool,
    /// The per-frame delay, in milliseconds.
    pub delay_ms: u64,
    /// The audio volume, per-mille of full volume.
    pub volume: u16,
    /// Whether the audio track is muted.
    pub muted: bool,
    /// Whether an audio output was successfully set up.
    pub audio_ok: bool,
    /// Whether a quit command has ended the session.
    pub stopped: bool,
}

/// The state after one command, with the audio action that mirrors the
/// transition.
pub open spec fn apply_command_spec(s: PlaybackState, cmd: Command) -> (PlaybackState, AudioAction) {
    match cmd {
        Command::Quit => (PlaybackState { stopped: true, ..s }, AudioAction::Stop),
        Command::TogglePause => (
            PlaybackState { paused: !s.paused, ..s },
            if !s.paused {
                AudioAction::Pause
            } else {
                AudioAction::Play
            },
        ),
        Command::ToggleMute => (
            PlaybackState { muted: !s.muted, ..s },
            AudioAction::SetVolume(
                if !s.muted {
                    0u16
                } else {
                    s.volume
                },
            ),
        ),
        Command::VolumeUp => (
            PlaybackState { volume: volume_up_spec(s.volume), ..s },
            if s.muted {
                AudioAction::Stay
            } else {
                AudioAction::SetVolume(volume_up_spec(s.volume))
            },
        ),
        Command::VolumeDown => (
            PlaybackState { volume: volume_down_spec(s.volume), ..s },
            if s.muted {
                AudioAction::Stay
            } else {
                AudioAction::SetVolume(volume_down_spec(s.volume))
            },
        ),
        Command::Slower => (
            PlaybackState { delay_ms: slower_spec(s.delay_ms), ..s },
            AudioAction::Stay,
        ),
        Command::Faster => (
            PlaybackState { delay_ms: faster_spec(s.delay_ms), ..s },
            AudioAction::Stay,
        ),
        Command::SkipBack => (
            PlaybackState { current_frame: skip_back_spec(s.current_frame), ..s },
            AudioAction::Stay,
        ),
        Command::SkipForward => (
            PlaybackState {
                current_frame: skip_forward_spec(s.current_frame, s.total_frames),
                ..s
            },
            AudioAction::Stay,
        ),
    }
}

/// The state after one scheduler tick with `elapsed_ms` of wall-clock time
/// behind it: while playing, once the elapsed time reaches the per-frame
/// delay the cursor advances one frame, wrapping at the end of the list;
/// paused or stopped playback never advances.
pub open spec fn tick_spec(s: PlaybackState, elapsed_ms: u64) -> PlaybackState {
    if !s.paused && !s.stopped && elapsed_ms >= s.delay_ms {
        PlaybackState {
            current_frame: if s.current_frame + 1 == s.total_frames {
                0usize
            } else {
                (s.current_frame + 1) as usize
            },
            ..s
        }
    } else {
        s
    }
}

impl PlaybackState {
    /// The cursor stays inside the frame list, the delay on the speed
    /// control's range, and the volume on the per-mille scale.
    pub open spec fn wf(self) -> bool {
        &&& 1 <= self.total_frames
        &&& self.current_frame < self.total_frames
        &&& MIN_DELAY_MS <= self.delay_ms <= MAX_DELAY_MS
        &&& self.volume <= 1000
    }

    /// The state a session starts in: first frame, playing, unmuted, with the
    /// requested delay and volume clamped onto their ranges.
    pub fn new(total_frames: usize, delay_ms: u64, volume: u16, audio_ok: bool) -> (s:
        PlaybackState)
        requires
            1 <= total_frames,
        ensures
            s.wf(),
            s.current_frame == 0,
            s.total_frames == total_frames,
            !s.paused,
            s.delay_ms == clamp_delay_spec(delay_ms),
            s.volume == (if volume > 1000 {
                1000u16
            } else {
                volume
            }),
            !s.muted,
            s.audio_ok == audio_ok,
            !s.stopped,
    {
        PlaybackState {
            current_frame: 0,
            total_frames,
            paused: false,
            delay_ms: if delay_ms < MIN_DELAY_MS {
                MIN_DELAY_MS
            } else if delay_ms > MAX_DELAY_MS {
                MAX_DELAY_MS
            } else {
                delay_ms
            },
            volume: if volume > 1000 {
                1000
            } else {
                volume
            },
            muted: false,
            audio_ok,
            stopped: false,
        }
    }

    /// Applies one drained command atomically and hands back the audio
    /// action that mirrors the transition.
    pub fn apply_command(&mut self, cmd: Command) -> (action: AudioAction)
        requires
            old(self).wf(),
        ensures
            final(self).wf(),
            (*final(self), action) == apply_command_spec(*old(self), cmd),
    {
        proof {
            lemma_apply_command_wf(*old(self), cmd);
        }
        match cmd {
            Command::Quit => {
                self.stopped = true;
                AudioAction::Stop
            },
            Command::TogglePause => {
                self.paused = !self.paused;
                if self.paused {
                    AudioAction::Pause
                } else {
                    AudioAction::Play
                }
            },
            Command::ToggleMute => {
                self.muted = !self.muted;
                AudioAction::SetVolume(
                    if self.muted {
                        0
                    } else {
                        self.volume
                    },
                )
            },
            Command::VolumeUp => {
                self.volume = if self.volume + VOLUME_STEP >= 1000 {
                    1000
                } else {
                    self.volume + VOLUME_STEP
                };
                if self.muted {
                    AudioAction::Stay
                } else {
                    AudioAction::SetVolume(self.volume)
                }
            },
            Command::VolumeDown => {
                self.volume = if self.volume >= VOLUME_STEP {
                    self.volume - VOLUME_STEP
                } else {
                    0
                };
                if self.muted {
                    AudioAction::Stay
                } else {
                    AudioAction::SetVolume(self.volume)
                }
            },
            Command::Slower => {
                self.delay_ms = if self.delay_ms * 12 / 10 >= MAX_DELAY_MS {
                    MAX_DELAY_MS
                } else {
                    self.delay_ms * 12 / 10
                };
                AudioAction::Stay
            },
            Command::Faster => {
                self.delay_ms = if self.delay_ms * 8 / 10 <= MIN_DELAY_MS {
                    MIN_DELAY_MS
                } else {
                    self.delay_ms * 8 / 10
                };
                AudioAction::Stay
            },
            Command::SkipBack => {
                self.current_frame = if self.current_frame >= SKIP_FRAMES {
                    self.current_frame - SKIP_FRAMES
                } else {
                    0
                };
                AudioAction::Stay
            },
            Command::SkipForward => {
                if self.total_frames - self.current_frame > SKIP_FRAMES {
                    self.current_frame = self.current_frame + SKIP_FRAMES;
                }
                AudioAction::Stay
            },
        }
    }

    /// One scheduler tick: advances the cursor once the elapsed time reaches
    /// the per-frame delay, and reports whether it advanced (so the caller
    /// can reset its elapsed timer).
    pub fn tick(&mut self, elapsed_ms: u64) -> (advanced: bool)
        requires
            old(self).wf(),
        ensures
            final(self).wf(),
            *final(self) == tick_spec(*old(self), elapsed_ms),
            advanced == (!old(self).paused && !old(self).stopped && elapsed_ms >= old(
                self,
            ).delay_ms),
    {
        if !self.paused && !self.stopped && elapsed_ms >= self.delay_ms {
            self.current_frame = if self.current_frame + 1 == self.total_frames {
                0
            } else {
                self.current_frame + 1
            };
            true
        } else {
            false
        }
    }

    /// The volume the audio track actually plays at: silence while muted.
    pub fn effective_volume(&self) -> (v: u16)
        ensures
            v == (if self.muted {
                0u16
            } else {
                self.volume
            }),
    {
        if self.muted {
            0
        } else {
            self.volume
        }
    }
}

/// One command preserves well-formedness: the delay never leaves the
/// 16..=500 ms range, the volume never leaves 0..=1000, and the cursor stays
/// inside the frame list.
pub proof fn lemma_apply_command_wf(s: PlaybackState, cmd: Command)
    requires
        s.wf(),
    ensures
        apply_command_spec(s, cmd).0.wf(),
        apply_command_spec(s, cmd).0.total_frames == s.total_frames,
{
    match cmd {
        Command::Slower => {
            vstd::arithmetic::div_mod::lemma_div_is_ordered(192, s.delay_ms * 12, 10);
            vstd::arithmetic::div_mod::lemma_div_is_ordered(s.delay_ms * 12, 6000, 10);
        },
        Command::Faster => {
            vstd::arithmetic::div_mod::lemma_div_is_ordered(s.delay_ms * 8, 4000, 10);
        },
        _ => {},
    }
}

/// The state after a whole drained queue of commands, applied in arrival
/// order.
pub open spec fn apply_commands_spec(s: PlaybackState, cmds: Seq<Command>) -> PlaybackState
    decreases cmds.len(),
{
    if cmds.len() == 0 {
        s
    } else {
        apply_command_spec(apply_commands_spec(s, cmds.drop_last()), cmds.last()).0
    }
}

/// Any sequence of commands keeps the state well formed: repeated slow-down
/// commands never push the delay above 500 ms, repeated speed-up commands
/// never below 16 ms, and seeks never leave the frame list.
pub proof fn lemma_commands_preserve_wf(s: PlaybackState, cmds: Seq<Command>)
    requires
        s.wf(),
    ensures
        apply_commands_spec(s, cmds).wf(),
        apply_commands_spec(s, cmds).total_frames == s.total_frames,
    decreases cmds.len(),
{
    if cmds.len() > 0 {
        lemma_commands_preserve_wf(s, cmds.drop_last());
        lemma_apply_command_wf(apply_commands_spec(s, cmds.drop_last()), cmds.last());
    }
}

/// A ten-frame skip back issued under index ten lands exactly on frame 0,
/// never below it.
pub proof fn lemma_skip_back_clamps(s: PlaybackState)
    requires
        s.wf(),
        s.current_frame < SKIP_FRAMES,
    ensures
        apply_command_spec(s, Command::SkipBack).0.current_frame == 0,
{
}

/// The state after a sequence of ticks with the given elapsed times.
pub open spec fn ticks_spec(s: PlaybackState, elapsed: Seq<u64>) -> PlaybackState
    decreases elapsed.len(),
{
    if elapsed.len() == 0 {
        s
    } else {
        tick_spec(ticks_spec(s, elapsed.drop_last()), elapsed.last())
    }
}

/// Pause freezes the cursor: while paused, no amount of wall-clock time over
/// any number of ticks moves the state at all.
pub proof fn lemma_pause_freezes(s: PlaybackState, elapsed: Seq<u64>)
    requires
        s.paused,
    ensures
        ticks_spec(s, elapsed) == s,
    decreases elapsed.len(),
{
    if elapsed.len() > 0 {
        lemma_pause_freezes(s, elapsed.drop_last());
    }
}

/// Resuming advances again: after a pause is toggled off, the first tick
/// whose elapsed time reaches the delay moves the cursor one frame on.
pub proof fn lemma_resume_advances(s: PlaybackState, elapsed_ms: u64)
    requires
        s.wf(),
        s.paused,
        !s.stopped,
        elapsed_ms >= s.delay_ms,
    ensures
        ({
            let resumed = apply_command_spec(s, Command::TogglePause).0;
            tick_spec(resumed, elapsed_ms).current_frame == (if s.current_frame + 1
                == s.total_frames {
                0int
            } else {
                s.current_frame + 1
            })
        }),
{
}

/// The frame-extraction rate for pre-decode mode: the rate that matches the
/// requested per-frame delay, capped at 15 frames per second to bound memory
/// and CPU.
pub open spec fn extraction_fps_spec(delay_ms: u64) -> int {
    let f = (1000 + delay_ms - 1) / (delay_ms as int);
    if f >= 15 {
        15
    } else {
        f
    }
}

/// The capped frame-extraction rate for a requested per-frame delay.
pub fn extraction_fps(delay_ms: u64) -> (fps: u32)
    requires
        1 <= delay_ms,
    ensures
        fps == extraction_fps_spec(delay_ms),
        1 <= fps <= 15,
{
    if delay_ms >= 1000 {
        proof {
            vstd::arithmetic::div_mod::lemma_fundamental_div_mod_converse(
                999 + delay_ms,
                delay_ms as int,
                1,
                999,
            );
        }
        1
    } else {
        let f = (1000 + delay_ms - 1) / delay_ms;
        proof {
            vstd::arithmetic::div_mod::lemma_div_pos_is_pos(999 + delay_ms, delay_ms as int);
            vstd::arithmetic::div_mod::lemma_div_is_ordered(
                delay_ms as int,
                999 + delay_ms,
                delay_ms as int,
            );
            vstd::arithmetic::div_mod::lemma_div_multiples_vanish(1, delay_ms as int);
        }
        if f >= 15 {
            15
        } else {
            f as u32
        }
    }
}

/// The per-frame delay that plays at a target rate.
pub fn delay_for_fps(target_fps: u32) -> (d: u64)
    requires
        1 <= target_fps,
    ensures
        d == 1000int / (target_fps as int),
{
    1000 / (target_fps as u64)
}

/// The status word for the play/pause indicator.
pub open spec fn status_label_spec(s: PlaybackState) -> Seq<char> {
    if s.paused {
        "PAUSED"@
    } else {
        "PLAYING"@
    }
}

/// The volume indicator: a failed audio setup and the mute flag win over the
/// level, which is shown rounded to the nearest ten percent.
pub open spec fn volume_label_spec(s: PlaybackState) -> Seq<char> {
    if !s.audio_ok {
        "NO AUDIO"@
    } else if s.muted {
        "MUTED"@
    } else {
        volume_text_spec((s.volume + 50) / 100)
    }
}

/// The ten-percent-step volume captions.
pub open spec fn volume_text_spec(level: int) -> Seq<char> {
    if level <= 0 {
        "VOL: 0%"@
    } else if level == 1 {
        "VOL: 10%"@
    } else if level == 2 {
        "VOL: 20%"@
    } else if level == 3 {
        "VOL: 30%"@
    } else if level == 4 {
        "VOL: 40%"@
    } else if level == 5 {
        "VOL: 50%"@
    } else if level == 6 {
        "VOL: 60%"@
    } else if level == 7 {
        "VOL: 70%"@
    } else if level == 8 {
        "VOL: 80%"@
    } else if level == 9 {
        "VOL: 90%"@
    } else {
        "VOL: 100%"@
    }
}

impl PlaybackState {
    /// The play/pause word of the status line.
    pub fn status_label(&self) -> (r: &'static str)
        ensures
            r@ == status_label_spec(*self),
    {
        if self.paused {
            "PAUSED"
        } else {
            "PLAYING"
        }
    }

    /// The volume caption of the status line.
    pub fn volume_status(&self) -> (r: &'static str)
        requires
            self.wf(),
        ensures
            r@ == volume_label_spec(*self),
    {
        if !self.audio_ok {
            "NO AUDIO"
        } else if self.muted {
            "MUTED"
        } else {
            let level: u16 = (self.volume + 50) / 100;
            if level == 0 {
                "VOL: 0%"
            } else if level == 1 {
                "VOL: 10%"
            } else if level == 2 {
                "VOL: 20%"
            } else if level == 3 {
                "VOL: 30%"
            } else if level == 4 {
                "VOL: 40%"
            } else if level == 5 {
                "VOL: 50%"
            } else if level == 6 {
                "VOL: 60%"
            } else if level == 7 {
                "VOL: 70%"
            } else if level == 8 {
                "VOL: 80%"
            } else if level == 9 {
                "VOL: 90%"
            } else {
                "VOL: 100%"
            }
        }
    }
}

} // verus!
