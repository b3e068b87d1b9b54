//! Decision logic of the streaming reader: frame decimation, seek-position
//! arithmetic, and the plain-value descriptions of streams that the decoder
//! collaborator fills in.

use vstd::prelude::*;

verus! {

/// The resampling quality tier, trading CPU for visual fidelity.
#[derive(Clone, Copy, Debug, PartialEq, Eq, Structural)]
pub enum ScalingQuality {
    Fast,
    Balanced,
    Best,
}

/// How a streaming reader decodes: an optional target resolution, the
/// resampling tier, and the decimation factor (only every Nth successfully
/// decoded frame is kept).
#[derive(Clone, Copy, Debug, PartialEq, Eq)]
pub struct Config {
    pub resolution: Option<(u32, u32)>,
    pub scaling_quality: ScalingQuality,
    pub skip_frames: u32,
}

impl Default for Config {
    /// Native resolution, balanced resampling, no decimation.
    fn default() -> (c: Config)
        ensures
            c.resolution is None,
            c.scaling_quality == ScalingQuality::Balanced,
            c.skip_frames == 1,
    {
        Config { resolution: None, scaling_quality: ScalingQuality::Balanced, skip_frames: 1 }
    }
}

/// One decimation step: the counter advances on every successfully decoded
/// frame, and the frame is emitted (with the counter reset) exactly when the
/// counter reaches the factor. A factor of 0 or 1 keeps every frame. Decode
/// failures never reach this step, so they are not counted.
pub open spec fn decimation_step_spec(counter: u32, skip_frames: u32) -> (u32, bool) {
    if counter + 1 < skip_frames {
        ((counter + 1) as u32, false)
    } else {
        (0u32, true)
    }
}

/// Advances the decimation counter for one decoded frame and says whether
/// that frame is emitted.
pub fn decimation_step(counter: u32, skip_frames: u32) -> (r: (u32, bool))
    requires
        counter < skip_frames || skip_frames == 0,
    ensures
        r == decimation_step_spec(counter, skip_frames),
        r.0 < skip_frames || skip_frames == 0,
{
    if skip_frames == 0 {
        (0, true)
    } else if counter + 1 < skip_frames {
        (counter + 1, false)
    } else {
        (0, true)
    }
}

/// The frame index a seek estimates: the target time in milliseconds taken
/// over the stream's rational frame rate (`num / den` frames per second).
/// Approximate by design, never frame-exact.
pub open spec fn seek_frame_index_spec(time_ms: u64, rate_num: u32, rate_den: u32) -> int {
    time_ms * rate_num / (rate_den * 1000)
}

/// Estimates the frame index a seek lands on.
pub fn seek_frame_index(time_ms: u64, rate_num: u32, rate_den: u32) -> (idx: u64)
    requires
        1 <= rate_den,
        time_ms * rate_num <= u64::MAX,
    ensures
        idx == seek_frame_index_spec(time_ms, rate_num, rate_den),
{
    (time_ms * (rate_num as u64)) / ((rate_den as u64) * 1000)
}

/// The decoder's seek target in its microsecond time base.
pub fn seek_timestamp_micros(time_ms: u64) -> (ts: i64)
    requires
        time_ms * 1000 <= i64::MAX,
    ensures
        ts == time_ms * 1000,
{
    (time_ms * 1000) as i64
}

/// A packet's presentation time in milliseconds, from its stamp counted in
/// the stream's rational time base (`num / den` seconds per unit).
pub open spec fn pts_to_millis_spec(pts: u64, tb_num: u32, tb_den: u32) -> int {
    pts * tb_num * 1000 / (tb_den as int)
}

/// Converts a presentation stamp to milliseconds.
pub fn pts_to_millis(pts: u64, tb_num: u32, tb_den: u32) -> (ms: u64)
    requires
        1 <= tb_den,
        pts * tb_num * 1000 <= u64::MAX,
    ensures
        ms == pts_to_millis_spec(pts, tb_num, tb_den),
{
    proof {
        assert(pts * tb_num <= pts * tb_num * 1000) by (nonlinear_arith)
            requires
                0 <= pts * tb_num,
        ;
        vstd::arithmetic::mul::lemma_mul_nonnegative(pts as int, tb_num as int);
    }
    pts * (tb_num as u64) * 1000 / (tb_den as u64)
}

/// One stream of an opened input, as the decoder collaborator reports it.
#[derive(Clone, Debug, PartialEq)]
pub struct StreamInfo {
    pub index: usize,
    pub stream_type: String,
    pub codec: String,
}

/// What an opened input reports about itself; durations are in milliseconds
/// and the frame rate is the stream's own rational.
#[derive(Clone, Debug, PartialEq)]
pub struct VideoMetadata {
    pub filename: String,
    pub width: u32,
    pub height: u32,
    pub duration_ms: u64,
    pub frame_rate_num: u32,
    pub frame_rate_den: u32,
    pub format: String,
    pub metadata: Vec<(String, String)>,
}

} // verus!
