use ascii_video::reader::{
    decimation_step, pts_to_millis, seek_frame_index, seek_timestamp_micros, Config,
    ScalingQuality,
};

#[test]
fn default_config_keeps_every_frame() {
    let c = Config::default();
    assert_eq!(c.resolution, None);
    assert_eq!(c.scaling_quality, ScalingQuality::Balanced);
    assert_eq!(c.skip_frames, 1);
}

#[test]
fn decimation_emits_every_nth_frame() {
    // factor 3: of nine decoded frames, exactly every third is emitted
    let mut counter = 0u32;
    let mut emitted = Vec::new();
    for frame in 0..9 {
        let (next, emit) = decimation_step(counter, 3);
        counter = next;
        if emit {
            emitted.push(frame);
        }
    }
    assert_eq!(emitted, vec![2, 5, 8]);
}

#[test]
fn decimation_factor_one_or_zero_keeps_all() {
    assert_eq!(decimation_step(0, 1), (0, true));
    assert_eq!(decimation_step(0, 0), (0, true));
}

#[test]
fn seek_estimates_frames_from_the_rate() {
    // 5 seconds at 30 fps
    assert_eq!(seek_frame_index(5000, 30, 1), 150);
    // 2 seconds at NTSC 30000/1001
    assert_eq!(seek_frame_index(2000, 30000, 1001), 59);
    assert_eq!(seek_timestamp_micros(2500), 2_500_000);
}

#[test]
fn presentation_stamps_convert_to_milliseconds() {
    // a 90 kHz time base
    assert_eq!(pts_to_millis(900, 1, 90000), 10);
    // a millisecond time base
    assert_eq!(pts_to_millis(1234, 1, 1000), 1234);
}
