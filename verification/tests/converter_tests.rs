use ascii_video::converter::{
    adjust, brightness_to_ascii, luma, render_to_string, AsciiChar, AsciiConverter, AsciiFrame,
    CharacterSet, TerminalColor,
};
use ascii_video::frame::Frame;

fn solid_frame(width: u32, height: u32, value: u8) -> Frame {
    let data = vec![value; (width * height * 3) as usize];
    Frame::new(width, height, data, 0, 0)
}

#[test]
fn ramp_lengths_and_endpoints() {
    assert_eq!(CharacterSet::Simple.get_chars().chars().count(), 10);
    assert_eq!(CharacterSet::Standard.get_chars().chars().count(), 68);
    assert_eq!(CharacterSet::Extended.get_chars().chars().count(), 78);
    assert!(CharacterSet::Simple.get_chars().starts_with(' '));
    assert!(CharacterSet::Simple.get_chars().ends_with('@'));
}

#[test]
fn luma_uses_standard_weights() {
    assert_eq!(luma(0, 0, 0), 0);
    assert_eq!(luma(255, 255, 255), 255);
    assert_eq!(luma(255, 0, 0), 54); // 2126 * 255 / 10000
    assert_eq!(luma(0, 255, 0), 182); // 7152 * 255 / 10000
    assert_eq!(luma(0, 0, 255), 18); // 722 * 255 / 10000
}

#[test]
fn adjust_neutral_settings_track_luminance() {
    assert_eq!(adjust(0, 1000, 0), 0);
    assert_eq!(adjust(255, 1000, 0), 1000);
    // 128 * 1000 / 255 = 501
    assert_eq!(adjust(128, 1000, 0), 501);
}

#[test]
fn adjust_clamps_at_both_ends() {
    // full positive brightness saturates
    assert_eq!(adjust(128, 1000, 1000), 1000);
    // full negative brightness silences
    assert_eq!(adjust(128, 1000, -1000), 0);
    // zero contrast collapses to the midpoint plus brightness
    assert_eq!(adjust(0, 0, 0), 500);
}

#[test]
fn brightness_mapping_is_monotone_at_neutral_settings() {
    let mut last: u16 = 0;
    let mut l: u16 = 0;
    while l <= 255 {
        let a = adjust(l as u8, 1000, 0);
        assert!(a >= last);
        last = a;
        l += 1;
    }
}

#[test]
fn brightness_to_ascii_picks_ramp_ends() {
    assert_eq!(brightness_to_ascii(0, &CharacterSet::Simple), ' ');
    assert_eq!(brightness_to_ascii(255, &CharacterSet::Simple), '@');
    // 128 * 9 / 255 = 4
    assert_eq!(brightness_to_ascii(128, &CharacterSet::Simple), '=');
    assert_eq!(brightness_to_ascii(255, &CharacterSet::Extended), '▌');
}

#[test]
fn convert_cell_count_matches_grid() {
    let conv = AsciiConverter::new(5, 4, CharacterSet::Simple, false);
    // same dimensions: no resampling
    let out = conv.convert(&solid_frame(5, 4, 0));
    assert_eq!(out.width, 5);
    assert_eq!(out.height, 4);
    assert_eq!(out.data.len(), 20);
    // different dimensions: resampled through the image crate
    let out2 = conv.convert(&solid_frame(16, 16, 0));
    assert_eq!(out2.data.len(), 20);
}

#[test]
fn convert_black_frame_is_darkest_glyph() {
    let conv = AsciiConverter::new(4, 4, CharacterSet::Simple, false);
    let out = conv.convert(&solid_frame(4, 4, 0));
    for cell in &out.data {
        assert_eq!(cell.character, ' ');
        assert_eq!(cell.color, None);
    }
    // resampling a constant image keeps it constant
    let out2 = conv.convert(&solid_frame(32, 32, 0));
    for cell in &out2.data {
        assert_eq!(cell.character, ' ');
    }
}

#[test]
fn convert_white_frame_is_brightest_glyph() {
    let conv = AsciiConverter::new(4, 4, CharacterSet::Simple, false);
    let out = conv.convert(&solid_frame(4, 4, 255));
    for cell in &out.data {
        assert_eq!(cell.character, '@');
    }
}

#[test]
fn convert_is_deterministic() {
    let conv = AsciiConverter::new(6, 3, CharacterSet::Standard, true);
    let mut data = Vec::new();
    for i in 0..(12 * 8 * 3) {
        data.push((i * 7 % 256) as u8);
    }
    let frame = Frame::new(12, 8, data, 42, 3);
    let a = conv.convert(&frame);
    let b = conv.convert(&frame);
    assert_eq!(a, b);
    assert_eq!(a.timestamp, 42);
}

#[test]
fn convert_color_sampling_follows_flag() {
    let conv = AsciiConverter::new(2, 2, CharacterSet::Simple, true);
    let out = conv.convert(&solid_frame(2, 2, 200));
    for cell in &out.data {
        assert_eq!(cell.color, Some((200, 200, 200)));
    }
    let conv_plain = AsciiConverter::new(2, 2, CharacterSet::Simple, false);
    let out_plain = conv_plain.convert(&solid_frame(2, 2, 200));
    for cell in &out_plain.data {
        assert_eq!(cell.color, None);
    }
}

#[test]
fn convert_degenerate_grid_is_empty() {
    let conv = AsciiConverter::new(0, 4, CharacterSet::Simple, false);
    let out = conv.convert(&solid_frame(4, 4, 0));
    assert_eq!(out.data.len(), 0);
    let conv2 = AsciiConverter::new(4, 4, CharacterSet::Simple, false);
    let out2 = conv2.convert(&Frame::new(0, 4, Vec::new(), 0, 0));
    assert_eq!(out2.data.len(), 0);
}

#[test]
fn brightness_and_contrast_setters_clamp() {
    let mut conv = AsciiConverter::new(2, 2, CharacterSet::Simple, false);
    conv.set_brightness(5000);
    // saturated brightness pushes an all-black frame to the brightest glyph
    let out = conv.convert(&solid_frame(2, 2, 0));
    assert_eq!(out.data[0].character, '@');
    conv.set_brightness(0);
    conv.set_contrast(9999);
    // doubled-at-most contrast keeps mid gray at mid ramp
    let mid = conv.convert(&solid_frame(2, 2, 128));
    assert_eq!(mid.data[0].character, '=');
}

#[test]
fn terminal_color_thresholds() {
    assert_eq!(AsciiConverter::rgb_to_terminal_color(0, 0, 0), TerminalColor::Black);
    assert_eq!(AsciiConverter::rgb_to_terminal_color(255, 255, 255), TerminalColor::White);
    assert_eq!(AsciiConverter::rgb_to_terminal_color(250, 10, 10), TerminalColor::Red);
    assert_eq!(AsciiConverter::rgb_to_terminal_color(10, 250, 10), TerminalColor::Green);
    assert_eq!(AsciiConverter::rgb_to_terminal_color(10, 10, 250), TerminalColor::Blue);
    assert_eq!(AsciiConverter::rgb_to_terminal_color(250, 250, 10), TerminalColor::Yellow);
    assert_eq!(AsciiConverter::rgb_to_terminal_color(250, 10, 250), TerminalColor::Magenta);
    assert_eq!(AsciiConverter::rgb_to_terminal_color(10, 250, 250), TerminalColor::Cyan);
    assert_eq!(
        AsciiConverter::rgb_to_terminal_color(120, 130, 140),
        TerminalColor::Rgb(120, 130, 140)
    );
}

#[test]
fn render_to_string_lays_out_rows() {
    let frame = AsciiFrame {
        width: 2,
        height: 2,
        data: vec![
            AsciiChar { character: 'a', color: None },
            AsciiChar { character: 'b', color: None },
            AsciiChar { character: 'c', color: None },
            AsciiChar { character: 'd', color: None },
        ],
        timestamp: 0,
    };
    assert_eq!(render_to_string(&frame), "ab\ncd\n");
}

#[test]
fn render_to_string_pads_short_grids() {
    let frame = AsciiFrame {
        width: 2,
        height: 2,
        data: vec![AsciiChar { character: 'a', color: None }],
        timestamp: 0,
    };
    assert_eq!(render_to_string(&frame), "a \n  \n");
}
