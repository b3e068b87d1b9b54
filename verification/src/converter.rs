//! Luminance-to-glyph mapping: character ramps and the grayscale weighting
//! that turns a pixel into a glyph choice.

use vstd::prelude::*;
use crate::frame::{Frame, lanczos_rgb, lanczos_resize};

verus! {

/// A glyph ramp preset, ordered from least to most visually dense.
#[derive(Clone, Copy, Debug, PartialEq, Eq, Structural)]
pub enum CharacterSet {
    Simple,
    Standard,
    Extended,
}

/// The glyphs of a ramp, darkest first.
pub open spec fn ramp_spec(cs: CharacterSet) -> Seq<char> {
    match cs {
        CharacterSet::Simple => " .:-=+*#%@"@,
        CharacterSet::Standard => " .`^\",:;Il!i><~+_-?][}{1)(|/tfjrxnuvczXYUJCLQ0OZmwqpdbkhao*#MW&8%B@$"@,
        CharacterSet::Extended => " .'`^\",:;Il!i><~+_-?][}{1)(|\\/tfjrxnuvczXYUJCLQ0OZmwqpdbkhao*#MW&8%B@$█▓▒░▄▀▐▌"@,
    }
}

/// Every ramp has at least two glyphs, so index arithmetic over
/// `ramp len - 1` is always meaningful.
pub proof fn lemma_ramp_len(cs: CharacterSet)
    ensures
        ramp_spec(CharacterSet::Simple).len() == 10,
        ramp_spec(CharacterSet::Standard).len() == 68,
        ramp_spec(CharacterSet::Extended).len() == 78,
        2 <= ramp_spec(cs).len() <= 78,
{
    reveal_strlit(" .:-=+*#%@");
    reveal_strlit(" .`^\",:;Il!i><~+_-?][}{1)(|/tfjrxnuvczXYUJCLQ0OZmwqpdbkhao*#MW&8%B@$");
    reveal_strlit(" .'`^\",:;Il!i><~+_-?][}{1)(|\\/tfjrxnuvczXYUJCLQ0OZmwqpdbkhao*#MW&8%B@$█▓▒░▄▀▐▌");
}

impl CharacterSet {
    /// The ramp as a string, darkest glyph first.
    pub fn get_chars(&self) -> (r: &'static str)
        ensures
            r@ == ramp_spec(*self),
    {
        match self {
            CharacterSet::Simple => " .:-=+*#%@",
            CharacterSet::Standard => " .`^\",:;Il!i><~+_-?][}{1)(|/tfjrxnuvczXYUJCLQ0OZmwqpdbkhao*#MW&8%B@$",
            CharacterSet::Extended => " .'`^\",:;Il!i><~+_-?][}{1)(|\\/tfjrxnuvczXYUJCLQ0OZmwqpdbkhao*#MW&8%B@$█▓▒░▄▀▐▌",
        }
    }
}

/// Perceptual luminance of an RGB pixel, on the 0..=255 scale:
/// the standard grayscale weighting 0.2126 R + 0.7152 G + 0.0722 B,
/// carried out in fixed point over ten-thousandths.
pub open spec fn luma_spec(r: u8, g: u8, b: u8) -> int {
    (2126 * r + 7152 * g + 722 * b) / 10000
}

/// Luminance is itself a channel value.
pub proof fn lemma_luma_range(r: u8, g: u8, b: u8)
    ensures
        0 <= luma_spec(r, g, b) <= 255,
        luma_spec(0, 0, 0) == 0,
        luma_spec(255, 255, 255) == 255,
{
}

/// Perceptual luminance of an RGB pixel.
pub fn luma(r: u8, g: u8, b: u8) -> (l: u8)
    ensures
        l == luma_spec(r, g, b),
{
    let weighted: u32 = 2126 * (r as u32) + 7152 * (g as u32) + 722 * (b as u32);
    (weighted / 10000) as u8
}

/// The brightness/contrast response on the per-mille scale: luminance is
/// normalized to 0..=1000, centered, scaled by the contrast multiplier
/// (per-mille of 1.0, at most 2000), shifted by the brightness offset
/// (per-mille, between -1000 and 1000), and clamped back to 0..=1000.
pub open spec fn adjust_spec(l: int, contrast: u32, brightness: i32) -> int {
    let n = (l * 1000 / 255 - 500) * contrast + 500_000 + brightness * 1000;
    if n <= 0 {
        0
    } else if n >= 1_000_000 {
        1000
    } else {
        n / 1000
    }
}

/// The adjusted value stays on the per-mille scale.
pub proof fn lemma_adjust_range(l: int, contrast: u32, brightness: i32)
    ensures
        0 <= adjust_spec(l, contrast, brightness) <= 1000,
{
    let n = (l * 1000 / 255 - 500) * contrast + 500_000 + brightness * 1000;
    if 0 < n < 1_000_000 {
        vstd::arithmetic::div_mod::lemma_div_pos_is_pos(n, 1000);
        vstd::arithmetic::div_mod::lemma_div_is_ordered(n, 1_000_000, 1000);
    }
}

/// Applies the brightness/contrast response to one luminance value.
pub fn adjust(l: u8, contrast: u32, brightness: i32) -> (a: u16)
    requires
        contrast <= 2000,
        -1000 <= brightness <= 1000,
    ensures
        a == adjust_spec(l as int, contrast, brightness),
        a <= 1000,
{
    let cpm: u64 = (l as u64) * 1000 / 255;
    proof {
        vstd::arithmetic::div_mod::lemma_div_pos_is_pos(l * 1000, 255);
        vstd::arithmetic::div_mod::lemma_div_is_ordered(l * 1000, 255000, 255);
        assert(cpm * contrast <= 1000 * 2000 && (cpm - 500) * contrast == cpm * contrast - 500
            * contrast) by (nonlinear_arith)
            requires
                cpm <= 1000,
                contrast <= 2000,
        ;
        lemma_adjust_range(l as int, contrast, brightness);
    }
    let shifted: u64 = cpm * (contrast as u64) + 500_000 + ((brightness + 1000) as u64) * 1000;
    let base: u64 = 500 * (contrast as u64) + 1_000_000;
    if shifted <= base {
        0
    } else if shifted - base >= 1_000_000 {
        1000
    } else {
        ((shifted - base) / 1000) as u16
    }
}

/// Which glyph of a ramp of `len` glyphs stands for brightness `b`
/// (0 darkest, 255 brightest).
pub open spec fn ramp_index_spec(b: u8, len: int) -> int {
    b * (len - 1) / 255
}

/// A value scaled from `0..=scale` onto `0..=len - 1` stays on that range.
pub proof fn lemma_scaled_index_in_range(v: int, scale: int, len: int)
    requires
        0 <= v <= scale,
        1 <= scale,
        1 <= len,
    ensures
        0 <= v * (len - 1) / scale <= len - 1,
{
    vstd::arithmetic::mul::lemma_mul_nonnegative(v, len - 1);
    vstd::arithmetic::div_mod::lemma_div_pos_is_pos(v * (len - 1), scale);
    vstd::arithmetic::mul::lemma_mul_inequality(v, scale, len - 1);
    vstd::arithmetic::div_mod::lemma_div_is_ordered(v * (len - 1), scale * (len - 1), scale);
    vstd::arithmetic::div_mod::lemma_div_multiples_vanish(len - 1, scale);
}

/// The glyph index stays inside the ramp.
pub proof fn lemma_ramp_index_in_range(b: u8, len: int)
    requires
        1 <= len,
    ensures
        0 <= ramp_index_spec(b, len) < len,
{
    lemma_scaled_index_in_range(b as int, 255, len);
}

/// The glyph of `char_set` that stands for brightness `brightness`.
pub fn brightness_to_ascii(brightness: u8, char_set: &CharacterSet) -> (c: char)
    ensures
        c == ramp_spec(*char_set)[ramp_index_spec(brightness, ramp_spec(*char_set).len() as int)],
{
    let chars = char_set.get_chars();
    proof {
        lemma_ramp_len(*char_set);
    }
    let count = chars.unicode_len();
    assert((brightness as int) * ((count - 1) as int) <= 255 * 77) by (nonlinear_arith)
        requires
            brightness <= 255,
            2 <= count <= 78,
    ;
    let idx = (brightness as usize) * (count - 1) / 255;
    proof {
        lemma_ramp_index_in_range(brightness, count as int);
    }
    chars.get_char(idx)
}

/// One cell of a character grid: a glyph, and its sampled foreground color
/// when color output is enabled.
#[derive(Clone, Debug, PartialEq)]
pub struct AsciiChar {
    pub character: char,
    pub color: Option<(u8, u8, u8)>,
}

/// A converted frame: a row-major grid of cells, with the source frame's
/// timestamp in milliseconds.
#[derive(Clone, Debug, PartialEq)]
pub struct AsciiFrame {
    pub width: u32,
    pub height: u32,
    pub data: Vec<AsciiChar>,
    pub timestamp: u64,
}

/// Turns raw frames into character grids: resamples to the grid dimensions,
/// maps each cell's luminance through the brightness/contrast response onto
/// a glyph of the configured ramp, and optionally carries the sampled color.
pub struct AsciiConverter {
    width: u32,
    height: u32,
    char_set: CharacterSet,
    use_color: bool,
    brightness: i32,
    contrast: u32,
}

/// Which glyph of a ramp of `len` glyphs stands for an adjusted per-mille
/// value.
pub open spec fn glyph_index_spec(adjusted: int, len: int) -> int {
    adjusted * (len - 1) / 1000
}

/// The pixel plane a conversion samples from: the frame's own pixels when it
/// already has the grid dimensions, else the frame resampled to the grid
/// width and twice the grid height (vertical oversampling that compensates
/// for terminal cells being taller than wide).
pub open spec fn source_plane(conv: AsciiConverter, frame: Frame) -> Seq<u8> {
    if frame.width == conv.grid_width() && frame.height == conv.grid_height() {
        frame.data@
    } else {
        lanczos_rgb(
            frame.data@,
            frame.width,
            frame.height,
            conv.grid_width(),
            (2 * conv.grid_height()) as u32,
        )
    }
}

/// How many plane rows one grid row stands for: 1 without resampling, 2 with
/// the oversampled plane.
pub open spec fn source_step(conv: AsciiConverter, frame: Frame) -> int {
    if frame.width == conv.grid_width() && frame.height == conv.grid_height() {
        1
    } else {
        2
    }
}

/// The cell at column `x` sampled from plane row `sy`: the glyph the pixel's
/// adjusted luminance picks from the ramp, plus the pixel's color when color
/// is enabled.
pub open spec fn cell_spec(
    pix: Seq<u8>,
    gw: int,
    x: int,
    sy: int,
    cs: CharacterSet,
    contrast: u32,
    brightness: i32,
    use_color: bool,
) -> AsciiChar {
    let base = 3 * (sy * gw + x);
    let l = luma_spec(pix[base], pix[base + 1], pix[base + 2]);
    AsciiChar {
        character: ramp_spec(cs)[glyph_index_spec(
            adjust_spec(l, contrast, brightness),
            ramp_spec(cs).len() as int,
        )],
        color: if use_color {
            Some((pix[base], pix[base + 1], pix[base + 2]))
        } else {
            None
        },
    }
}

/// The cell at flat grid index `i`, with the grid row mapped onto its plane
/// row.
pub open spec fn cell_at(
    pix: Seq<u8>,
    gw: int,
    step: int,
    cs: CharacterSet,
    contrast: u32,
    brightness: i32,
    use_color: bool,
    i: int,
) -> AsciiChar {
    cell_spec(pix, gw, i % gw, step * (i / gw), cs, contrast, brightness, use_color)
}

/// Everything a conversion promises of its output: the grid dimensions and
/// timestamp are carried over; a degenerate grid or frame yields an empty
/// grid; otherwise every cell is the glyph-and-color of its sampled pixel.
pub open spec fn convert_post(conv: AsciiConverter, frame: Frame, out: AsciiFrame) -> bool {
    &&& out.width == conv.grid_width()
    &&& out.height == conv.grid_height()
    &&& out.timestamp == frame.timestamp
    &&& if conv.grid_width() == 0 || conv.grid_height() == 0 || frame.width == 0 || frame.height
        == 0 {
        out.data@ == Seq::<AsciiChar>::empty()
    } else {
        &&& out.data@.len() == conv.grid_width() * conv.grid_height()
        &&& forall|i: int|
            0 <= i < out.data@.len() ==> out.data@[i] == cell_at(
                source_plane(conv, frame),
                conv.grid_width() as int,
                source_step(conv, frame),
                conv.charset(),
                conv.contrast_pm(),
                conv.brightness_pm(),
                conv.color_enabled(),
                i,
            )
    }
}

impl AsciiConverter {
    /// The grid width, in cells.
    pub closed spec fn grid_width(self) -> u32 {
        self.width
    }

    /// The grid height, in cells.
    pub closed spec fn grid_height(self) -> u32 {
        self.height
    }

    /// The configured glyph ramp.
    pub closed spec fn charset(self) -> CharacterSet {
        self.char_set
    }

    /// Whether cells carry their sampled color.
    pub closed spec fn color_enabled(self) -> bool {
        self.use_color
    }

    /// The brightness offset, per-mille of the full range.
    pub closed spec fn brightness_pm(self) -> i32 {
        self.brightness
    }

    /// The contrast multiplier, per-mille of 1.0.
    pub closed spec fn contrast_pm(self) -> u32 {
        self.contrast
    }

    /// The settings stay on their scales, and the oversampled plane the
    /// converter allocates fits the machine's limits.
    pub closed spec fn wf(self) -> bool {
        &&& self.contrast <= 2000
        &&& -1000 <= self.brightness <= 1000
        &&& self.height * 2 <= u32::MAX
        &&& self.width * (self.height * 2) * 3 <= usize::MAX
    }

    /// A converter for the given grid, at neutral brightness and contrast.
    pub fn new(width: u32, height: u32, char_set: CharacterSet, use_color: bool) -> (c:
        AsciiConverter)
        requires
            height * 2 <= u32::MAX,
            width * (height * 2) * 3 <= usize::MAX,
        ensures
            c.wf(),
            c.grid_width() == width,
            c.grid_height() == height,
            c.charset() == char_set,
            c.color_enabled() == use_color,
            c.brightness_pm() == 0,
            c.contrast_pm() == 1000,
    {
        AsciiConverter { width, height, char_set, use_color, brightness: 0, contrast: 1000 }
    }

    /// Sets the brightness offset, clamped to the per-mille range.
    pub fn set_brightness(&mut self, brightness: i32)
        ensures
            final(self).brightness_pm() == (if brightness < -1000 {
                -1000int
            } else if brightness > 1000 {
                1000int
            } else {
                brightness as int
            }),
            final(self).grid_width() == old(self).grid_width(),
            final(self).grid_height() == old(self).grid_height(),
            final(self).charset() == old(self).charset(),
            final(self).color_enabled() == old(self).color_enabled(),
            final(self).contrast_pm() == old(self).contrast_pm(),
            old(self).wf() ==> final(self).wf(),
    {
        self.brightness = if brightness < -1000 {
            -1000
        } else if brightness > 1000 {
            1000
        } else {
            brightness
        };
    }

    /// Sets the contrast multiplier, clamped to at most twice neutral.
    pub fn set_contrast(&mut self, contrast: u32)
        ensures
            final(self).contrast_pm() == (if contrast > 2000 {
                2000int
            } else {
                contrast as int
            }),
            final(self).grid_width() == old(self).grid_width(),
            final(self).grid_height() == old(self).grid_height(),
            final(self).charset() == old(self).charset(),
            final(self).color_enabled() == old(self).color_enabled(),
            final(self).brightness_pm() == old(self).brightness_pm(),
            old(self).wf() ==> final(self).wf(),
    {
        self.contrast = if contrast > 2000 {
            2000
        } else {
            contrast
        };
    }

    /// Converts one frame to a character grid.
    #[verifier::loop_isolation(false)]
    pub fn convert(&self, frame: &Frame) -> (out: AsciiFrame)
        requires
            self.wf(),
            frame.wf(),
        ensures
            convert_post(*self, *frame, out),
    {
        let gw = self.width;
        let gh = self.height;
        if gw == 0 || gh == 0 || frame.width == 0 || frame.height == 0 {
            return AsciiFrame { width: gw, height: gh, data: Vec::new(), timestamp: frame.timestamp };
        }
        let direct = frame.width == gw && frame.height == gh;
        let step: usize = if direct {
            1
        } else {
            2
        };
        let plane_h: u32 = if direct {
            gh
        } else {
            2 * gh
        };
        proof {
            assert(0 <= gw * plane_h && gw * plane_h <= gw * plane_h * 3) by (nonlinear_arith);
            assert(gw * (2 * gh) * 3 == gw * (gh * 2) * 3) by (nonlinear_arith);
        }
        let pixels: Vec<u8> = if direct {
            vstd::slice::slice_to_vec(frame.data.as_slice())
        } else {
            lanczos_resize(&frame.data, frame.width, frame.height, gw, 2 * gh)
        };
        assert(pixels@ == source_plane(*self, *frame));
        let plen = pixels.len();
        assert(plen == gw * plane_h * 3);
        let chars = self.char_set.get_chars();
        proof {
            lemma_ramp_len(self.char_set);
        }
        let count = chars.unicode_len();
        let mut data: Vec<AsciiChar> = Vec::new();
        let mut y: usize = 0;
        while y < gh as usize
            invariant
                y <= gh,
                data@.len() == y * gw,
                forall|i: int|
                    0 <= i < data@.len() ==> data@[i] == cell_at(
                        pixels@,
                        gw as int,
                        step as int,
                        self.char_set,
                        self.contrast,
                        self.brightness,
                        self.use_color,
                        i,
                    ),
            decreases gh - y,
        {
            proof {
                assert(0 <= step * y && step * y < plane_h) by (nonlinear_arith)
                    requires
                        (step == 1 && plane_h == gh) || (step == 2 && plane_h == 2 * gh),
                        0 <= y < gh,
                ;
            }
            let sy: usize = step * y;
            let mut x: usize = 0;
            while x < gw as usize
                invariant
                    x <= gw,
                    y < gh,
                    sy == step * y,
                    sy < plane_h,
                    data@.len() == y * gw + x,
                    forall|i: int|
                        0 <= i < data@.len() ==> data@[i] == cell_at(
                            pixels@,
                            gw as int,
                            step as int,
                            self.char_set,
                            self.contrast,
                            self.brightness,
                            self.use_color,
                            i,
                        ),
                decreases gw - x,
            {
                proof {
                    crate::frame::lemma_pixel_index_bound(
                        gw as int,
                        plane_h as int,
                        x as int,
                        sy as int,
                    );
                }
                let base: usize = 3 * (sy * (gw as usize) + x);
                let l = luma(pixels[base], pixels[base + 1], pixels[base + 2]);
                let a = adjust(l, self.contrast, self.brightness);
                assert((a as int) * ((count - 1) as int) <= 1000 * 77) by (nonlinear_arith)
                    requires
                        a <= 1000,
                        2 <= count <= 78,
                ;
                let idx = (a as usize) * (count - 1) / 1000;
                proof {
                    lemma_scaled_index_in_range(a as int, 1000, count as int);
                }
                let ch = chars.get_char(idx);
                let color = if self.use_color {
                    Some((pixels[base], pixels[base + 1], pixels[base + 2]))
                } else {
                    None
                };
                let ghost i: int = data@.len() as int;
                data.push(AsciiChar { character: ch, color });
                proof {
                    vstd::arithmetic::div_mod::lemma_fundamental_div_mod_converse(
                        i,
                        gw as int,
                        y as int,
                        x as int,
                    );
                    assert(i / (gw as int) == y && i % (gw as int) == x);
                    assert(data@[i] == cell_at(
                        pixels@,
                        gw as int,
                        step as int,
                        self.char_set,
                        self.contrast,
                        self.brightness,
                        self.use_color,
                        i,
                    ));
                }
                x = x + 1;
            }
            proof {
                assert(y * gw + gw == (y + 1) * gw) by (nonlinear_arith);
            }
            y = y + 1;
        }
        proof {
            assert(gh * gw == gw * gh) by (nonlinear_arith);
        }
        AsciiFrame { width: gw, height: gh, data, timestamp: frame.timestamp }
    }
}

/// The glyph printed for cell (x, y): the cell's own glyph, or a space where
/// the grid's data runs short.
pub open spec fn rendered_cell(f: AsciiFrame, y: int, x: int) -> char {
    if y * f.width + x < f.data@.len() {
        f.data@[y * f.width + x].character
    } else {
        ' '
    }
}

/// One printed grid row: the row's glyphs followed by a newline.
pub open spec fn rendered_row(f: AsciiFrame, y: int) -> Seq<char> {
    Seq::new(f.width as nat, |x: int| rendered_cell(f, y, x)).push('\n')
}

/// The first `y` printed rows, top first.
pub open spec fn rendered_rows(f: AsciiFrame, y: int) -> Seq<char>
    decreases y,
{
    if y <= 0 {
        Seq::empty()
    } else {
        rendered_rows(f, y - 1) + rendered_row(f, y - 1)
    }
}

/// Relies on `String::push`: it appends exactly the given character.
#[verifier::external_body]
pub(crate) fn push_char(s: &mut String, c: char)
    ensures
        final(s)@ == old(s)@.push(c),
{
    s.push(c);
}

/// The plain-text form of a grid: its glyphs row by row, each row ended by a
/// newline, with spaces where the grid's data runs short.
#[verifier::loop_isolation(false)]
pub fn render_to_string(frame: &AsciiFrame) -> (r: String)
    ensures
        r@ == rendered_rows(*frame, frame.height as int),
{
    let mut result = String::new();
    let mut y: u32 = 0;
    assert(result@ =~= rendered_rows(*frame, 0));
    while y < frame.height
        invariant
            y <= frame.height,
            result@ == rendered_rows(*frame, y as int),
        decreases frame.height - y,
    {
        let mut x: u32 = 0;
        assert(result@ =~= rendered_rows(*frame, y as int) + Seq::new(
            0,
            |i: int| rendered_cell(*frame, y as int, i),
        ));
        while x < frame.width
            invariant
                x <= frame.width,
                y < frame.height,
                result@ == rendered_rows(*frame, y as int) + Seq::new(
                    x as nat,
                    |i: int| rendered_cell(*frame, y as int, i),
                ),
            decreases frame.width - x,
        {
            proof {
                assert((y as int) * (frame.width as int) + (x as int) < 0x10000000000000000)
                    by (nonlinear_arith)
                    requires
                        y < 0x100000000,
                        x < 0x100000000,
                        frame.width < 0x100000000,
                ;
            }
            let idx64: u64 = (y as u64) * (frame.width as u64) + (x as u64);
            let c: char = if idx64 < frame.data.len() as u64 {
                frame.data[idx64 as usize].character
            } else {
                ' '
            };
            assert(c == rendered_cell(*frame, y as int, x as int));
            push_char(&mut result, c);
            proof {
                assert(result@ =~= rendered_rows(*frame, y as int) + Seq::new(
                    (x + 1) as nat,
                    |i: int| rendered_cell(*frame, y as int, i),
                ));
            }
            x = x + 1;
        }
        push_char(&mut result, '\n');
        proof {
            assert(result@ =~= rendered_rows(*frame, y as int) + rendered_row(*frame, y as int));
            assert(result@ =~= rendered_rows(*frame, y as int + 1));
        }
        y = y + 1;
    }
    result
}

/// A terminal foreground color: one of the eight named colors where the pixel
/// is saturated enough, else the exact RGB value.
#[derive(Clone, Copy, Debug, PartialEq, Eq, Structural)]
pub enum TerminalColor {
    Black,
    White,
    Red,
    Green,
    Blue,
    Yellow,
    Magenta,
    Cyan,
    Rgb(u8, u8, u8),
}

/// Which terminal color stands for an RGB pixel: near-black and near-white
/// pixels and strongly saturated primaries and secondaries take a named
/// color, everything else keeps its exact value.
pub open spec fn terminal_color_spec(r: u8, g: u8, b: u8) -> TerminalColor {
    if r < 30 && g < 30 && b < 30 {
        TerminalColor::Black
    } else if r > 200 && g > 200 && b > 200 {
        TerminalColor::White
    } else if r > 200 && g < 100 && b < 100 {
        TerminalColor::Red
    } else if r < 100 && g > 200 && b < 100 {
        TerminalColor::Green
    } else if r < 100 && g < 100 && b > 200 {
        TerminalColor::Blue
    } else if r > 200 && g > 200 && b < 100 {
        TerminalColor::Yellow
    } else if r > 200 && g < 100 && b > 200 {
        TerminalColor::Magenta
    } else if r < 100 && g > 200 && b > 200 {
        TerminalColor::Cyan
    } else {
        TerminalColor::Rgb(r, g, b)
    }
}

impl AsciiConverter {
    /// The terminal color that stands for an RGB pixel.
    pub fn rgb_to_terminal_color(r: u8, g: u8, b: u8) -> (c: TerminalColor)
        ensures
            c == terminal_color_spec(r, g, b),
    {
        if r < 30 && g < 30 && b < 30 {
            TerminalColor::Black
        } else if r > 200 && g > 200 && b > 200 {
            TerminalColor::White
        } else if r > 200 && g < 100 && b < 100 {
            TerminalColor::Red
        } else if r < 100 && g > 200 && b < 100 {
            TerminalColor::Green
        } else if r < 100 && g < 100 && b > 200 {
            TerminalColor::Blue
        } else if r > 200 && g > 200 && b < 100 {
            TerminalColor::Yellow
        } else if r > 200 && g < 100 && b > 200 {
            TerminalColor::Magenta
        } else if r < 100 && g > 200 && b > 200 {
            TerminalColor::Cyan
        } else {
            TerminalColor::Rgb(r, g, b)
        }
    }
}

/// With any fixed contrast and brightness, a brighter pixel never maps to a
/// darker glyph: the glyph index is monotone in luminance.
pub proof fn lemma_glyph_monotone(l1: int, l2: int, contrast: u32, brightness: i32, len: int)
    requires
        0 <= l1 <= l2,
        1 <= len,
    ensures
        glyph_index_spec(adjust_spec(l1, contrast, brightness), len) <= glyph_index_spec(
            adjust_spec(l2, contrast, brightness),
            len,
        ),
{
    let c1 = l1 * 1000 / 255;
    let c2 = l2 * 1000 / 255;
    vstd::arithmetic::div_mod::lemma_div_is_ordered(l1 * 1000, l2 * 1000, 255);
    vstd::arithmetic::mul::lemma_mul_inequality(c1 - 500, c2 - 500, contrast as int);
    let n1 = (c1 - 500) * contrast + 500_000 + brightness * 1000;
    let n2 = (c2 - 500) * contrast + 500_000 + brightness * 1000;
    let a1 = adjust_spec(l1, contrast, brightness);
    let a2 = adjust_spec(l2, contrast, brightness);
    lemma_adjust_range(l1, contrast, brightness);
    lemma_adjust_range(l2, contrast, brightness);
    if 0 < n1 && n1 < 1_000_000 && 0 < n2 && n2 < 1_000_000 {
        vstd::arithmetic::div_mod::lemma_div_is_ordered(n1, n2, 1000);
    }
    vstd::arithmetic::mul::lemma_mul_inequality(a1, a2, len - 1);
    vstd::arithmetic::mul::lemma_mul_nonnegative(a1, len - 1);
    vstd::arithmetic::div_mod::lemma_div_is_ordered(a1 * (len - 1), a2 * (len - 1), 1000);
}

/// Conversion is a function of the frame and the configuration alone: two
/// outputs that both satisfy the conversion contract agree entirely.
pub proof fn lemma_convert_deterministic(
    conv: AsciiConverter,
    frame: Frame,
    a: AsciiFrame,
    b: AsciiFrame,
)
    requires
        convert_post(conv, frame, a),
        convert_post(conv, frame, b),
    ensures
        a.width == b.width,
        a.height == b.height,
        a.timestamp == b.timestamp,
        a.data@ == b.data@,
{
    assert(a.data@ =~= b.data@);
}

/// In a frame that already has the grid dimensions, the cell at flat index
/// `i` samples the pixel at flat index `i`: its own pixel.
proof fn lemma_direct_cell(conv: AsciiConverter, frame: Frame, i: int)
    requires
        frame.width == conv.grid_width(),
        frame.height == conv.grid_height(),
        0 <= i,
        1 <= conv.grid_width(),
    ensures
        cell_at(
            source_plane(conv, frame),
            conv.grid_width() as int,
            source_step(conv, frame),
            conv.charset(),
            conv.contrast_pm(),
            conv.brightness_pm(),
            conv.color_enabled(),
            i,
        ) == cell_spec(
            frame.data@,
            conv.grid_width() as int,
            i % (conv.grid_width() as int),
            i / (conv.grid_width() as int),
            conv.charset(),
            conv.contrast_pm(),
            conv.brightness_pm(),
            conv.color_enabled(),
        ),
        (i / (conv.grid_width() as int)) * (conv.grid_width() as int) + i % (
        conv.grid_width() as int) == i,
{
    let gw = conv.grid_width() as int;
    vstd::arithmetic::div_mod::lemma_fundamental_div_mod(i, gw);
    vstd::arithmetic::mul::lemma_mul_is_commutative(gw, i / gw);
}

/// At neutral contrast and brightness, an all-black frame at grid dimensions
/// maps every cell to the ramp's darkest glyph.
pub proof fn lemma_black_frame_darkest(conv: AsciiConverter, frame: Frame, out: AsciiFrame)
    requires
        conv.contrast_pm() == 1000,
        conv.brightness_pm() == 0,
        1 <= conv.grid_width(),
        1 <= conv.grid_height(),
        frame.width == conv.grid_width(),
        frame.height == conv.grid_height(),
        frame.wf(),
        forall|i: int| 0 <= i < frame.data@.len() ==> frame.data@[i] == 0u8,
        convert_post(conv, frame, out),
    ensures
        out.data@.len() > 0,
        forall|i: int|
            0 <= i < out.data@.len() ==> out.data@[i].character == ramp_spec(conv.charset())[0],
{
    let gw = conv.grid_width() as int;
    let gh = conv.grid_height() as int;
    assert(0 < gw * gh && gw * gh * 3 == frame.data@.len()) by (nonlinear_arith)
        requires
            1 <= gw,
            1 <= gh,
            frame.data@.len() == gw * gh * 3,
    ;
    assert forall|i: int| 0 <= i < out.data@.len() implies out.data@[i].character == ramp_spec(
        conv.charset(),
    )[0] by {
        lemma_direct_cell(conv, frame, i);
        let base = 3 * ((i / gw) * gw + i % gw);
        assert(base == 3 * i);
        assert(0 <= 3 * i && 3 * i + 2 < frame.data@.len());
        lemma_luma_range(0, 0, 0);
        assert(adjust_spec(0, 1000u32, 0i32) == 0);
        assert(glyph_index_spec(0, ramp_spec(conv.charset()).len() as int) == 0);
    }
}

/// At neutral contrast and brightness, an all-white frame at grid dimensions
/// maps every cell to the ramp's brightest glyph.
pub proof fn lemma_white_frame_brightest(conv: AsciiConverter, frame: Frame, out: AsciiFrame)
    requires
        conv.contrast_pm() == 1000,
        conv.brightness_pm() == 0,
        1 <= conv.grid_width(),
        1 <= conv.grid_height(),
        frame.width == conv.grid_width(),
        frame.height == conv.grid_height(),
        frame.wf(),
        forall|i: int| 0 <= i < frame.data@.len() ==> frame.data@[i] == 255u8,
        convert_post(conv, frame, out),
    ensures
        out.data@.len() > 0,
        forall|i: int|
            0 <= i < out.data@.len() ==> out.data@[i].character == ramp_spec(conv.charset())[
                ramp_spec(conv.charset()).len() - 1],
{
    let gw = conv.grid_width() as int;
    let gh = conv.grid_height() as int;
    let len = ramp_spec(conv.charset()).len() as int;
    assert(0 < gw * gh && gw * gh * 3 == frame.data@.len()) by (nonlinear_arith)
        requires
            1 <= gw,
            1 <= gh,
            frame.data@.len() == gw * gh * 3,
    ;
    assert forall|i: int| 0 <= i < out.data@.len() implies out.data@[i].character == ramp_spec(
        conv.charset(),
    )[len - 1] by {
        lemma_direct_cell(conv, frame, i);
        let base = 3 * ((i / gw) * gw + i % gw);
        assert(base == 3 * i);
        assert(0 <= 3 * i && 3 * i + 2 < frame.data@.len());
        lemma_luma_range(255, 255, 255);
        assert(adjust_spec(255, 1000u32, 0i32) == 1000);
        vstd::arithmetic::div_mod::lemma_div_multiples_vanish(len - 1, 1000);
        assert(glyph_index_spec(1000, len) == len - 1);
    }
}

} // verus!
