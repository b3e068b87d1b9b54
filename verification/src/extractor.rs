//! The pre-decode extractor: per-input configuration and metadata, the
//! fixed-ramp pixel-to-glyph mapping used on batch-extracted frames, and the
//! parsing of the metadata probe's report.
//!
//! Running the probe, extracting frames and audio with the external tool, and
//! the playback session itself are collaborators; what they compute with is
//! decided here.

use vstd::prelude::*;
use crate::converter::{luma, luma_spec, lemma_scaled_index_in_range, push_char};
use crate::errors::VideoError;
use crate::frame::{lanczos_rgb, lanczos_resize};
use crate::parse::{
    split_commas, trim_spec, parse_u32_spec, parse_u64_spec, parse_duration_ms_spec, trim_bytes,
    split_commas_bytes, parse_u32_bytes, parse_u64_bytes, parse_duration_ms_bytes,
};

verus! {

/// The fixed glyph ramp the extractor renders with, darkest first.
pub open spec fn extractor_ramp() -> Seq<char> {
    " .,:;i1tfLCG08@"@
}

/// The extractor's ramp has fifteen glyphs.
pub proof fn lemma_extractor_ramp_len()
    ensures
        extractor_ramp().len() == 15,
{
    reveal_strlit(" .,:;i1tfLCG08@");
}

/// The extractor's ramp.
fn extractor_chars() -> (r: &'static str)
    ensures
        r@ == extractor_ramp(),
{
    " .,:;i1tfLCG08@"
}

/// Which ramp glyph stands for a pixel: its per-mille luminance, inverted
/// when configured, scaled onto the ramp.
pub open spec fn pixel_index_spec(r: u8, g: u8, b: u8, invert: bool) -> int {
    let norm = luma_spec(r, g, b) * 1000 / 255;
    let bi = if invert {
        1000 - norm
    } else {
        norm
    };
    bi * (extractor_ramp().len() - 1) / 1000
}

/// The normalized (and possibly inverted) brightness stays per-mille, and the
/// glyph index stays inside the ramp.
pub proof fn lemma_pixel_index_in_range(r: u8, g: u8, b: u8, invert: bool)
    ensures
        0 <= pixel_index_spec(r, g, b, invert) < extractor_ramp().len(),
{
    lemma_extractor_ramp_len();
    vstd::arithmetic::div_mod::lemma_div_pos_is_pos(luma_spec(r, g, b) * 1000, 255);
    vstd::arithmetic::div_mod::lemma_div_is_ordered(luma_spec(r, g, b) * 1000, 255000, 255);
    let norm = luma_spec(r, g, b) * 1000 / 255;
    let bi = if invert {
        1000 - norm
    } else {
        norm
    };
    lemma_scaled_index_in_range(bi, 1000, 15);
}

/// The glyph at column `x` of plane row `y`.
pub open spec fn art_cell(pix: Seq<u8>, w: int, y: int, x: int, invert: bool) -> char {
    let base = 3 * (y * w + x);
    extractor_ramp()[pixel_index_spec(pix[base], pix[base + 1], pix[base + 2], invert)]
}

/// One rendered row: its glyphs followed by a newline.
pub open spec fn art_row(pix: Seq<u8>, w: int, y: int, invert: bool) -> Seq<char> {
    Seq::new(w as nat, |x: int| art_cell(pix, w, y, x, invert)).push('\n')
}

/// The first `h` rendered rows.
pub open spec fn art_rows(pix: Seq<u8>, w: int, h: int, invert: bool) -> Seq<char>
    decreases h,
{
    if h <= 0 {
        Seq::empty()
    } else {
        art_rows(pix, w, h - 1, invert) + art_row(pix, w, h - 1, invert)
    }
}

/// One video input and what has been learned and configured about it. The
/// collaborators fill the metadata in from the probe's report and read the
/// ASCII configuration back out.
pub struct VideoExtractor {
    /// The input path, as handed in.
    pub file_path: String,
    /// The probed video width, when the probe reported one.
    pub width: Option<u32>,
    /// The probed video height, when the probe reported one.
    pub height: Option<u32>,
    /// The probed frame count estimate, when the probe reported one.
    pub frame_count: Option<u64>,
    /// The probed duration in milliseconds, when the probe reported one.
    pub duration_ms: Option<u64>,
    /// The configured ASCII grid width.
    pub ascii_width: Option<u32>,
    /// The configured ASCII grid height.
    pub ascii_height: Option<u32>,
    /// Whether the brightness mapping is inverted.
    pub ascii_invert: bool,
    /// Whether audio playback was requested.
    pub audio_enabled: bool,
    /// The starting audio volume, per-mille.
    pub audio_volume: u16,
}

impl VideoExtractor {
    /// An extractor for one input, with nothing probed or configured yet and
    /// the volume at half.
    pub fn new(file_path: String, audio: bool) -> (e: VideoExtractor)
        ensures
            e.file_path@ == file_path@,
            e.width is None,
            e.height is None,
            e.frame_count is None,
            e.duration_ms is None,
            e.ascii_width is None,
            e.ascii_height is None,
            !e.ascii_invert,
            e.audio_enabled == audio,
            e.audio_volume == 500,
    {
        VideoExtractor {
            file_path,
            width: None,
            height: None,
            frame_count: None,
            duration_ms: None,
            ascii_width: None,
            ascii_height: None,
            ascii_invert: false,
            audio_enabled: audio,
            audio_volume: 500,
        }
    }

    /// Chooses the ASCII grid and whether to invert the brightness mapping.
    pub fn configure_ascii(&mut self, width: u32, height: u32, invert: bool)
        ensures
            final(self).ascii_width == Some(width),
            final(self).ascii_height == Some(height),
            final(self).ascii_invert == invert,
            final(self).file_path@ == old(self).file_path@,
            final(self).width == old(self).width,
            final(self).height == old(self).height,
            final(self).frame_count == old(self).frame_count,
            final(self).duration_ms == old(self).duration_ms,
            final(self).audio_enabled == old(self).audio_enabled,
            final(self).audio_volume == old(self).audio_volume,
    {
        self.ascii_width = Some(width);
        self.ascii_height = Some(height);
        self.ascii_invert = invert;
    }

    /// Takes the metadata probe's report (its standard output, a line of
    /// comma-separated values: width, height, frame count, duration in
    /// seconds) and fills in whichever fields it carries; an unreadable
    /// field stays unknown, never a fault.
    pub fn load_metadata(&mut self, probe_output: &Vec<u8>)
        ensures
            ({
                let parts = split_commas(trim_spec(probe_output@));
                &&& final(self).width == (if parts.len() >= 2 {
                    parse_u32_spec(parts[0])
                } else {
                    old(self).width
                })
                &&& final(self).height == (if parts.len() >= 2 {
                    parse_u32_spec(parts[1])
                } else {
                    old(self).height
                })
                &&& final(self).frame_count == (if parts.len() >= 3 {
                    parse_u64_spec(parts[2])
                } else {
                    old(self).frame_count
                })
                &&& final(self).duration_ms == (if parts.len() >= 4 {
                    parse_duration_ms_spec(parts[3])
                } else {
                    old(self).duration_ms
                })
            }),
            final(self).file_path@ == old(self).file_path@,
            final(self).ascii_width == old(self).ascii_width,
            final(self).ascii_height == old(self).ascii_height,
            final(self).ascii_invert == old(self).ascii_invert,
            final(self).audio_enabled == old(self).audio_enabled,
            final(self).audio_volume == old(self).audio_volume,
    {
        let trimmed = trim_bytes(probe_output.as_slice());
        let parts = split_commas_bytes(trimmed.as_slice());
        if parts.len() >= 2 {
            self.width = parse_u32_bytes(parts[0].as_slice());
            self.height = parse_u32_bytes(parts[1].as_slice());
            if parts.len() >= 3 {
                self.frame_count = parse_u64_bytes(parts[2].as_slice());
            }
            if parts.len() >= 4 {
                self.duration_ms = parse_duration_ms_bytes(parts[3].as_slice());
            }
        }
    }

    /// The probed dimensions, once both are known.
    pub fn dimensions(&self) -> (r: Option<(u32, u32)>)
        ensures
            r == (match (self.width, self.height) {
                (Some(w), Some(h)) => Some((w, h)),
                _ => None::<(u32, u32)>,
            }),
    {
        match (self.width, self.height) {
            (Some(w), Some(h)) => Some((w, h)),
            _ => None,
        }
    }

    /// The probed frame count estimate.
    pub fn frame_count(&self) -> (r: Option<u64>)
        ensures
            r == self.frame_count,
    {
        self.frame_count
    }

    /// The probed duration in milliseconds.
    pub fn duration(&self) -> (r: Option<u64>)
        ensures
            r == self.duration_ms,
    {
        self.duration_ms
    }

    /// The ramp glyph that stands for one pixel under this configuration.
    pub fn pixel_to_ascii(&self, r: u8, g: u8, b: u8) -> (c: char)
        ensures
            c == extractor_ramp()[pixel_index_spec(r, g, b, self.ascii_invert)],
    {
        proof {
            lemma_extractor_ramp_len();
            lemma_pixel_index_in_range(r, g, b, self.ascii_invert);
            vstd::arithmetic::div_mod::lemma_div_pos_is_pos(luma_spec(r, g, b) * 1000, 255);
            vstd::arithmetic::div_mod::lemma_div_is_ordered(luma_spec(r, g, b) * 1000, 255000, 255);
        }
        let l = luma(r, g, b);
        let norm: u32 = (l as u32) * 1000 / 255;
        let bi: u32 = if self.ascii_invert {
            1000 - norm
        } else {
            norm
        };
        let idx: usize = (bi as usize) * 14 / 1000;
        extractor_chars().get_char(idx)
    }

    /// Renders one already-decoded image (packed RGB) as ASCII art on the
    /// configured grid: the image is resampled to the grid and each pixel
    /// becomes its ramp glyph, row by row. Unconfigured rendering is
    /// rejected; a degenerate grid or image yields an empty string, never a
    /// fault.
    #[verifier::loop_isolation(false)]
    pub fn image_to_ascii(&self, pixels: &Vec<u8>, width: u32, height: u32) -> (r: Result<
        String,
        VideoError,
    >)
        requires
            pixels@.len() == width * height * 3,
            (match (self.ascii_width, self.ascii_height) {
                (Some(aw), Some(ah)) => aw * ah * 3 <= usize::MAX,
                _ => true,
            }),
        ensures
            (self.ascii_width is None || self.ascii_height is None) <==> r is Err,
            r is Err ==> (r matches Err(e) && e matches VideoError::InvalidInput(_)),
            r matches Ok(art) ==> {
                let aw = self.ascii_width->Some_0;
                let ah = self.ascii_height->Some_0;
                if aw == 0 || ah == 0 || width == 0 || height == 0 {
                    art@ == Seq::<char>::empty()
                } else {
                    art@ == art_rows(
                        lanczos_rgb(pixels@, width, height, aw, ah),
                        aw as int,
                        ah as int,
                        self.ascii_invert,
                    )
                }
            },
    {
        let (aw, ah) = match (self.ascii_width, self.ascii_height) {
            (Some(aw), Some(ah)) => (aw, ah),
            _ => {
                return Err(
                    VideoError::InvalidInput(
                        String::from_str("ASCII rendering not configured. Call configure_ascii() first."),
                    ),
                );
            },
        };
        if aw == 0 || ah == 0 || width == 0 || height == 0 {
            return Ok(String::new());
        }
        let plane = lanczos_resize(pixels, width, height, aw, ah);
        let plen = plane.len();
        let ghost pix = plane@;
        proof {
            lemma_extractor_ramp_len();
        }
        let mut art = String::new();
        let mut y: u32 = 0;
        assert(art@ =~= art_rows(pix, aw as int, 0, self.ascii_invert));
        while y < ah
            invariant
                y <= ah,
                art@ == art_rows(pix, aw as int, y as int, self.ascii_invert),
            decreases ah - y,
        {
            let mut x: u32 = 0;
            assert(art@ =~= art_rows(pix, aw as int, y as int, self.ascii_invert) + Seq::new(
                0,
                |i: int| art_cell(pix, aw as int, y as int, i, self.ascii_invert),
            ));
            while x < aw
                invariant
                    x <= aw,
                    y < ah,
                    art@ == art_rows(pix, aw as int, y as int, self.ascii_invert) + Seq::new(
                        x as nat,
                        |i: int| art_cell(pix, aw as int, y as int, i, self.ascii_invert),
                    ),
                decreases aw - x,
            {
                proof {
                    crate::frame::lemma_pixel_index_bound(aw as int, ah as int, x as int, y as int);
                }
                let base: usize = 3 * ((y as usize) * (aw as usize) + (x as usize));
                let c = self.pixel_to_ascii(plane[base], plane[base + 1], plane[base + 2]);
                push_char(&mut art, c);
                proof {
                    assert(art@ =~= art_rows(pix, aw as int, y as int, self.ascii_invert)
                        + Seq::new(
                        (x + 1) as nat,
                        |i: int| art_cell(pix, aw as int, y as int, i, self.ascii_invert),
                    ));
                }
                x = x + 1;
            }
            push_char(&mut art, '\n');
            proof {
                assert(art@ =~= art_rows(pix, aw as int, y as int, self.ascii_invert) + art_row(
                    pix,
                    aw as int,
                    y as int,
                    self.ascii_invert,
                ));
                assert(art@ =~= art_rows(pix, aw as int, y as int + 1, self.ascii_invert));
            }
            y = y + 1;
        }
        Ok(art)
    }
}

/// The mapping inverts correctly: an all-black pixel takes the darkest glyph
/// and an all-white pixel the brightest, and with the invert option set each
/// takes the other's.
pub proof fn lemma_invert_flips_extremes()
    ensures
        pixel_index_spec(0, 0, 0, false) == 0,
        pixel_index_spec(255, 255, 255, false) == extractor_ramp().len() - 1,
        pixel_index_spec(0, 0, 0, true) == extractor_ramp().len() - 1,
        pixel_index_spec(255, 255, 255, true) == 0,
{
    lemma_extractor_ramp_len();
    assert(luma_spec(0, 0, 0) == 0);
    assert(luma_spec(255, 255, 255) == 255);
}

} // verus!
