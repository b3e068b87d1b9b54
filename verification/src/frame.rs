//! Raw decoded frames: packed RGB pixel buffers with their bookkeeping, and
//! the per-channel brightness/contrast response.

use vstd::prelude::*;
use crate::converter::{adjust_spec, luma, luma_spec};

verus! {

/// What the Lanczos3 resampler makes of an RGB image: a pixel buffer that is
/// a function of the input pixels and the two pairs of dimensions alone.
pub uninterp spec fn lanczos_rgb(pixels: Seq<u8>, w: u32, h: u32, nw: u32, nh: u32) -> Seq<u8>;

/// Relies on `image::imageops::resize` with the `Lanczos3` filter: the result
/// is an RGB image of exactly the requested dimensions, and resampling is
/// deterministic, depending on the input image and the requested dimensions
/// alone.
#[verifier::external_body]
pub(crate) fn lanczos_resize(data: &Vec<u8>, w: u32, h: u32, nw: u32, nh: u32) -> (r: Vec<u8>)
    requires
        data@.len() == w * h * 3,
        1 <= w,
        1 <= h,
        1 <= nw,
        1 <= nh,
        nw * nh * 3 <= usize::MAX,
    ensures
        r@ == lanczos_rgb(data@, w, h, nw, nh),
        r@.len() == nw * nh * 3,
{
    let img: image::RgbImage = image::ImageBuffer::from_raw(w, h, data.clone()).unwrap();
    let resized = image::imageops::resize(&img, nw, nh, image::imageops::FilterType::Lanczos3);
    resized.into_raw()
}

/// One decoded video frame: packed RGB8 pixels in row-major order, with the
/// source timestamp in milliseconds and the frame's sequence index.
#[derive(Clone, Debug)]
pub struct Frame {
    pub width: u32,
    pub height: u32,
    pub data: Vec<u8>,
    pub timestamp: u64,
    pub index: u64,
}

impl Frame {
    /// A frame is well formed when it holds exactly three bytes per pixel.
    pub open spec fn wf(self) -> bool {
        self.data@.len() == self.width * self.height * 3
    }

    /// Wraps an already-decoded pixel buffer.
    pub fn new(width: u32, height: u32, data: Vec<u8>, timestamp: u64, index: u64) -> (f: Frame)
        requires
            data@.len() == width * height * 3,
        ensures
            f.wf(),
            f.width == width,
            f.height == height,
            f.data@ == data@,
            f.timestamp == timestamp,
            f.index == index,
    {
        Frame { width, height, data, timestamp, index }
    }

    /// An all-black frame of the given dimensions.
    pub fn empty(width: u32, height: u32) -> (f: Frame)
        requires
            width * height * 3 <= usize::MAX,
        ensures
            f.wf(),
            f.width == width,
            f.height == height,
            forall|i: int| 0 <= i < f.data@.len() ==> f.data@[i] == 0u8,
            f.timestamp == 0,
            f.index == 0,
    {
        proof {
            assert(0 <= width * height && width * height <= width * height * 3) by (nonlinear_arith);
        }
        let size: usize = (width as usize) * (height as usize) * 3;
        let mut data: Vec<u8> = Vec::new();
        let mut i: usize = 0;
        while i < size
            invariant
                i <= size,
                data@.len() == i,
                forall|j: int| 0 <= j < i ==> data@[j] == 0u8,
            decreases size - i,
        {
            data.push(0);
            i = i + 1;
        }
        Frame { width, height, data, timestamp: 0, index: 0 }
    }

    /// The RGB triple at column `x`, row `y`, or `None` outside the frame.
    pub fn get_pixel(&self, x: u32, y: u32) -> (p: Option<(u8, u8, u8)>)
        requires
            self.wf(),
        ensures
            p == (if x < self.width && y < self.height {
                Some(
                    (
                        self.data@[3 * (y * self.width + x)],
                        self.data@[3 * (y * self.width + x) + 1],
                        self.data@[3 * (y * self.width + x) + 2],
                    ),
                )
            } else {
                Option::<(u8, u8, u8)>::None
            }),
    {
        if x >= self.width || y >= self.height {
            return None;
        }
        let len = self.data.len();
        proof {
            lemma_pixel_index_bound(self.width as int, self.height as int, x as int, y as int);
        }
        let idx: usize = 3 * ((y as usize) * (self.width as usize) + (x as usize));
        Some((self.data[idx], self.data[idx + 1], self.data[idx + 2]))
    }

    /// The per-pixel luminance plane of the frame.
    pub fn to_grayscale(&self) -> (g: Vec<u8>)
        requires
            self.wf(),
        ensures
            g@.len() == self.width * self.height,
            forall|i: int|
                0 <= i < g@.len() ==> g@[i] == luma_spec(
                    self.data@[3 * i],
                    self.data@[3 * i + 1],
                    self.data@[3 * i + 2],
                ),
    {
        let len = self.data.len();
        proof {
            vstd::arithmetic::div_mod::lemma_div_multiples_vanish(
                self.width * self.height,
                3,
            );
            assert(len == 3 * (self.width * self.height));
        }
        let n: usize = len / 3;
        let mut g: Vec<u8> = Vec::new();
        let mut i: usize = 0;
        while i < n
            invariant
                self.wf(),
                n == self.width * self.height,
                3 * n == self.data@.len(),
                3 * n <= usize::MAX,
                i <= n,
                g@.len() == i,
                forall|j: int|
                    0 <= j < i ==> g@[j] == luma_spec(
                        self.data@[3 * j],
                        self.data@[3 * j + 1],
                        self.data@[3 * j + 2],
                    ),
            decreases n - i,
        {
            let l = luma(self.data[3 * i], self.data[3 * i + 1], self.data[3 * i + 2]);
            g.push(l);
            i = i + 1;
        }
        g
    }

    /// Resamples the frame to the given dimensions with the Lanczos3 filter.
    pub fn resize(&self, new_width: u32, new_height: u32) -> (f: Frame)
        requires
            self.wf(),
            1 <= self.width,
            1 <= self.height,
            1 <= new_width,
            1 <= new_height,
            new_width * new_height * 3 <= usize::MAX,
        ensures
            f.wf(),
            f.width == new_width,
            f.height == new_height,
            f.data@ == lanczos_rgb(self.data@, self.width, self.height, new_width, new_height),
            f.timestamp == self.timestamp,
            f.index == self.index,
    {
        let data = lanczos_resize(&self.data, self.width, self.height, new_width, new_height);
        Frame {
            width: new_width,
            height: new_height,
            data,
            timestamp: self.timestamp,
            index: self.index,
        }
    }

    /// A copy of the frame with the brightness/contrast response applied to
    /// every channel of every pixel.
    pub fn adjust_brightness_contrast(&self, brightness: i32, contrast: u32) -> (f: Frame)
        requires
            self.wf(),
            -1000 <= brightness <= 1000,
            contrast <= 2000,
        ensures
            f.wf(),
            f.width == self.width,
            f.height == self.height,
            f.timestamp == self.timestamp,
            f.index == self.index,
            f.data@.len() == self.data@.len(),
            forall|i: int|
                0 <= i < f.data@.len() ==> f.data@[i] == channel_adjust_spec(
                    self.data@[i],
                    contrast,
                    brightness,
                ),
    {
        let n: usize = self.data.len();
        let mut data: Vec<u8> = Vec::new();
        let mut i: usize = 0;
        while i < n
            invariant
                n == self.data@.len(),
                -1000 <= brightness <= 1000,
                contrast <= 2000,
                i <= n,
                data@.len() == i,
                forall|j: int|
                    0 <= j < i ==> data@[j] == channel_adjust_spec(
                        self.data@[j],
                        contrast,
                        brightness,
                    ),
            decreases n - i,
        {
            data.push(adjust_channel(self.data[i], contrast, brightness));
            i = i + 1;
        }
        Frame {
            width: self.width,
            height: self.height,
            data,
            timestamp: self.timestamp,
            index: self.index,
        }
    }
}

/// Inside a well-formed frame, a pixel's last channel index stays inside the
/// buffer.
pub(crate) proof fn lemma_pixel_index_bound(w: int, h: int, x: int, y: int)
    requires
        0 <= x < w,
        0 <= y < h,
    ensures
        y * w + x < w * h,
        0 <= 3 * (y * w + x),
        3 * (y * w + x) + 2 < w * h * 3,
        w * h <= w * h * 3,
{
    assert(y * w + x < w * h && 0 <= y * w && w * h <= w * h * 3) by (nonlinear_arith)
        requires
            0 <= x < w,
            0 <= y < h,
    ;
}

/// A bounded window of recent frames with a navigation cursor. Once the
/// buffer is full, a push evicts the oldest frame and shifts the cursor so
/// that it keeps pointing at the same frame.
pub struct FrameBuffer {
    frames: Vec<Frame>,
    capacity: usize,
    position: usize,
}

/// How many frames a buffer holds after one push: one more until the
/// capacity is reached, then as many as before.
pub open spec fn pushed_len(len: int, cap: int) -> int {
    if len < cap {
        len + 1
    } else {
        len
    }
}

/// The buffer length after a sequence of `n` pushes onto a buffer of
/// length `len`.
pub open spec fn len_after_pushes(len: int, cap: int, n: nat) -> int
    decreases n,
{
    if n == 0 {
        len
    } else {
        pushed_len(len_after_pushes(len, cap, (n - 1) as nat), cap)
    }
}

/// A buffer within its capacity never exceeds it, over any sequence of
/// pushes.
pub proof fn lemma_pushes_stay_bounded(len: int, cap: int, n: nat)
    requires
        0 <= len <= cap,
    ensures
        0 <= len_after_pushes(len, cap, n) <= cap,
    decreases n,
{
    if n > 0 {
        lemma_pushes_stay_bounded(len, cap, (n - 1) as nat);
    }
}

/// Where the cursor stands after a forward step over `len` frames.
pub open spec fn next_cursor(len: int, cursor: int) -> int {
    if cursor < len {
        cursor + 1
    } else {
        cursor
    }
}

/// Where the cursor stands after a backward step.
pub open spec fn prev_cursor(cursor: int) -> int {
    if cursor > 0 {
        cursor - 1
    } else {
        cursor
    }
}

/// A backward step directly after an in-range forward step returns the cursor
/// to where it was, so `previous()` then yields the frame that `next()`
/// yielded.
pub proof fn lemma_previous_after_next(len: int, cursor: int)
    requires
        0 <= cursor < len,
    ensures
        next_cursor(len, cursor) > 0,
        prev_cursor(next_cursor(len, cursor)) == cursor,
{
}

impl FrameBuffer {
    /// The buffered frames, oldest first.
    pub closed spec fn entries(self) -> Seq<Frame> {
        self.frames@
    }

    /// The configured capacity.
    pub closed spec fn cap(self) -> int {
        self.capacity as int
    }

    /// The navigation cursor: the index `next()` would yield from.
    pub closed spec fn cursor(self) -> int {
        self.position as int
    }

    /// The buffer never outgrows its capacity, and the cursor never leaves
    /// the buffered range.
    pub closed spec fn wf(self) -> bool {
        &&& 1 <= self.capacity
        &&& self.frames@.len() <= self.capacity
        &&& self.position <= self.frames@.len()
    }

    /// An empty buffer of the given capacity.
    pub fn new(capacity: usize) -> (b: FrameBuffer)
        requires
            1 <= capacity,
        ensures
            b.wf(),
            b.entries() == Seq::<Frame>::empty(),
            b.cap() == capacity,
            b.cursor() == 0,
    {
        FrameBuffer { frames: Vec::new(), capacity, position: 0 }
    }

    /// Appends a frame; once the buffer is full, the oldest frame leaves and
    /// the cursor shifts back to keep its relative position.
    pub fn push(&mut self, frame: Frame)
        requires
            old(self).wf(),
        ensures
            final(self).wf(),
            final(self).cap() == old(self).cap(),
            final(self).entries().len() == pushed_len(
                old(self).entries().len() as int,
                old(self).cap(),
            ),
            old(self).entries().len() < old(self).cap() ==> {
                &&& final(self).entries() == old(self).entries().push(frame)
                &&& final(self).cursor() == old(self).cursor()
            },
            old(self).entries().len() == old(self).cap() ==> {
                &&& final(self).entries() == old(self).entries().subrange(
                    1,
                    old(self).entries().len() as int,
                ).push(frame)
                &&& final(self).cursor() == prev_cursor(old(self).cursor())
            },
    {
        if self.frames.len() >= self.capacity {
            self.frames.remove(0);
            if self.position > 0 {
                self.position = self.position - 1;
            }
        }
        self.frames.push(frame);
    }

    /// The frame at `index`, oldest first, or `None` past the end.
    pub fn get(&self, index: usize) -> (r: Option<&Frame>)
        ensures
            match r {
                Some(f) => index < self.entries().len() && *f == self.entries()[index as int],
                None => index >= self.entries().len(),
            },
    {
        if index < self.frames.len() {
            Some(&self.frames[index])
        } else {
            None
        }
    }

    /// The most recently pushed frame.
    pub fn latest(&self) -> (r: Option<&Frame>)
        ensures
            match r {
                Some(f) => self.entries().len() > 0 && *f == self.entries()[self.entries().len()
                    - 1],
                None => self.entries().len() == 0,
            },
    {
        if self.frames.len() > 0 {
            Some(&self.frames[self.frames.len() - 1])
        } else {
            None
        }
    }

    /// How many frames are buffered.
    pub fn len(&self) -> (n: usize)
        ensures
            n == self.entries().len(),
    {
        self.frames.len()
    }

    /// Whether the buffer holds no frame.
    pub fn is_empty(&self) -> (e: bool)
        ensures
            e == (self.entries().len() == 0),
    {
        self.frames.len() == 0
    }

    /// Drops every buffered frame and resets the cursor.
    pub fn clear(&mut self)
        ensures
            final(self).entries() == Seq::<Frame>::empty(),
            final(self).cursor() == 0,
            final(self).cap() == old(self).cap(),
            old(self).wf() ==> final(self).wf(),
    {
        self.frames.clear();
        self.position = 0;
    }

    /// Yields the frame under the cursor and moves the cursor forward, or
    /// `None` once the cursor has passed the newest frame.
    pub fn next(&mut self) -> (r: Option<&Frame>)
        requires
            old(self).wf(),
        ensures
            final(self).wf(),
            final(self).entries() == old(self).entries(),
            final(self).cap() == old(self).cap(),
            final(self).cursor() == next_cursor(old(self).entries().len() as int, old(self).cursor()),
            match r {
                Some(f) => old(self).cursor() < old(self).entries().len() && *f == old(
                    self,
                ).entries()[old(self).cursor()],
                None => old(self).cursor() == old(self).entries().len(),
            },
    {
        if self.position < self.frames.len() {
            let i = self.position;
            self.position = self.position + 1;
            Some(&self.frames[i])
        } else {
            None
        }
    }

    /// Moves the cursor one frame back and yields the frame it lands on, or
    /// `None` at the start.
    pub fn previous(&mut self) -> (r: Option<&Frame>)
        requires
            old(self).wf(),
        ensures
            final(self).wf(),
            final(self).entries() == old(self).entries(),
            final(self).cap() == old(self).cap(),
            final(self).cursor() == prev_cursor(old(self).cursor()),
            match r {
                Some(f) => old(self).cursor() > 0 && *f == old(self).entries()[old(self).cursor()
                    - 1],
                None => old(self).cursor() == 0,
            },
    {
        if self.position > 0 {
            self.position = self.position - 1;
            Some(&self.frames[self.position])
        } else {
            None
        }
    }

    /// Puts the cursor back on the oldest buffered frame.
    pub fn rewind(&mut self)
        ensures
            final(self).entries() == old(self).entries(),
            final(self).cap() == old(self).cap(),
            final(self).cursor() == 0,
            old(self).wf() ==> final(self).wf(),
    {
        self.position = 0;
    }
}

/// One channel after the brightness/contrast response: the adjusted per-mille
/// value scaled back to the 0..=255 channel range.
pub open spec fn channel_adjust_spec(c: u8, contrast: u32, brightness: i32) -> int {
    adjust_spec(c as int, contrast, brightness) * 255 / 1000
}

/// Applies the brightness/contrast response to one channel value.
pub fn adjust_channel(c: u8, contrast: u32, brightness: i32) -> (r: u8)
    requires
        -1000 <= brightness <= 1000,
        contrast <= 2000,
    ensures
        r == channel_adjust_spec(c, contrast, brightness),
{
    let a = crate::converter::adjust(c, contrast, brightness);
    ((a as u32) * 255 / 1000) as u8
}

} // verus!
