//! The display surface: an owned buffer of 16-bit pixels, laid out as the
//! physical frame buffer is, with bounds-checked writes and a scaling blit.

use std::path::PathBuf;
use vstd::prelude::*;
use vstd::arithmetic::div_mod::lemma_fundamental_div_mod_converse;

pub mod scale;

use self::scale::{lemma_scan_position, scale_coordinate, Scaling};

verus! {

/// How the physical frame buffer is laid out.
#[derive(Debug)]
pub struct FramebufferConfig {
    /// Path of the frame buffer device.
    pub path: PathBuf,
    /// Visible width in pixels.
    pub width: usize,
    /// Visible height in pixels.
    pub height: usize,
    /// Bytes that the device takes per pixel, at least two. They size the
    /// region of the device; the 16-bit pixels of the surface lie back to
    /// back at its beginning.
    pub bytes_per_pixel: usize,
    /// The number of pixels in a single row of the frame buffer, padding
    /// included.
    pub stride_pixels: usize,
}

/// Why a configuration describes no surface.
#[derive(Debug, Clone, Copy, PartialEq, Eq, Structural)]
pub enum FramebufferError {
    /// The pixels of the device are less than two bytes wide, so that the
    /// region cannot hold a 16-bit pixel for each of them.
    PixelTooNarrow,
    /// A row of the buffer is shorter than the visible width.
    StrideTooSmall,
    /// The size of the buffer in bytes does not fit the address space.
    TooLarge,
}

/// Bytes that a 16-bit pixel takes.
pub const BYTES_PER_PIXEL: usize = 2;

/// Represents the region of a frame buffer device: `stride * height` pixels
/// of 16 bits in row order, of which the first `width` of each row are
/// visible, and behind them the bytes that a device with wider pixels has
/// beyond that.
#[derive(Debug)]
pub struct Framebuffer {
    width: usize,
    height: usize,
    /// The number of pixels in a single row of the framebuffer.
    stride: usize,
    /// Bytes that the device takes per pixel.
    bytes_per_pixel: usize,
    /// The pixels, two bytes each, at the beginning of the region.
    pixels: Vec<u16>,
    /// What the region holds behind the pixels.
    rest: Vec<u8>,
}

/// Packs an RGB888 colour into the 16 bits of the display: five bits of red,
/// six of green, five of blue.
pub open spec fn rgb565(r: u8, g: u8, b: u8) -> u16 {
    ((r as u16 >> 3) << 11) | ((g as u16 >> 2) << 5) | (b as u16 >> 3)
}

/// The colour on the display of the `k`-th pixel of an RGB888 image, three
/// bytes to the pixel.
pub open spec fn source_colour(buf: Seq<u8>, k: int) -> u16 {
    rgb565(buf[3 * k], buf[3 * k + 1], buf[3 * k + 2])
}

/// Two cells of one buffer are the same cell only for the same column and row.
pub proof fn lemma_cell_injective(stride: int, x: int, y: int, other_x: int, other_y: int)
    requires
        0 <= x < stride,
        0 <= other_x < stride,
        0 <= y,
        0 <= other_y,
        y * stride + x == other_y * stride + other_x,
    ensures
        x == other_x,
        y == other_y,
{
    lemma_fundamental_div_mod_converse(y * stride + x, stride, y, x);
    lemma_fundamental_div_mod_converse(other_y * stride + other_x, stride, other_y, other_x);
}

/// Packs an RGB888 colour into the 16 bits of the display.
pub fn pack_rgb565(r: u8, g: u8, b: u8) -> (packed: u16)
    ensures
        packed == rgb565(r, g, b),
{
    ((r as u16 >> 3) << 11) | ((g as u16 >> 2) << 5) | (b as u16 >> 3)
}

impl FramebufferConfig {
    /// The reason why the configuration describes no surface, if there is
    /// one. The size in bytes is `stride * height * bytes_per_pixel`.
    pub open spec fn defect(&self) -> Option<FramebufferError> {
        if self.bytes_per_pixel < BYTES_PER_PIXEL {
            Some(FramebufferError::PixelTooNarrow)
        } else if self.stride_pixels < self.width {
            Some(FramebufferError::StrideTooSmall)
        } else if self.stride_pixels * self.height * self.bytes_per_pixel > usize::MAX {
            Some(FramebufferError::TooLarge)
        } else {
            None
        }
    }
}

impl Framebuffer {
    /// Visible width in pixels.
    pub closed spec fn spec_width(&self) -> nat {
        self.width as nat
    }

    /// Visible height in pixels.
    pub closed spec fn spec_height(&self) -> nat {
        self.height as nat
    }

    /// Pixels per row of the buffer, padding included.
    pub closed spec fn spec_stride(&self) -> nat {
        self.stride as nat
    }

    /// Bytes that the device takes per pixel.
    pub closed spec fn spec_bytes_per_pixel(&self) -> nat {
        self.bytes_per_pixel as nat
    }

    /// Size in bytes of the region of the device that the surface stands
    /// for: `stride * height * bytes_per_pixel`.
    pub open spec fn spec_size_bytes(&self) -> nat {
        self.spec_stride() * self.spec_height() * self.spec_bytes_per_pixel()
    }

    /// The cells of the buffer in row order. They are the beginning of the
    /// region, two bytes each.
    pub closed spec fn view(&self) -> Seq<u16> {
        self.pixels@
    }

    /// The bytes of the region that lie behind the cells. There are some
    /// where the device takes more than two bytes per pixel.
    pub closed spec fn spec_rest(&self) -> Seq<u8> {
        self.rest@
    }

    /// Whether every byte behind the cells is zero.
    pub open spec fn rest_is_zero(&self) -> bool {
        forall|i: int| 0 <= i < self.spec_rest().len() ==> self.spec_rest()[i] == 0
    }

    /// The buffer has `stride * height` cells, no row is shorter than the
    /// visible width, the cells and the bytes behind them make up the whole
    /// region, and the size of the region fits the address space.
    pub open spec fn wf(&self) -> bool {
        &&& self.spec_width() <= self.spec_stride()
        &&& self@.len() == self.spec_stride() * self.spec_height()
        &&& self.spec_bytes_per_pixel() >= BYTES_PER_PIXEL
        &&& self.spec_stride() * self.spec_height() * BYTES_PER_PIXEL <= usize::MAX
        &&& self.spec_size_bytes() <= usize::MAX
        &&& self@.len() * BYTES_PER_PIXEL + self.spec_rest().len() == self.spec_size_bytes()
    }

    /// Whether `(x, y)` is a visible pixel.
    pub open spec fn in_bounds(&self, x: int, y: int) -> bool {
        0 <= x < self.spec_width() && 0 <= y < self.spec_height()
    }

    /// The cell of the pixel at column `x` of row `y`.
    pub open spec fn cell(&self, x: int, y: int) -> int {
        y * self.spec_stride() + x
    }

    /// The pixel at column `x` of row `y`.
    pub open spec fn spec_pixel(&self, x: int, y: int) -> u16 {
        self@[self.cell(x, y)]
    }

    /// Whether two surfaces have the same layout.
    pub open spec fn same_layout(&self, other: &Framebuffer) -> bool {
        &&& self.spec_width() == other.spec_width()
        &&& self.spec_height() == other.spec_height()
        &&& self.spec_stride() == other.spec_stride()
        &&& self.spec_bytes_per_pixel() == other.spec_bytes_per_pixel()
    }

    /// Whether two surfaces hold the same in every byte of their regions.
    pub open spec fn same_content(&self, other: &Framebuffer) -> bool {
        &&& self@ == other@
        &&& self.spec_rest() == other.spec_rest()
    }

    /// A visible pixel has a cell of its own in the buffer.
    pub proof fn lemma_cell_in_buffer(&self, x: int, y: int)
        requires
            self.wf(),
            0 <= x < self.spec_stride(),
            0 <= y < self.spec_height(),
        ensures
            0 <= self.cell(x, y) < self@.len(),
    {
        let s = self.spec_stride() as int;
        let h = self.spec_height() as int;
        assert(y * s + x < s * h) by (nonlinear_arith)
            requires
                0 <= x < s,
                0 <= y < h,
        ;
        assert(0 <= y * s + x) by (nonlinear_arith)
            requires
                0 <= x,
                0 <= y,
                0 <= s,
        ;
    }

    /// A surface with a visible pixel is small enough that the cell of
    /// text that begins at any visible pixel can be addressed.
    pub proof fn lemma_dimensions_fit(&self)
        requires
            self.wf(),
            self.spec_width() > 0,
            self.spec_height() > 0,
        ensures
            self.spec_width() * BYTES_PER_PIXEL <= usize::MAX,
            self.spec_height() * BYTES_PER_PIXEL <= usize::MAX,
    {
        let s = self.spec_stride() as int;
        let h = self.spec_height() as int;
        assert(s <= s * h && h <= s * h) by (nonlinear_arith)
            requires
                1 <= s,
                1 <= h,
        ;
    }

    /// Creates the surface that `config` describes, all black.
    pub fn new(config: &FramebufferConfig) -> (made: Result<Framebuffer, FramebufferError>)
        ensures
            match made {
                Ok(fb) => {
                    &&& config.defect().is_none()
                    &&& fb.wf()
                    &&& fb.spec_width() == config.width
                    &&& fb.spec_height() == config.height
                    &&& fb.spec_stride() == config.stride_pixels
                    &&& fb.spec_bytes_per_pixel() == config.bytes_per_pixel
                    &&& forall|i: int| 0 <= i < fb@.len() ==> fb@[i] == 0
                    &&& fb.rest_is_zero()
                },
                Err(e) => config.defect() == Some(e),
            },
    {
        if config.bytes_per_pixel < BYTES_PER_PIXEL {
            return Err(FramebufferError::PixelTooNarrow);
        }
        if config.stride_pixels < config.width {
            return Err(FramebufferError::StrideTooSmall);
        }
        let cells: usize = match config.stride_pixels.checked_mul(config.height) {
            Some(cells) => cells,
            None => {
                assert(config.stride_pixels * config.height * config.bytes_per_pixel
                    > usize::MAX) by (nonlinear_arith)
                    requires
                        config.stride_pixels * config.height > usize::MAX,
                        config.bytes_per_pixel >= 2,
                ;
                return Err(FramebufferError::TooLarge);
            },
        };
        let bytes: usize = match cells.checked_mul(config.bytes_per_pixel) {
            Some(bytes) => bytes,
            None => {
                return Err(FramebufferError::TooLarge);
            },
        };
        assert(cells * BYTES_PER_PIXEL <= cells * config.bytes_per_pixel) by (nonlinear_arith)
            requires
                config.bytes_per_pixel >= BYTES_PER_PIXEL,
        ;
        let pixels: Vec<u16> = vec![0u16; cells];
        let behind: usize = bytes - cells * BYTES_PER_PIXEL;
        let rest: Vec<u8> = vec![0u8; behind];
        Ok(
            Framebuffer {
                width: config.width,
                height: config.height,
                stride: config.stride_pixels,
                bytes_per_pixel: config.bytes_per_pixel,
                pixels,
                rest,
            },
        )
    }

    /// Visible width in pixels.
    pub fn width(&self) -> (w: usize)
        ensures
            w == self.spec_width(),
    {
        self.width
    }

    /// Visible height in pixels.
    pub fn height(&self) -> (h: usize)
        ensures
            h == self.spec_height(),
    {
        self.height
    }

    /// Pixels per row of the buffer, padding included.
    pub fn stride(&self) -> (s: usize)
        ensures
            s == self.spec_stride(),
    {
        self.stride
    }

    /// Bytes that the device takes per pixel.
    pub fn bytes_per_pixel(&self) -> (bytes: usize)
        ensures
            bytes == self.spec_bytes_per_pixel(),
    {
        self.bytes_per_pixel
    }

    /// Size in bytes of the region of the device that the surface stands
    /// for.
    pub fn size_bytes(&self) -> (bytes: usize)
        requires
            self.wf(),
        ensures
            bytes == self.spec_size_bytes(),
            bytes == self@.len() * BYTES_PER_PIXEL + self.spec_rest().len(),
    {
        self.pixels.len() * BYTES_PER_PIXEL + self.rest.len()
    }

    /// The bytes of the region behind the cells.
    pub fn rest(&self) -> (bytes: &Vec<u8>)
        ensures
            bytes@ == self.spec_rest(),
    {
        &self.rest
    }

    /// The cells of the buffer in row order, as the device holds them.
    pub fn pixels(&self) -> (cells: &Vec<u16>)
        ensures
            cells@ == self@,
    {
        &self.pixels
    }

    /// The pixel at column `x` of row `y`, or `None` outside the surface.
    pub fn pixel(&self, x: usize, y: usize) -> (colour: Option<u16>)
        requires
            self.wf(),
        ensures
            colour == if self.in_bounds(x as int, y as int) {
                Some(self.spec_pixel(x as int, y as int))
            } else {
                None
            },
    {
        if x >= self.width || y >= self.height {
            return None;
        }
        proof {
            self.lemma_cell_in_buffer(x as int, y as int);
        }
        Some(self.pixels[y * self.stride + x])
    }

    /// Writes one pixel. A pixel outside the surface is skipped.
    pub fn put_pixel(&mut self, x: usize, y: usize, colour: u16)
        requires
            old(self).wf(),
        ensures
            final(self).wf(),
            final(self).same_layout(old(self)),
            final(self)@ == if old(self).in_bounds(x as int, y as int) {
                old(self)@.update(old(self).cell(x as int, y as int), colour)
            } else {
                old(self)@
            },
            final(self).spec_rest() == old(self).spec_rest(),
            forall|px: int, py: int|
                0 <= px < old(self).spec_stride() && 0 <= py < old(self).spec_height()
                    ==> #[trigger] final(self).spec_pixel(px, py) == if px == x && py == y
                    && old(self).in_bounds(px, py) {
                    colour
                } else {
                    old(self).spec_pixel(px, py)
                },
    {
        if x >= self.width || y >= self.height {
            return ;
        }
        proof {
            self.lemma_cell_in_buffer(x as int, y as int);
        }
        let at: usize = y * self.stride + x;
        self.pixels.set(at, colour);
        assert forall|px: int, py: int|
            0 <= px < old(self).spec_stride() && 0 <= py < old(
                self,
            ).spec_height() implies #[trigger] self.spec_pixel(px, py) == if px == x && py == y {
            colour
        } else {
            old(self).spec_pixel(px, py)
        } by {
            self.lemma_cell_in_buffer(px, py);
            if self.cell(px, py) == at {
                lemma_cell_injective(self.spec_stride() as int, px, py, x as int, y as int);
            }
        }
    }

    /// The scaling that brings a source of `src_w` by `src_h` pixels onto
    /// this surface.
    pub open spec fn scaling(&self, src_w: int, src_h: int) -> Scaling {
        Scaling {
            dst_w: self.spec_width() as int,
            dst_h: self.spec_height() as int,
            src_w,
            src_h,
        }
    }

    /// This surface is `before` with the first `n` pixels of the image `buf`
    /// written to it: a cell holds the colour of the last of them that maps
    /// to it, and what it held before where none does. The bytes behind the
    /// cells are as they were.
    pub open spec fn blitted(
        &self,
        before: &Framebuffer,
        buf: Seq<u8>,
        scaling: Scaling,
        n: nat,
    ) -> bool {
        &&& self.wf()
        &&& self.same_layout(before)
        &&& self.spec_rest() == before.spec_rest()
        &&& forall|x: int, y: int|
            0 <= x < self.spec_stride() && 0 <= y < self.spec_height()
                ==> #[trigger] self.spec_pixel(x, y) == (match scaling.last_source(n, x, y) {
                Some(k) => source_colour(buf, k),
                None => before.spec_pixel(x, y),
            })
    }

    /// Writing the next source pixel in scan order keeps `blitted`.
    proof fn lemma_blit_step(
        before: &Framebuffer,
        prev: &Framebuffer,
        next: &Framebuffer,
        buf: Seq<u8>,
        scaling: Scaling,
        n: nat,
    )
        requires
            prev.blitted(before, buf, scaling, n),
            scaling.dst_w == before.spec_width(),
            scaling.dst_h == before.spec_height(),
            next.same_layout(prev),
            next.spec_rest() == prev.spec_rest(),
            match scaling.target(n as int) {
                Some((dx, dy)) => next@ == prev@.update(prev.cell(dx, dy), source_colour(buf, n as int)),
                None => next@ == prev@,
            },
        ensures
            next.blitted(before, buf, scaling, n + 1),
    {
        if let Some((dx, dy)) = scaling.target(n as int) {
            prev.lemma_cell_in_buffer(dx, dy);
        }
        assert forall|x: int, y: int|
            0 <= x < next.spec_stride() && 0 <= y < next.spec_height() implies #[trigger] next.spec_pixel(
            x,
            y,
        ) == (match scaling.last_source(n + 1, x, y) {
            Some(k) => source_colour(buf, k),
            None => before.spec_pixel(x, y),
        }) by {
            prev.lemma_cell_in_buffer(x, y);
            assert(prev.spec_pixel(x, y) == (match scaling.last_source(n, x, y) {
                Some(k) => source_colour(buf, k),
                None => before.spec_pixel(x, y),
            }));
            match scaling.target(n as int) {
                Some((dx, dy)) => {
                    prev.lemma_cell_in_buffer(dx, dy);
                    if dx != x || dy != y {
                        if prev.cell(dx, dy) == prev.cell(x, y) {
                            lemma_cell_injective(prev.spec_stride() as int, x, y, dx, dy);
                        }
                    }
                },
                None => {},
            }
        }
    }

    /// Writes an RGB888 image of `src_w` by `src_h` pixels into the surface,
    /// scaled by the ratio of the heights to the nearest neighbour and
    /// centred horizontally. Source pixels that land outside the surface are
    /// dropped; where several land on one pixel the last in scan order stays.
    pub fn blit_scaled(&mut self, buf: &[u8], src_w: usize, src_h: usize)
        requires
            old(self).wf(),
            3 * src_w * src_h <= buf@.len(),
        ensures
            final(self).blitted(
                old(self),
                buf@,
                old(self).scaling(src_w as int, src_h as int),
                old(self).scaling(src_w as int, src_h as int).count(),
            ),
    {
        let ghost before = *self;
        let ghost scaling = self.scaling(src_w as int, src_h as int);
        let buf_len: usize = buf.len();
        if src_w == 0 || src_h == 0 {
            return ;
        }
        assert(3 * src_w <= usize::MAX && 3 * src_h <= usize::MAX && src_w * src_h <= usize::MAX)
            by (nonlinear_arith)
            requires
                3 * src_w * src_h <= buf_len,
                buf_len <= usize::MAX,
                src_w > 0,
                src_h > 0,
        ;
        let height: u128 = self.height as u128;
        let width: u128 = self.width as u128;
        let scaled_w: u128 = scale_coordinate(src_w, self.height, src_h);
        let centred: bool = width >= scaled_w;
        let shift: u128 = if centred {
            (width - scaled_w) / 2
        } else {
            (scaled_w - width) / 2
        };
        assert(scaling.x_offset() == if centred {
            shift as int
        } else {
            -(shift as int)
        });
        let mut sy: usize = 0;
        while sy < src_h
            invariant
                sy <= src_h,
                src_w > 0,
                src_h > 0,
                3 * src_w <= usize::MAX,
                3 * src_h <= usize::MAX,
                3 * src_w * src_h <= buf@.len(),
                src_w * src_h <= usize::MAX,
                buf@.len() <= usize::MAX,
                height == self.spec_height(),
                width == self.spec_width(),
                scaling == before.scaling(src_w as int, src_h as int),
                scaling.x_offset() == if centred {
                    shift as int
                } else {
                    -(shift as int)
                },
                centred ==> shift <= width,
                self.blitted(&before, buf@, scaling, (sy * src_w) as nat),
            decreases src_h - sy,
        {
            assert(sy * src_w + src_w <= src_w * src_h) by (nonlinear_arith)
                requires
                    sy < src_h,
                    src_w > 0,
            ;
            let dy: u128 = scale_coordinate(sy, self.height, src_h);
            if dy < height {
                assert(dy * self.stride <= self.stride * self.height) by (nonlinear_arith)
                    requires
                        dy < self.height,
                ;
                let row: usize = dy as usize * self.stride;
                let mut sx: usize = 0;
                while sx < src_w
                    invariant
                        sx <= src_w,
                        sy < src_h,
                        src_w > 0,
                        src_h > 0,
                        3 * src_w <= usize::MAX,
                        3 * src_h <= usize::MAX,
                        3 * src_w * src_h <= buf@.len(),
                        src_w * src_h <= usize::MAX,
                        buf@.len() <= usize::MAX,
                        sy * src_w + src_w <= src_w * src_h,
                        height == self.spec_height(),
                        width == self.spec_width(),
                        scaling == before.scaling(src_w as int, src_h as int),
                        scaling.x_offset() == if centred {
                            shift as int
                        } else {
                            -(shift as int)
                        },
                        centred ==> shift <= width,
                        dy == scale::scale_coord(sy as int, height as int, src_h as int),
                        dy < height,
                        row == dy * self.spec_stride(),
                        self.blitted(&before, buf@, scaling, (sy * src_w + sx) as nat),
                    decreases src_w - sx,
                {
                    let ghost prev = *self;
                    let ghost k: int = sy * src_w + sx;
                    assert(0 <= sy * src_w <= k) by (nonlinear_arith)
                        requires
                            k == sy * src_w + sx,
                    ;
                    let rx: u128 = scale_coordinate(sx, self.height, src_h);
                    let visible: bool = if centred {
                        rx < width - shift
                    } else {
                        rx >= shift && rx - shift < width
                    };
                    proof {
                        lemma_scan_position(src_w as int, sx as int, sy as int);
                        assert(3 * k + 2 < 3 * src_w * src_h) by (nonlinear_arith)
                            requires
                                0 <= k < sy * src_w + src_w,
                                sy * src_w + src_w <= src_w * src_h,
                        ;
                    }
                    if visible {
                        let dx: usize = if centred {
                            (rx + shift) as usize
                        } else {
                            (rx - shift) as usize
                        };
                        proof {
                            self.lemma_cell_in_buffer(dx as int, dy as int);
                        }
                        let i: usize = (sy * src_w + sx) * 3;
                        let colour: u16 = pack_rgb565(buf[i], buf[i + 1], buf[i + 2]);
                        self.pixels.set(row + dx, colour);
                        assert(scaling.target(k) == Some((dx as int, dy as int)));
                    } else {
                        assert(scaling.target(k) is None);
                    }
                    proof {
                        Self::lemma_blit_step(&before, &prev, &*self, buf@, scaling, k as nat);
                    }
                    sx += 1;
                }
            } else {
                proof {
                    let from: nat = (sy * src_w) as nat;
                    let to: nat = (sy * src_w + src_w) as nat;
                    assert forall|k: int| from <= k < to implies #[trigger] scaling.target(
                        k,
                    ) is None by {
                        lemma_scan_position(src_w as int, k - sy * src_w, sy as int);
                    }
                    assert forall|x: int, y: int|
                        0 <= x < self.spec_stride() && 0 <= y
                            < self.spec_height() implies #[trigger] self.spec_pixel(x, y) == (
                    match scaling.last_source(to, x, y) {
                        Some(k) => source_colour(buf@, k),
                        None => before.spec_pixel(x, y),
                    }) by {
                        scaling.lemma_last_source_skip(from, to, x, y);
                    }
                }
            }
            assert((sy + 1) * src_w == sy * src_w + src_w) by (nonlinear_arith);
            sy += 1;
        }
        assert(sy * src_w == src_w * src_h) by (nonlinear_arith)
            requires
                sy == src_h,
        ;
    }

    /// Writes one image of the emulation core, `SCREEN_W` by `SCREEN_H`
    /// pixels of RGB888, scaled into the surface.
    pub fn write(&mut self, buf: &[u8])
        requires
            old(self).wf(),
            buf@.len() >= 3 * crate::SCREEN_W * crate::SCREEN_H,
        ensures
            final(self).blitted(
                old(self),
                buf@,
                old(self).scaling(crate::SCREEN_W as int, crate::SCREEN_H as int),
                (crate::SCREEN_W * crate::SCREEN_H) as nat,
            ),
    {
        self.blit_scaled(buf, crate::SCREEN_W, crate::SCREEN_H);
    }

    /// Fills the entire framebuffer with zeros: every cell, the padding
    /// behind the visible columns included, and every byte that the region
    /// of the device holds behind the cells. Together they are the whole
    /// region, so no byte of it is left and none outside it is touched.
    pub fn zero(&mut self)
        requires
            old(self).wf(),
        ensures
            final(self).wf(),
            final(self).same_layout(old(self)),
            final(self)@.len() == old(self)@.len(),
            final(self).spec_rest().len() == old(self).spec_rest().len(),
            final(self)@.len() * BYTES_PER_PIXEL + final(self).spec_rest().len() == old(
                self,
            ).spec_size_bytes(),
            forall|i: int| 0 <= i < final(self)@.len() ==> final(self)@[i] == 0,
            final(self).rest_is_zero(),
            forall|x: int, y: int|
                0 <= x < final(self).spec_stride() && 0 <= y < final(self).spec_height()
                    ==> #[trigger] final(self).spec_pixel(x, y) == 0,
    {
        let cells: usize = self.pixels.len();
        let mut i: usize = 0;
        while i < cells
            invariant
                self.wf(),
                self.same_layout(old(self)),
                cells == self@.len(),
                self@.len() == old(self)@.len(),
                self.spec_rest() == old(self).spec_rest(),
                i <= cells,
                forall|j: int| 0 <= j < i ==> self@[j] == 0,
            decreases cells - i,
        {
            self.pixels.set(i, 0);
            i += 1;
        }
        let behind: usize = self.rest.len();
        let mut j: usize = 0;
        while j < behind
            invariant
                self.wf(),
                self.same_layout(old(self)),
                self@.len() == old(self)@.len(),
                behind == self.spec_rest().len(),
                self.spec_rest().len() == old(self).spec_rest().len(),
                j <= behind,
                forall|k: int| 0 <= k < self@.len() ==> self@[k] == 0,
                forall|k: int| 0 <= k < j ==> self.spec_rest()[k] == 0,
            decreases behind - j,
        {
            self.rest.set(j, 0);
            j += 1;
        }
        assert forall|x: int, y: int|
            0 <= x < self.spec_stride() && 0 <= y < self.spec_height() implies #[trigger] self.spec_pixel(
            x,
            y,
        ) == 0 by {
            self.lemma_cell_in_buffer(x, y);
        }
    }
}

/// After a blit, a pixel holds the colour of the source pixel that maps to it
/// and that no later source pixel in scan order maps to; a pixel that no
/// source pixel maps to holds what it held before.
pub proof fn lemma_blit_last_write_wins(
    after: &Framebuffer,
    before: &Framebuffer,
    buf: Seq<u8>,
    scaling: Scaling,
    x: int,
    y: int,
)
    requires
        after.blitted(before, buf, scaling, scaling.count()),
        0 <= x < after.spec_stride(),
        0 <= y < after.spec_height(),
    ensures
        forall|k: int|
            0 <= k < scaling.count() && #[trigger] scaling.target(k) == Some((x, y)) && (forall|
                later: int,
            |
                k < later < scaling.count() ==> #[trigger] scaling.target(later) != Some((x, y)))
                ==> after.spec_pixel(x, y) == source_colour(buf, k),
        (forall|k: int| 0 <= k < scaling.count() ==> #[trigger] scaling.target(k) != Some((x, y)))
            ==> after.spec_pixel(x, y) == before.spec_pixel(x, y),
{
    scaling.lemma_last_source(scaling.count(), x, y);
    assert(after.spec_pixel(x, y) == (match scaling.last_source(scaling.count(), x, y) {
        Some(k) => source_colour(buf, k),
        None => before.spec_pixel(x, y),
    }));
}

} // verus!
