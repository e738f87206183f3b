use std::path::PathBuf;

use handheld_frontend::framebuffer::{pack_rgb565, Framebuffer, FramebufferConfig, FramebufferError};
use handheld_frontend::framebuffer::scale::scale_coordinate;
use handheld_frontend::{SCREEN_H, SCREEN_W};

fn config(width: usize, height: usize, stride: usize) -> FramebufferConfig {
    FramebufferConfig {
        path: PathBuf::from("/dev/fb0"),
        width,
        height,
        bytes_per_pixel: 2,
        stride_pixels: stride,
    }
}

fn surface(width: usize, height: usize, stride: usize) -> Framebuffer {
    Framebuffer::new(&config(width, height, stride)).unwrap()
}

fn image(width: usize, height: usize, colour: impl Fn(usize, usize) -> (u8, u8, u8)) -> Vec<u8> {
    let mut buf = Vec::new();
    for y in 0..height {
        for x in 0..width {
            let (r, g, b) = colour(x, y);
            buf.push(r);
            buf.push(g);
            buf.push(b);
        }
    }
    buf
}

#[test]
fn new_surface_is_black_and_sized_by_stride() {
    let fb = surface(3, 2, 4);
    assert_eq!(fb.width(), 3);
    assert_eq!(fb.height(), 2);
    assert_eq!(fb.stride(), 4);
    assert_eq!(fb.pixels().len(), 8);
    assert!(fb.pixels().iter().all(|p| *p == 0));
}

#[test]
fn new_rejects_pixels_narrower_than_16_bits() {
    let mut c = config(4, 4, 4);
    c.bytes_per_pixel = 1;
    assert_eq!(Framebuffer::new(&c).err(), Some(FramebufferError::PixelTooNarrow));
    c.bytes_per_pixel = 0;
    assert_eq!(Framebuffer::new(&c).err(), Some(FramebufferError::PixelTooNarrow));
}

#[test]
fn new_accepts_every_depth_from_two_bytes_on() {
    for depth in [2usize, 3, 4, 8] {
        let mut c = config(3, 2, 4);
        c.bytes_per_pixel = depth;
        let fb = Framebuffer::new(&c).unwrap();
        assert_eq!(fb.width(), 3);
        assert_eq!(fb.height(), 2);
        assert_eq!(fb.stride(), 4);
        assert_eq!(fb.bytes_per_pixel(), depth);
        assert_eq!(fb.size_bytes(), 4 * 2 * depth);
        // the 16-bit pixels lie at the beginning, the rest of the region behind them
        assert_eq!(fb.pixels().len(), 8);
        assert_eq!(fb.rest().len(), 8 * (depth - 2));
        assert!(fb.pixels().iter().all(|p| *p == 0));
        assert!(fb.rest().iter().all(|b| *b == 0));
    }
}

#[test]
fn region_is_sized_by_the_depth_of_the_device() {
    let fb = surface(3, 2, 4);
    assert_eq!(fb.size_bytes(), 16);
    assert_eq!(fb.rest().len(), 0);
    assert_eq!(surface(0, 0, 0).size_bytes(), 0);
    let mut c = config(320, 240, 320);
    c.bytes_per_pixel = 4;
    let fb = Framebuffer::new(&c).unwrap();
    assert_eq!(fb.size_bytes(), 320 * 240 * 4);
    assert_eq!(fb.pixels().len() * 2 + fb.rest().len(), fb.size_bytes());
}

#[test]
fn new_rejects_short_stride() {
    assert_eq!(
        Framebuffer::new(&config(5, 4, 4)).err(),
        Some(FramebufferError::StrideTooSmall)
    );
}

#[test]
fn new_rejects_sizes_beyond_the_address_space() {
    assert_eq!(
        Framebuffer::new(&config(1, usize::MAX, 2)).err(),
        Some(FramebufferError::TooLarge)
    );
    assert_eq!(
        Framebuffer::new(&config(1, usize::MAX / 2 + 1, 1)).err(),
        Some(FramebufferError::TooLarge)
    );
}

#[test]
fn depth_is_checked_before_stride() {
    let mut c = config(5, 4, 4);
    c.bytes_per_pixel = 1;
    assert_eq!(Framebuffer::new(&c).err(), Some(FramebufferError::PixelTooNarrow));
}

#[test]
fn size_counts_the_bytes_of_the_device() {
    let mut c = config(1, usize::MAX / 4 + 1, 1);
    c.bytes_per_pixel = 4;
    assert_eq!(Framebuffer::new(&c).err(), Some(FramebufferError::TooLarge));
    c.bytes_per_pixel = 2;
    c.height = usize::MAX / 2 + 1;
    assert_eq!(Framebuffer::new(&c).err(), Some(FramebufferError::TooLarge));
}

#[test]
fn drawing_leaves_the_rest_of_the_region_alone() {
    let mut c = config(2, 2, 3);
    c.bytes_per_pixel = 4;
    let mut fb = Framebuffer::new(&c).unwrap();
    fb.put_pixel(1, 1, 0xffff);
    fb.blit_scaled(&[255u8; 2 * 2 * 3], 2, 2);
    assert_eq!(fb.pixels().as_slice(), &[0xffff, 0xffff, 0, 0xffff, 0xffff, 0]);
    assert_eq!(fb.rest().as_slice(), &[0u8; 12]);
    fb.zero();
    assert_eq!(fb.pixels().as_slice(), &[0u16; 6]);
    assert_eq!(fb.rest().as_slice(), &[0u8; 12]);
    assert_eq!(fb.size_bytes(), 24);
}

#[test]
fn empty_surface_is_accepted() {
    let fb = surface(0, 0, 0);
    assert_eq!(fb.pixels().len(), 0);
    assert_eq!(fb.pixel(0, 0), None);
}

#[test]
fn put_pixel_writes_row_times_stride_plus_column() {
    let mut fb = surface(3, 3, 5);
    fb.put_pixel(2, 1, 0xabcd);
    assert_eq!(fb.pixel(2, 1), Some(0xabcd));
    assert_eq!(fb.pixels()[1 * 5 + 2], 0xabcd);
    let written = fb.pixels().iter().filter(|p| **p != 0).count();
    assert_eq!(written, 1);
}

#[test]
fn put_pixel_outside_is_skipped() {
    let mut fb = surface(3, 3, 5);
    fb.put_pixel(3, 0, 0xffff);
    fb.put_pixel(4, 0, 0xffff);
    fb.put_pixel(0, 3, 0xffff);
    fb.put_pixel(usize::MAX, usize::MAX, 0xffff);
    assert!(fb.pixels().iter().all(|p| *p == 0));
    assert_eq!(fb.pixel(3, 0), None);
    assert_eq!(fb.pixel(0, 3), None);
}

#[test]
fn zero_clears_the_padding_too() {
    let mut fb = surface(2, 2, 4);
    fb.blit_scaled(&[255u8; 2 * 2 * 3], 2, 2);
    assert_eq!(fb.pixels().as_slice(), &[0xffff, 0xffff, 0, 0, 0xffff, 0xffff, 0, 0]);
    fb.zero();
    assert_eq!(fb.pixels().as_slice(), &[0u16; 8]);
    assert_eq!(fb.pixels().len() * 2 + fb.rest().len(), fb.size_bytes());
}

#[test]
fn zero_clears_every_pixel() {
    let mut fb = surface(4, 3, 6);
    for y in 0..3 {
        for x in 0..4 {
            fb.put_pixel(x, y, 0x1234);
        }
    }
    fb.zero();
    for y in 0..3 {
        for x in 0..4 {
            assert_eq!(fb.pixel(x, y), Some(0));
        }
    }
    assert!(fb.pixels().iter().all(|p| *p == 0));
    assert_eq!(fb.width(), 4);
    assert_eq!(fb.height(), 3);
    assert_eq!(fb.stride(), 6);
}

#[test]
fn rgb565_packing() {
    assert_eq!(pack_rgb565(0, 0, 0), 0x0000);
    assert_eq!(pack_rgb565(255, 255, 255), 0xffff);
    assert_eq!(pack_rgb565(255, 0, 0), 0xf800);
    assert_eq!(pack_rgb565(0, 255, 0), 0x07e0);
    assert_eq!(pack_rgb565(0, 0, 255), 0x001f);
    assert_eq!(pack_rgb565(0x12, 0x34, 0x56), (0x02 << 11) | (0x0d << 5) | 0x0a);
    assert_eq!(pack_rgb565(7, 3, 7), 0);
}

#[test]
fn scale_rounds_to_nearest() {
    assert_eq!(scale_coordinate(72, 240, 144), 120);
    assert_eq!(scale_coordinate(80, 240, 144), 133);
    assert_eq!(scale_coordinate(160, 240, 144), 267);
    assert_eq!(scale_coordinate(1, 2, 4), 1);
    assert_eq!(scale_coordinate(3, 2, 4), 2);
    assert_eq!(scale_coordinate(0, 240, 144), 0);
    assert_eq!(scale_coordinate(5, 7, 7), 5);
}

#[test]
fn scale_example_160_by_144_into_height_240() {
    let mut fb = surface(320, 240, 320);
    let buf = image(SCREEN_W, SCREEN_H, |x, y| if (x, y) == (80, 72) { (255, 0, 0) } else { (0, 0, 0) });
    fb.write(&buf);
    // scaled width 267, offset (320 - 267) / 2 = 26, dx = 133 + 26, dy = 120
    assert_eq!(fb.pixel(159, 120), Some(0xf800));
    let red = fb.pixels().iter().filter(|p| **p == 0xf800).count();
    assert_eq!(red, 1);
}

#[test]
fn write_centres_the_image() {
    let mut fb = surface(320, 240, 320);
    let buf = image(SCREEN_W, SCREEN_H, |_, _| (255, 255, 255));
    fb.write(&buf);
    // columns 26 ..= 291 hold the image: round(159 * 240 / 144) + 26 = 291
    assert_eq!(fb.pixel(25, 0), Some(0));
    assert_eq!(fb.pixel(26, 0), Some(0xffff));
    assert_eq!(fb.pixel(291, 0), Some(0xffff));
    assert_eq!(fb.pixel(292, 0), Some(0));
    // the last source row lands on round(143 * 240 / 144) = 238
    assert_eq!(fb.pixel(26, 238), Some(0xffff));
    assert_eq!(fb.pixel(26, 239), Some(0));
}

#[test]
fn blit_last_source_pixel_in_scan_order_wins() {
    let mut fb = surface(2, 2, 2);
    // colour encodes the source position: red from x, green from y
    let buf = image(4, 4, |x, y| ((x as u8 + 1) << 3, (y as u8 + 1) << 2, 0));
    fb.blit_scaled(&buf, 4, 4);
    let at = |x: u8, y: u8| pack_rgb565((x + 1) << 3, (y + 1) << 2, 0);
    assert_eq!(fb.pixel(0, 0), Some(at(0, 0)));
    assert_eq!(fb.pixel(1, 0), Some(at(2, 0)));
    assert_eq!(fb.pixel(0, 1), Some(at(0, 2)));
    assert_eq!(fb.pixel(1, 1), Some(at(2, 2)));
}

#[test]
fn blit_leaves_unmapped_pixels_as_they_were() {
    let mut fb = surface(6, 4, 8);
    for y in 0..4 {
        for x in 0..6 {
            fb.put_pixel(x, y, 0x5555);
        }
    }
    // 2 by 2 into height 4: scale 2, scaled width 4, offset 1
    let buf = image(2, 2, |x, y| if (x, y) == (1, 1) { (255, 255, 255) } else { (0, 0, 255) });
    fb.blit_scaled(&buf, 2, 2);
    assert_eq!(fb.pixel(1, 0), Some(0x001f));
    assert_eq!(fb.pixel(3, 0), Some(0x001f));
    assert_eq!(fb.pixel(1, 2), Some(0x001f));
    assert_eq!(fb.pixel(3, 2), Some(0xffff));
    let untouched = fb.pixels().iter().filter(|p| **p == 0x5555).count();
    assert_eq!(untouched, 6 * 4 - 4);
    assert_eq!(fb.pixel(0, 0), Some(0x5555));
    assert_eq!(fb.pixel(2, 0), Some(0x5555));
    assert_eq!(fb.pixel(1, 1), Some(0x5555));
}

#[test]
fn blit_drops_columns_of_an_image_wider_than_the_surface() {
    let mut fb = surface(2, 2, 3);
    let buf = image(4, 2, |x, _| ((x as u8 + 1) << 3, 0, 0));
    fb.blit_scaled(&buf, 4, 2);
    // scale 1, scaled width 4, offset (2 - 4) / 2 = -1
    assert_eq!(fb.pixel(0, 0), Some(pack_rgb565(2 << 3, 0, 0)));
    assert_eq!(fb.pixel(1, 0), Some(pack_rgb565(3 << 3, 0, 0)));
    assert_eq!(fb.pixel(0, 1), Some(pack_rgb565(2 << 3, 0, 0)));
    assert_eq!(fb.pixel(1, 1), Some(pack_rgb565(3 << 3, 0, 0)));
    // the padding column is never written
    assert_eq!(fb.pixels()[2], 0);
    assert_eq!(fb.pixels()[5], 0);
}

#[test]
fn blit_offset_of_an_odd_overhang_rounds_towards_zero() {
    let mut fb = surface(2, 1, 2);
    let buf = image(5, 1, |x, _| ((x as u8 + 1) << 3, 0, 0));
    fb.blit_scaled(&buf, 5, 1);
    // scaled width 5, offset -((5 - 2) / 2) = -1
    assert_eq!(fb.pixel(0, 0), Some(pack_rgb565(2 << 3, 0, 0)));
    assert_eq!(fb.pixel(1, 0), Some(pack_rgb565(3 << 3, 0, 0)));
}

#[test]
fn blit_of_an_empty_image_changes_nothing() {
    let mut fb = surface(2, 2, 2);
    fb.put_pixel(1, 1, 7);
    fb.blit_scaled(&[], 0, 0);
    fb.blit_scaled(&[], 0, 5);
    fb.blit_scaled(&[], 5, 0);
    assert_eq!(fb.pixels().as_slice(), &[0, 0, 0, 7]);
}

#[test]
fn blit_onto_a_surface_without_rows_writes_nothing() {
    let mut fb = surface(4, 0, 4);
    let buf = image(2, 2, |_, _| (255, 255, 255));
    fb.blit_scaled(&buf, 2, 2);
    assert_eq!(fb.pixels().len(), 0);
}
