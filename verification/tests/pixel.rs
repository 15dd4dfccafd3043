use pixel_probe::pixel::{BufferContext, Rgba, VideoFormat};

#[test]
fn sample_rgba() {
    let ctx = BufferContext {
        offset: 0,
        stride: 8,
        width: 2,
        height: 2,
        format: VideoFormat::RGBA,
    };
    let buf = vec![
        255, 0, 0, 255, 0, 255, 0, 255, 0, 0, 255, 255, 128, 128, 128, 255,
    ];
    assert_eq!(ctx.sample_pixel(&buf, 0, 0), Some(Rgba([255, 0, 0, 255])));
    assert_eq!(ctx.sample_pixel(&buf, 1, 1), Some(Rgba([128, 128, 128, 255])));
}

#[test]
fn sample_bgrx() {
    let ctx = BufferContext {
        offset: 0,
        stride: 8,
        width: 2,
        height: 1,
        format: VideoFormat::BGRx,
    };
    let buf = vec![0, 0, 255, 255, 255, 0, 0, 255];
    assert_eq!(ctx.sample_pixel(&buf, 0, 0), Some(Rgba([255, 0, 0, 255])));
}

#[test]
fn sample_rgb() {
    let ctx = BufferContext {
        offset: 0,
        stride: 6,
        width: 2,
        height: 1,
        format: VideoFormat::RGB,
    };
    let buf = vec![255, 0, 0, 0, 255, 0];
    assert_eq!(ctx.sample_pixel(&buf, 1, 0), Some(Rgba([0, 255, 0, 255])));
}

#[test]
fn out_of_bounds() {
    let ctx = BufferContext {
        offset: 0,
        stride: 4,
        width: 1,
        height: 1,
        format: VideoFormat::RGBA,
    };
    let buf = vec![255; 4];
    assert!(ctx.sample_pixel(&buf, 0, 1).is_none());
}

#[test]
fn unsupported_format() {
    let ctx = BufferContext {
        offset: 0,
        stride: 4,
        width: 1,
        height: 1,
        format: VideoFormat::I420,
    };
    let buf = vec![255; 4];
    assert!(ctx.sample_pixel(&buf, 0, 0).is_none());
}

#[test]
fn negative_stride() {
    let ctx = BufferContext {
        offset: 0,
        stride: -4,
        width: 1,
        height: 2,
        format: VideoFormat::RGBA,
    };
    let buf = vec![0, 255, 0, 255, 255, 0, 0, 255];
    assert_eq!(ctx.sample_pixel(&buf, 0, 0), Some(Rgba([255, 0, 0, 255])));
    assert_eq!(ctx.sample_pixel(&buf, 0, 1), Some(Rgba([0, 255, 0, 255])));
}

fn ctx(offset: usize, stride: i32, width: u32, height: u32, format: VideoFormat) -> BufferContext {
    BufferContext { offset, stride, width, height, format }
}

#[test]
fn bytes_per_pixel_by_format() {
    assert_eq!(ctx(0, 0, 1, 1, VideoFormat::RGB).bytes_per_pixel(), Some(3));
    assert_eq!(ctx(0, 0, 1, 1, VideoFormat::RGBA).bytes_per_pixel(), Some(4));
    assert_eq!(ctx(0, 0, 1, 1, VideoFormat::RGBx).bytes_per_pixel(), Some(4));
    assert_eq!(ctx(0, 0, 1, 1, VideoFormat::BGRx).bytes_per_pixel(), Some(4));
    assert_eq!(ctx(0, 0, 1, 1, VideoFormat::I420).bytes_per_pixel(), None);
    assert_eq!(ctx(0, 0, 1, 1, VideoFormat::Unknown).bytes_per_pixel(), None);
    assert_eq!(ctx(0, 0, 1, 1, VideoFormat::Other(42)).bytes_per_pixel(), None);
}

#[test]
fn row_stride_packed_when_zero() {
    assert_eq!(ctx(0, 0, 5, 1, VideoFormat::RGB).row_stride(3), 15);
    assert_eq!(ctx(0, 32, 5, 1, VideoFormat::RGB).row_stride(3), 32);
    assert_eq!(ctx(0, -32, 5, 1, VideoFormat::RGB).row_stride(3), 32);
    assert_eq!(ctx(0, i32::MIN, 5, 1, VideoFormat::RGB).row_stride(3), 2147483648);
}

#[test]
fn src_row_flips_for_negative_stride() {
    let down = ctx(0, 4, 1, 3, VideoFormat::RGBA);
    let up = ctx(0, -4, 1, 3, VideoFormat::RGBA);
    assert_eq!(down.src_row(0), 0);
    assert_eq!(down.src_row(2), 2);
    assert_eq!(up.src_row(0), 2);
    assert_eq!(up.src_row(2), 0);
    assert_eq!(up.src_row(7), 0);
    assert_eq!(ctx(0, -4, 1, 0, VideoFormat::RGBA).src_row(0), 0);
}

#[test]
fn offset_is_honoured() {
    let c = ctx(3, 0, 1, 1, VideoFormat::RGBx);
    let buf = vec![9, 9, 9, 10, 20, 30, 40];
    assert_eq!(c.sample_pixel(&buf, 0, 0), Some(Rgba([10, 20, 30, 255])));
}

#[test]
fn short_buffer_is_none() {
    let c = ctx(0, 8, 2, 1, VideoFormat::RGBA);
    let buf = vec![1, 2, 3, 4, 5, 6, 7];
    assert_eq!(c.sample_pixel(&buf, 0, 0), Some(Rgba([1, 2, 3, 4])));
    assert!(c.sample_pixel(&buf, 1, 0).is_none());
}

#[test]
fn x_out_of_frame_is_none() {
    let c = ctx(0, 4, 1, 1, VideoFormat::RGBA);
    let buf = vec![1; 64];
    assert!(c.sample_pixel(&buf, 1, 0).is_none());
}

#[test]
fn no_alpha_formats_are_opaque() {
    let buf = vec![1, 2, 3, 4];
    for f in [VideoFormat::RGB, VideoFormat::RGBx, VideoFormat::BGRx] {
        let p = ctx(0, 0, 1, 1, f).sample_pixel(&buf, 0, 0).unwrap();
        assert_eq!(p.0[3], 255);
    }
    assert_eq!(ctx(0, 0, 1, 1, VideoFormat::RGBA).sample_pixel(&buf, 0, 0), Some(Rgba([1, 2, 3, 4])));
}

#[test]
fn bgrx_swaps_red_and_blue_of_rgbx() {
    let buf = vec![1, 2, 3, 4, 5, 6, 7, 8];
    let bgrx = ctx(0, 0, 2, 1, VideoFormat::BGRx).sample_pixel(&buf, 1, 0).unwrap();
    let rgbx = ctx(0, 0, 2, 1, VideoFormat::RGBx).sample_pixel(&buf, 1, 0).unwrap();
    assert_eq!(bgrx, Rgba([7, 6, 5, 255]));
    assert_eq!(rgbx, Rgba([5, 6, 7, 255]));
}

#[test]
fn negative_stride_mirrors_positive() {
    let buf: Vec<u8> = (0..24).collect();
    let up = ctx(0, -8, 2, 3, VideoFormat::RGBA);
    let down = ctx(0, 8, 2, 3, VideoFormat::RGBA);
    for y in 0..3u32 {
        for x in 0..2u32 {
            assert_eq!(up.sample_pixel(&buf, x, y), down.sample_pixel(&buf, x, 2 - y));
        }
    }
}

#[test]
fn index_range_check() {
    let c = ctx(usize::MAX - 4, 4, 1, 1, VideoFormat::RGBA);
    assert!(c.index_in_range(0, 0));
    let c = ctx(usize::MAX - 3, 4, 1, 1, VideoFormat::RGBA);
    assert!(!c.index_in_range(0, 0));
    assert!(c.index_in_range(5, 0));
    let c = ctx(usize::MAX, 4, 1, 1, VideoFormat::I420);
    assert!(c.index_in_range(0, 0));
}

#[test]
fn whole_frame_matches_single_samples() {
    let buf: Vec<u8> = (0..26).collect();
    let c = ctx(2, -8, 2, 3, VideoFormat::BGRx);
    let img = c.to_rgba_image(&buf).unwrap();
    assert_eq!(img.width, 2);
    assert_eq!(img.height, 3);
    assert_eq!(img.pixels.len(), 6);
    for y in 0..3u32 {
        for x in 0..2u32 {
            assert_eq!(Some(img.pixels[(y * 2 + x) as usize]), c.sample_pixel(&buf, x, y));
        }
    }
    assert_eq!(img.pixels[0], Rgba([20, 19, 18, 255]));
}

#[test]
fn whole_frame_needs_every_pixel() {
    let buf: Vec<u8> = (0..25).collect();
    let c = ctx(2, -8, 2, 3, VideoFormat::BGRx);
    assert!(c.to_rgba_image(&buf).is_none());
    let unsupported = ctx(0, 4, 1, 1, VideoFormat::I420);
    assert!(unsupported.to_rgba_image(&[0, 0, 0, 0]).is_none());
}

#[test]
fn empty_frame_is_empty_image() {
    let img = ctx(0, 0, 0, 0, VideoFormat::Unknown).to_rgba_image(&[]).unwrap();
    assert!(img.pixels.is_empty());
}
