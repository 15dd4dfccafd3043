use pixel_probe::frame::{
    format_offer, on_format_changed, on_process_frame, ChunkInfo, FormatChange, FormatParam,
    MediaSubtype, MediaType, ParamType, VideoInfo,
};
use pixel_probe::pixel::{Rgba, VideoFormat};

fn info(format: VideoFormat, width: u32, height: u32) -> VideoInfo {
    VideoInfo { format, width, height }
}

fn raw_video(parsed: VideoInfo, parse_ok: bool) -> FormatParam {
    FormatParam { media: Some((MediaType::Video, MediaSubtype::Raw)), parsed, parse_ok }
}

#[test]
fn default_format_is_unset() {
    assert_eq!(VideoInfo::default(), info(VideoFormat::Unknown, 0, 0));
}

#[test]
fn raw_video_format_is_taken_over() {
    let mut f = VideoInfo::default();
    let r = on_format_changed(&mut f, ParamType::Format, Some(raw_video(info(VideoFormat::BGRx, 1920, 1080), true)));
    assert_eq!(r, FormatChange::Updated);
    assert_eq!(f, info(VideoFormat::BGRx, 1920, 1080));
}

#[test]
fn missing_param_is_ignored() {
    let mut f = info(VideoFormat::RGB, 4, 4);
    assert_eq!(on_format_changed(&mut f, ParamType::Format, None), FormatChange::Ignored);
    assert_eq!(f, info(VideoFormat::RGB, 4, 4));
}

#[test]
fn other_param_is_ignored() {
    let mut f = info(VideoFormat::RGB, 4, 4);
    let r = on_format_changed(&mut f, ParamType::Other(5), Some(raw_video(info(VideoFormat::RGBA, 8, 8), true)));
    assert_eq!(r, FormatChange::Ignored);
    assert_eq!(f, info(VideoFormat::RGB, 4, 4));
}

#[test]
fn non_raw_video_is_ignored() {
    let mut f = info(VideoFormat::RGB, 4, 4);
    let cases = [
        None,
        Some((MediaType::Other(1), MediaSubtype::Raw)),
        Some((MediaType::Video, MediaSubtype::Other(0x20001))),
    ];
    for media in cases {
        let p = FormatParam { media, parsed: info(VideoFormat::RGBA, 8, 8), parse_ok: true };
        assert_eq!(on_format_changed(&mut f, ParamType::Format, Some(p)), FormatChange::Ignored);
        assert_eq!(f, info(VideoFormat::RGB, 4, 4));
    }
}

#[test]
fn failed_parse_is_reported() {
    let mut f = info(VideoFormat::RGB, 4, 4);
    let r = on_format_changed(&mut f, ParamType::Format, Some(raw_video(info(VideoFormat::RGB, 4, 6), false)));
    assert_eq!(r, FormatChange::ParseFailed);
    assert_eq!(f, info(VideoFormat::RGB, 4, 6));
}

#[test]
fn offered_parameter_is_raw_video_preferring_rgba() {
    let offer = format_offer();
    assert_eq!(offer.id, ParamType::EnumFormat);
    assert_eq!(offer.media_type, MediaType::Video);
    assert_eq!(offer.media_subtype, MediaSubtype::Raw);
    assert_eq!(offer.default, VideoFormat::RGBA);
    assert_eq!(
        offer.alternatives,
        vec![VideoFormat::RGBA, VideoFormat::RGBx, VideoFormat::BGRx, VideoFormat::RGB]
    );
}

#[test]
fn offered_formats_are_all_samplable() {
    let buf = vec![1, 2, 3, 4];
    let offer = format_offer();
    for f in std::iter::once(offer.default).chain(offer.alternatives) {
        let ctx = pixel_probe::pixel::BufferContext { offset: 0, stride: 4, width: 1, height: 1, format: f };
        assert!(ctx.bytes_per_pixel().is_some());
        assert!(ctx.sample_pixel(&buf, 0, 0).is_some());
    }
}

#[test]
fn enum_format_param_is_ignored() {
    let mut f = info(VideoFormat::RGB, 4, 4);
    let r = on_format_changed(&mut f, ParamType::EnumFormat, Some(raw_video(info(VideoFormat::RGBA, 8, 8), true)));
    assert_eq!(r, FormatChange::Ignored);
    assert_eq!(f, info(VideoFormat::RGB, 4, 4));
}

#[test]
fn frame_large_enough_is_described() {
    let f = info(VideoFormat::RGBA, 2, 2);
    let chunk = ChunkInfo { offset: 2, stride: -8 };
    let bytes: Vec<u8> = (0..18).collect();
    let (ctx, data) = on_process_frame(&f, &chunk, &bytes);
    assert_eq!(ctx.offset, 2);
    assert_eq!(ctx.stride, -8);
    assert_eq!(ctx.width, 2);
    assert_eq!(ctx.height, 2);
    assert_eq!(ctx.format, VideoFormat::RGBA);
    assert_eq!(data, bytes);
    assert_eq!(ctx.sample_pixel(&data, 0, 0), Some(Rgba([10, 11, 12, 13])));
    assert_eq!(ctx.sample_pixel(&data, 1, 1), Some(Rgba([6, 7, 8, 9])));
}

#[test]
fn short_frame_is_passed_on() {
    let f = info(VideoFormat::RGBA, 2, 2);
    let chunk = ChunkInfo { offset: 2, stride: 8 };
    let bytes: Vec<u8> = (0..17).collect();
    let (ctx, data) = on_process_frame(&f, &chunk, &bytes);
    assert_eq!(data, bytes);
    assert_eq!(ctx.offset, 2);
    assert_eq!(ctx.sample_pixel(&data, 0, 0), Some(Rgba([2, 3, 4, 5])));
    assert_eq!(ctx.sample_pixel(&data, 0, 1), Some(Rgba([10, 11, 12, 13])));
    assert!(ctx.sample_pixel(&data, 1, 1).is_none());
}

#[test]
fn unnegotiated_frame_needs_only_offset() {
    let f = VideoInfo::default();
    let chunk = ChunkInfo { offset: 0, stride: 0 };
    let (ctx, data) = on_process_frame(&f, &chunk, &[]);
    assert!(data.is_empty());
    assert!(ctx.sample_pixel(&data, 0, 0).is_none());
}

