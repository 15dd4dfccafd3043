//! Decisions of the capture stream: which format announcements are taken
//! over, which formats are offered, and how every received buffer is
//! described by a [`BufferContext`].

use vstd::prelude::*;
use crate::pixel::{BufferContext, VideoFormat, format_bytes_per_pixel, stride_magnitude};

verus! {

/// The negotiated raw video format: pixel format and frame size.
#[derive(Clone, Copy, Debug, PartialEq, Eq, Structural)]
pub struct VideoInfo {
    pub format: VideoFormat,
    pub width: u32,
    pub height: u32,
}

impl Default for VideoInfo {
    /// Nothing negotiated yet: unknown format, empty frame.
    fn default() -> (r: VideoInfo)
        ensures
            r == (VideoInfo { format: VideoFormat::Unknown, width: 0, height: 0 }),
    {
        VideoInfo { format: VideoFormat::Unknown, width: 0, height: 0 }
    }
}

/// Kind of a stream parameter that changed.
#[derive(Clone, Copy, Debug, PartialEq, Eq, Structural)]
pub enum ParamType {
    /// The negotiated format.
    Format,
    /// The formats a stream offers to negotiate.
    EnumFormat,
    Other(u32),
}

/// Media type announced by a format parameter.
#[derive(Clone, Copy, Debug, PartialEq, Eq, Structural)]
pub enum MediaType {
    Video,
    Other(u32),
}

/// Media subtype announced by a format parameter.
#[derive(Clone, Copy, Debug, PartialEq, Eq, Structural)]
pub enum MediaSubtype {
    Raw,
    Other(u32),
}

/// What was read out of a changed format parameter.
#[derive(Clone, Copy, Debug)]
pub struct FormatParam {
    /// Media type and subtype, or `None` when they could not be read.
    pub media: Option<(MediaType, MediaSubtype)>,
    /// The video description as it stands after reading the raw video
    /// fields over the current one.
    pub parsed: VideoInfo,
    /// Whether reading the raw video fields succeeded.
    pub parse_ok: bool,
}

/// What a parameter change did to the negotiated format.
#[derive(Clone, Copy, Debug, PartialEq, Eq, Structural)]
pub enum FormatChange {
    /// Not a raw video format announcement: nothing changed.
    Ignored,
    /// A raw video format whose fields could not be read.
    ParseFailed,
    /// The negotiated format was replaced.
    Updated,
}

/// Layout of the first data chunk of a received buffer.
#[derive(Clone, Copy, Debug, PartialEq, Eq, Structural)]
pub struct ChunkInfo {
    pub offset: u32,
    pub stride: i32,
}

/// Bytes a buffer holds when it covers the chunk offset and all rows of
/// the frame.
pub open spec fn min_needed(format: VideoInfo, chunk: ChunkInfo) -> int {
    chunk.offset + stride_magnitude(chunk.stride) * format.height
}

/// The layout that describes a buffer of the given chunk and format.
pub open spec fn frame_context(format: VideoInfo, chunk: ChunkInfo) -> BufferContext {
    BufferContext {
        offset: chunk.offset as usize,
        stride: chunk.stride,
        width: format.width,
        height: format.height,
        format: format.format,
    }
}

/// A parameter change is taken over when it is a raw video format
/// announcement.
pub open spec fn is_raw_video_format(id: ParamType, param: Option<FormatParam>) -> bool {
    &&& id == ParamType::Format
    &&& param matches Some(p)
    &&& p.media == Some((MediaType::Video, MediaSubtype::Raw))
}

/// Take over a changed stream parameter: a raw video format announcement
/// replaces the negotiated format with what was read from it; anything else
/// leaves it as it is.
pub fn on_format_changed(format: &mut VideoInfo, id: ParamType, param: Option<FormatParam>) -> (r: FormatChange)
    ensures
        is_raw_video_format(id, param) ==> *final(format) == param.unwrap().parsed,
        !is_raw_video_format(id, param) ==> *final(format) == *old(format),
        r == (if !is_raw_video_format(id, param) {
            FormatChange::Ignored
        } else if param.unwrap().parse_ok {
            FormatChange::Updated
        } else {
            FormatChange::ParseFailed
        }),
{
    let p = match param {
        Some(p) => p,
        None => return FormatChange::Ignored,
    };
    match id {
        ParamType::Format => {},
        _ => return FormatChange::Ignored,
    }
    match p.media {
        Some((MediaType::Video, MediaSubtype::Raw)) => {},
        _ => return FormatChange::Ignored,
    }
    *format = p.parsed;
    if p.parse_ok {
        FormatChange::Updated
    } else {
        FormatChange::ParseFailed
    }
}

/// The pixel formats the stream offers, in the order they are announced:
/// the first is the preferred default, the rest are the alternatives.
pub open spec fn offered_format_list() -> Seq<VideoFormat> {
    seq![VideoFormat::RGBA, VideoFormat::RGBA, VideoFormat::RGBx, VideoFormat::BGRx, VideoFormat::RGB]
}

/// The format parameter a stream offers when it connects.
#[derive(Clone, Debug)]
pub struct FormatOffer {
    /// The kind of parameter: the formats offered to negotiate.
    pub id: ParamType,
    /// The media type offered.
    pub media_type: MediaType,
    /// The media subtype offered.
    pub media_subtype: MediaSubtype,
    /// The preferred pixel format.
    pub default: VideoFormat,
    /// The pixel formats to choose from.
    pub alternatives: Vec<VideoFormat>,
}

/// The format parameter the stream offers: raw video, in one of the
/// [`offered_format_list`] pixel formats, the first of which is preferred.
pub fn format_offer() -> (r: FormatOffer)
    ensures
        r.id == ParamType::EnumFormat,
        r.media_type == MediaType::Video,
        r.media_subtype == MediaSubtype::Raw,
        r.default == VideoFormat::RGBA,
        r.alternatives@ == seq![VideoFormat::RGBA, VideoFormat::RGBx, VideoFormat::BGRx, VideoFormat::RGB],
        seq![r.default] + r.alternatives@ == offered_format_list(),
{
    let mut alternatives: Vec<VideoFormat> = Vec::new();
    alternatives.push(VideoFormat::RGBA);
    alternatives.push(VideoFormat::RGBx);
    alternatives.push(VideoFormat::BGRx);
    alternatives.push(VideoFormat::RGB);
    let r = FormatOffer {
        id: ParamType::EnumFormat,
        media_type: MediaType::Video,
        media_subtype: MediaSubtype::Raw,
        default: VideoFormat::RGBA,
        alternatives,
    };
    assert(seq![r.default] + r.alternatives@ =~= offered_format_list());
    r
}

/// Describe a received buffer: its layout together with a copy of its
/// bytes. Every mapped buffer is described, also one shorter than its rows
/// need; sampling such a buffer answers `None` for the pixels whose bytes
/// are missing.
pub fn on_process_frame(format: &VideoInfo, chunk: &ChunkInfo, bytes: &[u8]) -> (r: (BufferContext, Vec<u8>))
    ensures
        r.0 == frame_context(*format, *chunk),
        r.0.format == format.format,
        r.0.width == format.width,
        r.0.height == format.height,
        r.0.offset == chunk.offset,
        r.0.stride == chunk.stride,
        r.1@ == bytes@,
{
    let ctx = BufferContext {
        offset: chunk.offset as usize,
        stride: chunk.stride,
        width: format.width,
        height: format.height,
        format: format.format,
    };
    let data = vstd::slice::slice_to_vec(bytes);
    (ctx, data)
}

/// A parameter change is taken over exactly when it is a change of the
/// negotiated format whose parameter announces raw video.
pub proof fn lemma_taken_over_only_raw_video(id: ParamType, param: Option<FormatParam>)
    ensures
        is_raw_video_format(id, param) <==> (id == ParamType::Format && param is Some && param.unwrap().media
            == Some((MediaType::Video, MediaSubtype::Raw))),
{
}

/// A described buffer keeps the negotiated pixel format and frame size and
/// the chunk's offset and stride.
pub proof fn lemma_frame_keeps_layout(format: VideoInfo, chunk: ChunkInfo)
    ensures
        frame_context(format, chunk).format == format.format,
        frame_context(format, chunk).width == format.width,
        frame_context(format, chunk).height == format.height,
        frame_context(format, chunk).offset == chunk.offset,
        frame_context(format, chunk).stride == chunk.stride,
{
}

/// Every format the stream offers is one whose pixels can be sampled.
pub proof fn lemma_offered_formats_are_samplable(i: int)
    requires
        0 <= i < offered_format_list().len(),
    ensures
        format_bytes_per_pixel(offered_format_list()[i]) is Some,
{
}

/// A buffer that covers the chunk offset and all rows of a negotiated
/// packed format, whose nonzero stride spans at least one row of pixels,
/// can be sampled at every pixel of the frame.
pub proof fn lemma_accepted_frame_samples_everywhere(
    format: VideoInfo,
    chunk: ChunkInfo,
    bytes: Seq<u8>,
    x: u32,
    y: u32,
)
    requires
        bytes.len() <= usize::MAX,
        bytes.len() >= min_needed(format, chunk),
        chunk.stride != 0,
        format_bytes_per_pixel(format.format) is Some,
        format.width * format_bytes_per_pixel(format.format).unwrap() <= stride_magnitude(chunk.stride),
        x < format.width,
        y < format.height,
    ensures
        frame_context(format, chunk).index_fits(x, y),
        frame_context(format, chunk).spec_sample(bytes, x, y) is Some,
{
    let ctx = frame_context(format, chunk);
    let bpp = format_bytes_per_pixel(format.format).unwrap() as int;
    let s = stride_magnitude(chunk.stride) as int;
    let row = ctx.spec_src_row(y) as int;
    let h = format.height as int;
    assert(row <= h - 1);
    assert(x * bpp + bpp <= format.width * bpp) by (nonlinear_arith)
        requires x < format.width, bpp >= 0;
    assert(row * s + s <= h * s) by (nonlinear_arith)
        requires row <= h - 1, s >= 0;
    assert(row * s >= 0) by (nonlinear_arith)
        requires row >= 0, s >= 0;
    assert(ctx.spec_row_stride(bpp as usize) == s);
    assert(h * s == s * h) by (nonlinear_arith);
    assert(ctx.offset == chunk.offset);
    assert(min_needed(format, chunk) == chunk.offset + h * s);
    assert(ctx.pixel_index(x, y, bpp as usize) + bpp <= chunk.offset + h * s);
    assert(ctx.pixel_index(x, y, bpp as usize) + bpp <= bytes.len());
}

} // verus!
