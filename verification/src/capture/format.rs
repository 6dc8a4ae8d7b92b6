//! Formats that a capture asks for.

use vstd::prelude::*;

use crate::capture::frame::PixelFormat;

verus! {

/// Pixel formats of video streams.
#[derive(Debug, Clone, Copy, PartialEq, Eq, Structural)]
pub enum VideoFormat {
    Bgra,
    Rgba,
    Bgrx,
    Rgbx,
    Abgr210Le,
    Xbgr210Le,
    Other,
}

impl From<VideoFormat> for PixelFormat {
    fn from(format: VideoFormat) -> (pixels: Self) {
        match format {
            VideoFormat::Bgra => PixelFormat::Bgra,
            VideoFormat::Rgba => PixelFormat::Rgba,
            VideoFormat::Bgrx => PixelFormat::Bgrx,
            VideoFormat::Rgbx => PixelFormat::Rgbx,
            _ => PixelFormat::Unknown,
        }
    }
}

impl vstd::std_specs::convert::FromSpecImpl<VideoFormat> for PixelFormat {
    open spec fn obeys_from_spec() -> bool {
        true
    }

    open spec fn from_spec(format: VideoFormat) -> PixelFormat {
        match format {
            VideoFormat::Bgra => PixelFormat::Bgra,
            VideoFormat::Rgba => PixelFormat::Rgba,
            VideoFormat::Bgrx => PixelFormat::Bgrx,
            VideoFormat::Rgbx => PixelFormat::Rgbx,
            _ => PixelFormat::Unknown,
        }
    }
}

/// Four-character codes of the Direct Rendering Manager.
pub const FOURCC_ARGB8888: u32 = 0x34325241;

pub const FOURCC_ABGR8888: u32 = 0x34324241;

pub const FOURCC_XRGB8888: u32 = 0x34325258;

pub const FOURCC_XBGR8888: u32 = 0x34324258;

pub const FOURCC_ABGR2101010: u32 = 0x30334241;

pub const FOURCC_XBGR2101010: u32 = 0x30334258;

/// The video format of a four-character code, if there is one.
pub open spec fn format_of(fourcc: u32) -> Option<VideoFormat> {
    if fourcc == FOURCC_ARGB8888 {
        Some(VideoFormat::Bgra)
    } else if fourcc == FOURCC_ABGR8888 {
        Some(VideoFormat::Rgba)
    } else if fourcc == FOURCC_XRGB8888 {
        Some(VideoFormat::Bgrx)
    } else if fourcc == FOURCC_XBGR8888 {
        Some(VideoFormat::Rgbx)
    } else if fourcc == FOURCC_ABGR2101010 {
        Some(VideoFormat::Abgr210Le)
    } else if fourcc == FOURCC_XBGR2101010 {
        Some(VideoFormat::Xbgr210Le)
    } else {
        None
    }
}

/// The video format of a supported four-character code.
pub fn fourcc_to_spa(fourcc: u32) -> (format: VideoFormat)
    requires
        format_of(fourcc) is Some,
    ensures
        format_of(fourcc) == Some(format),
{
    if fourcc == FOURCC_ARGB8888 {
        VideoFormat::Bgra
    } else if fourcc == FOURCC_ABGR8888 {
        VideoFormat::Rgba
    } else if fourcc == FOURCC_XRGB8888 {
        VideoFormat::Bgrx
    } else if fourcc == FOURCC_XBGR8888 {
        VideoFormat::Rgbx
    } else if fourcc == FOURCC_ABGR2101010 {
        VideoFormat::Abgr210Le
    } else {
        VideoFormat::Xbgr210Le
    }
}

/// A modifier as the signed number with the same bits.
pub open spec fn same_bits_i64(modifier: u64) -> i64 {
    if modifier < 0x8000_0000_0000_0000 {
        modifier as i64
    } else {
        (modifier - 0x1_0000_0000_0000_0000) as i64
    }
}

fn to_signed(modifier: u64) -> (bits: i64)
    ensures
        bits == same_bits_i64(modifier),
{
    if modifier < 0x8000_0000_0000_0000 {
        modifier as i64
    } else {
        (modifier as i128 - 0x1_0000_0000_0000_0000) as i64
    }
}

/// What a stream carries.
#[derive(Debug, Clone, Copy, PartialEq, Eq, Structural)]
pub enum MediaType {
    Audio,
    Video,
}

/// How a stream carries it.
#[derive(Debug, Clone, Copy, PartialEq, Eq, Structural)]
pub enum MediaSubtype {
    /// As it is.
    Raw,
    /// As an H.264 stream.
    H264,
}

/// The formats that a capture offers to take: raw video in one of the formats,
/// the preferred one first, with one of the modifiers where any are given. The
/// modifier is mandatory and is not to be fixed before the buffers are
/// allocated.
#[derive(Debug, Clone, PartialEq, Eq)]
pub struct FormatParams {
    pub media_type: MediaType,
    pub media_subtype: MediaSubtype,
    pub preferred: VideoFormat,
    pub formats: Vec<VideoFormat>,
    pub modifiers: Option<ModifierChoice>,
}

/// A choice among modifiers.
#[derive(Debug, Clone, PartialEq, Eq)]
pub struct ModifierChoice {
    pub preferred: i64,
    pub alternatives: Vec<i64>,
}

/// Whether parameters can be made: the format is supported, and at least one
/// modifier is given.
pub open spec fn can_offer(format: Option<(u32, &Vec<u64>)>) -> bool {
    format matches Some((fourcc, modifiers)) ==> format_of(fourcc) is Some && modifiers@.len() > 0
}

/// The formats to offer: the given one with its modifiers, or else every
/// format with four bytes per pixel.
pub fn get_format_params(format: Option<(u32, &Vec<u64>)>) -> (params: FormatParams)
    requires
        can_offer(format),
    ensures
        params.media_type == MediaType::Video,
        params.media_subtype == MediaSubtype::Raw,
        match format {
            Some((fourcc, modifiers)) => {
                &&& params.preferred == format_of(fourcc)->Some_0
                &&& params.formats@ == seq![params.preferred]
                &&& params.modifiers matches Some(choice)
                &&& choice.preferred == same_bits_i64(modifiers@[0])
                &&& choice.alternatives@ == modifiers@.map_values(|m: u64| same_bits_i64(m))
            },
            None => {
                &&& params.preferred == VideoFormat::Bgra
                &&& params.formats@ == seq![
                    VideoFormat::Bgra,
                    VideoFormat::Rgba,
                    VideoFormat::Bgrx,
                    VideoFormat::Rgbx,
                ]
                &&& params.modifiers is None
            },
        },
{
    match format {
        Some((fourcc, modifiers)) => {
            let preferred: VideoFormat = fourcc_to_spa(fourcc);
            let mut alternatives: Vec<i64> = Vec::new();
            let mut i: usize = 0;
            while i < modifiers.len()
                invariant
                    i <= modifiers@.len(),
                    alternatives@.len() == i,
                    forall|j: int|
                        0 <= j < i ==> #[trigger] alternatives@[j] == same_bits_i64(modifiers@[j]),
                decreases modifiers@.len() - i,
            {
                alternatives.push(to_signed(modifiers[i]));
                i = i + 1;
            }
            assert(alternatives@ =~= modifiers@.map_values(|m: u64| same_bits_i64(m)));
            let formats: Vec<VideoFormat> = vec![preferred];
            assert(formats@ =~= seq![preferred]);
            FormatParams {
                media_type: MediaType::Video,
                media_subtype: MediaSubtype::Raw,
                preferred,
                formats,
                modifiers: Some(
                    ModifierChoice { preferred: to_signed(modifiers[0]), alternatives },
                ),
            }
        },
        None => {
            let formats: Vec<VideoFormat> = vec![
                VideoFormat::Bgra,
                VideoFormat::Rgba,
                VideoFormat::Bgrx,
                VideoFormat::Rgbx,
            ];
            assert(formats@ =~= seq![
                VideoFormat::Bgra,
                VideoFormat::Rgba,
                VideoFormat::Bgrx,
                VideoFormat::Rgbx,
            ]);
            FormatParams {
                media_type: MediaType::Video,
                media_subtype: MediaSubtype::Raw,
                preferred: VideoFormat::Bgra,
                formats,
                modifiers: None,
            }
        },
    }
}

/// Every format that a capture offers on its own is one whose pixels are
/// known.
pub proof fn offered_formats_are_known(format: VideoFormat)
    requires
        seq![
            VideoFormat::Bgra,
            VideoFormat::Rgba,
            VideoFormat::Bgrx,
            VideoFormat::Rgbx,
        ].contains(format),
    ensures
        <PixelFormat as vstd::std_specs::convert::FromSpec<VideoFormat>>::from_spec(format)
            != PixelFormat::Unknown,
{
}

/// A modifier keeps its bits as a signed number: it is the same number, or less by
/// 2^64.
pub proof fn modifiers_keep_their_bits(modifier: u64)
    ensures
        modifier <= i64::MAX ==> same_bits_i64(modifier) == modifier,
        modifier > i64::MAX ==> same_bits_i64(modifier) == modifier - 0x1_0000_0000_0000_0000,
{
}

/// A four-character code names the bytes of a pixel from the highest to the lowest,
/// so that a format of the stream names them the other way round; anything but the
/// six known codes names no format.
pub proof fn codes_name_formats(fourcc: u32)
    ensures
        format_of(fourcc) == Some(VideoFormat::Bgra) <==> fourcc == 0x34325241,
        format_of(fourcc) == Some(VideoFormat::Rgba) <==> fourcc == 0x34324241,
        format_of(fourcc) == Some(VideoFormat::Bgrx) <==> fourcc == 0x34325258,
        format_of(fourcc) == Some(VideoFormat::Rgbx) <==> fourcc == 0x34324258,
        format_of(fourcc) == Some(VideoFormat::Abgr210Le) <==> fourcc == 0x30334241,
        format_of(fourcc) == Some(VideoFormat::Xbgr210Le) <==> fourcc == 0x30334258,
        format_of(fourcc) != Some(VideoFormat::Other),
{
}

} // verus!
