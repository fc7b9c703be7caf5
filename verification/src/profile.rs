//! The video profile: the codec/usage/chroma descriptor every video object
//! is created against.
//!
//! The driver-facing record chains codec-specific and usage records behind
//! a base profile; the values chained are decided here.  Only 8-bit 4:2:0
//! in the two-plane format is offered, and AV1 has no implementation.

use vstd::prelude::*;

verus! {

use crate::settings::Codec;

/// `VK_FORMAT_G8_B8R8_2PLANE_420_UNORM`, the only surface format the
/// recording pipeline converts into.
pub const VIDEO_FORMAT_G8_B8R8_2PLANE_420: u32 = 1_000_156_003;

/// The requested profile cannot be built: AV1, or a chroma/bit-depth
/// request other than 8-bit 4:2:0.
#[derive(Debug, Copy, Clone, PartialEq, Eq, Structural)]
pub enum ProfileError {
    UnsupportedProfile,
}

/// The usage record chained to the base profile: what the stream is for.
#[derive(Debug, Copy, Clone, PartialEq, Eq, Structural)]
pub enum UsageHints {
    Encode { video_usage_hints: u32, video_content_hints: u32, tuning_mode: u32 },
    Decode { video_usage_hints: u32 },
}

/// The codec descriptor chained into every video object's create info.
/// The flag words carry the `VkVideoCodecOperationFlagBitsKHR`,
/// `VkVideoChromaSubsamplingFlagBitsKHR` and
/// `VkVideoComponentBitDepthFlagBitsKHR` values.
#[derive(Debug, Copy, Clone, PartialEq, Eq, Structural)]
pub struct VideoProfile {
    pub is_encode: bool,
    pub codec: Codec,
    pub video_codec_operation: u32,
    pub chroma_subsampling: u32,
    pub luma_bit_depth: u32,
    pub chroma_bit_depth: u32,
    pub usage: UsageHints,
}

/// The codec-operation flag bit for a codec and direction:
/// `ENCODE_H264` 0x10000, `ENCODE_H265` 0x20000, `DECODE_H264` 0x1,
/// `DECODE_H265` 0x2.
pub open spec fn spec_codec_operation(codec: Codec, is_encode: bool) -> u32 {
    match (is_encode, codec) {
        (true, Codec::H264) => 0x10000u32,
        (true, Codec::H265) => 0x20000u32,
        (false, Codec::H264) => 0x1u32,
        (false, Codec::H265) => 0x2u32,
        (_, Codec::AV1) => 0u32,
    }
}

impl VideoProfile {
    /// Build the profile for one direction of one codec.  Succeeds exactly
    /// on the 8-bit 4:2:0 two-plane format with an implemented codec; an
    /// encode profile records rendered content at high quality, a decode
    /// profile is tuned for streaming.
    pub fn new(video_format: u32, codec: Codec, is_encode: bool) -> (r: Result<
        VideoProfile,
        ProfileError,
    >)
        ensures
            r is Ok <==> video_format == VIDEO_FORMAT_G8_B8R8_2PLANE_420 && codec != Codec::AV1,
            r matches Ok(p) ==> {
                &&& p.is_encode == is_encode
                &&& p.codec == codec
                &&& p.video_codec_operation == spec_codec_operation(codec, is_encode)
                &&& p.chroma_subsampling == 0x2u32
                &&& p.luma_bit_depth == 0x1u32
                &&& p.chroma_bit_depth == 0x1u32
                &&& p.usage == (if is_encode {
                    UsageHints::Encode {
                        video_usage_hints: 0x4u32,
                        video_content_hints: 0x4u32,
                        tuning_mode: 1u32,
                    }
                } else {
                    UsageHints::Decode { video_usage_hints: 0x4u32 }
                })
            },
            r is Err ==> r == Err::<VideoProfile, ProfileError>(ProfileError::UnsupportedProfile),
    {
        if video_format != VIDEO_FORMAT_G8_B8R8_2PLANE_420 {
            return Err(ProfileError::UnsupportedProfile);
        }
        let video_codec_operation: u32 = match (is_encode, codec) {
            (true, Codec::H264) => 0x10000,
            (true, Codec::H265) => 0x20000,
            (false, Codec::H264) => 0x1,
            (false, Codec::H265) => 0x2,
            (_, Codec::AV1) => {
                return Err(ProfileError::UnsupportedProfile);
            },
        };
        let usage = if is_encode {
            UsageHints::Encode {
                video_usage_hints: 0x4,
                video_content_hints: 0x4,
                tuning_mode: 1,
            }
        } else {
            UsageHints::Decode { video_usage_hints: 0x4 }
        };
        Ok(
            VideoProfile {
                is_encode,
                codec,
                video_codec_operation,
                chroma_subsampling: 0x2,
                luma_bit_depth: 0x1,
                chroma_bit_depth: 0x1,
                usage,
            },
        )
    }

    /// The base profile record every video object chains.
    pub fn profile(&self) -> (r: &VideoProfile)
        ensures
            r == self,
    {
        self
    }
}

} // verus!
