//! Construction of the parameter sets a fresh video session is populated
//! with, and the fallback stream prelude written when the driver hands back
//! no encoded parameter-set bytes.
//!
//! All values follow the coded extent: macroblock counts round the extent
//! up, and the cropping window trims the rounding back off.

use vstd::prelude::*;

verus! {

use crate::spec_round_up;
use crate::round_up_to_multiple;
use crate::bitio::bytes_of_bits;
use crate::bitstream::H264Pps;
use crate::bitstream::H264Sps;
use crate::bitstream::nal_header_bytes;
use crate::bitstream::pps_payload_bits;
use crate::bitstream::rbsp_trailed;
use crate::bitstream::sps_payload_bits;
use crate::bitstream::write_h264_pps;
use crate::bitstream::write_h264_sps;

/// The SPS/PPS pair an H.264 encode session starts from.
#[derive(Clone, Copy)]
pub struct H264SessionParameters {
    pub sps: H264Sps,
    pub pps: H264Pps,
}

/// Build the H.264 parameter sets for a stream presented at
/// `width x height`: Main profile at level 5.1, 4:2:0, one reference frame,
/// frame-only coding.  The cropping window trims exactly the macroblock
/// rounding back off, so it is empty when the extent is already a multiple
/// of sixteen.
pub fn make_h264_video_session_parameters(width: u32, height: u32) -> (r: H264SessionParameters)
    requires
        1 <= width,
        1 <= height,
        width + 15 <= u32::MAX,
        height + 15 <= u32::MAX,
    ensures
        r.sps.profile_idc == 77,
        r.sps.level_idc_code == 51,
        r.sps.seq_parameter_set_id == 0,
        r.sps.log2_max_frame_num_minus4 == 6,
        r.sps.pic_order_cnt_type == 0,
        r.sps.log2_max_pic_order_cnt_lsb_minus4 == 4,
        r.sps.max_num_ref_frames == 1,
        !r.sps.gaps_in_frame_num_value_allowed_flag,
        r.sps.pic_width_in_mbs_minus1 == ((width + 15) as u32 / 16 - 1) as u32,
        r.sps.pic_height_in_map_units_minus1 == ((height + 15) as u32 / 16 - 1) as u32,
        r.sps.frame_mbs_only_flag,
        !r.sps.mb_adaptive_frame_field_flag,
        r.sps.direct_8x8_inference_flag,
        r.sps.frame_crop_left_offset == 0,
        r.sps.frame_crop_right_offset == ((spec_round_up(width as nat, 16) - width) / 2) as u32,
        r.sps.frame_crop_top_offset == 0,
        r.sps.frame_crop_bottom_offset == ((spec_round_up(height as nat, 16) - height)
            / 2) as u32,
        r.sps.frame_cropping_flag == (r.sps.frame_crop_right_offset != 0
            || r.sps.frame_crop_bottom_offset != 0),
        !r.sps.vui_parameters_present_flag,
        r.pps.pic_parameter_set_id == 0,
        r.pps.seq_parameter_set_id == 0,
        r.pps.entropy_coding_mode_flag,
        r.pps.num_ref_idx_l0_default_active_minus1 == 0,
        r.pps.num_ref_idx_l1_default_active_minus1 == 0,
        !r.pps.weighted_pred_flag,
        r.pps.weighted_bipred_idc == 0,
        r.pps.pic_init_qp_minus26 == 0,
        r.pps.pic_init_qs_minus26 == 0,
        r.pps.chroma_qp_index_offset == 0,
        r.pps.deblocking_filter_control_present_flag,
        !r.pps.constrained_intra_pred_flag,
        !r.pps.redundant_pic_cnt_present_flag,
{
    let coded_width = round_up_to_multiple(width, 16);
    let coded_height = round_up_to_multiple(height, 16);
    let frame_crop_right_offset = (coded_width - width) / 2;
    let frame_crop_bottom_offset = (coded_height - height) / 2;
    let sps = H264Sps {
        profile_idc: 77,
        level_idc_code: 51,
        seq_parameter_set_id: 0,
        log2_max_frame_num_minus4: 6,
        pic_order_cnt_type: 0,
        log2_max_pic_order_cnt_lsb_minus4: 4,
        max_num_ref_frames: 1,
        gaps_in_frame_num_value_allowed_flag: false,
        pic_width_in_mbs_minus1: (width + 15) / 16 - 1,
        pic_height_in_map_units_minus1: (height + 15) / 16 - 1,
        frame_mbs_only_flag: true,
        mb_adaptive_frame_field_flag: false,
        direct_8x8_inference_flag: true,
        frame_cropping_flag: frame_crop_right_offset != 0 || frame_crop_bottom_offset != 0,
        frame_crop_left_offset: 0,
        frame_crop_right_offset,
        frame_crop_top_offset: 0,
        frame_crop_bottom_offset,
        vui_parameters_present_flag: false,
    };
    let pps = H264Pps {
        pic_parameter_set_id: 0,
        seq_parameter_set_id: 0,
        entropy_coding_mode_flag: true,
        num_ref_idx_l0_default_active_minus1: 0,
        num_ref_idx_l1_default_active_minus1: 0,
        weighted_pred_flag: false,
        weighted_bipred_idc: 0,
        pic_init_qp_minus26: 0,
        pic_init_qs_minus26: 0,
        chroma_qp_index_offset: 0,
        deblocking_filter_control_present_flag: true,
        constrained_intra_pred_flag: false,
        redundant_pic_cnt_present_flag: false,
    };
    H264SessionParameters { sps, pps }
}

/// The fallback stream prelude: the SPS NAL unit followed by the PPS NAL
/// unit, exactly as the in-tree writer emits them.
pub fn h264_prelude(p: &H264SessionParameters) -> (r: Vec<u8>)
    requires
        p.sps.pic_order_cnt_type == 0,
        !p.sps.vui_parameters_present_flag,
        p.pps.weighted_bipred_idc < 4,
    ensures
        r@ == nal_header_bytes(3, 7) + bytes_of_bits(rbsp_trailed(sps_payload_bits(p.sps)))
            + nal_header_bytes(3, 8) + bytes_of_bits(rbsp_trailed(pps_payload_bits(p.sps, p.pps))),
        r@.subrange(0, 5) == seq![0u8, 0u8, 0u8, 1u8, 0x67u8],
{
    let mut out = write_h264_sps(&p.sps);
    let ghost sps_bytes = out@;
    let mut pps = write_h264_pps(&p.sps, &p.pps);
    out.append(&mut pps);
    proof {
        assert(out@ =~= nal_header_bytes(3, 7) + bytes_of_bits(
            rbsp_trailed(sps_payload_bits(p.sps)),
        ) + nal_header_bytes(3, 8) + bytes_of_bits(rbsp_trailed(pps_payload_bits(p.sps, p.pps))));
        assert(out@.subrange(0, 5) =~= sps_bytes.subrange(0, 5));
    }
    out
}

/// The VPS fields this layer populates.
#[derive(Clone, Copy)]
pub struct H265Vps {
    pub vps_video_parameter_set_id: u8,
    pub vps_max_sub_layers_minus1: u8,
    pub vps_temporal_id_nesting_flag: bool,
    pub vps_num_ticks_poc_diff_one_minus1: u32,
    pub max_dec_pic_buffering_minus1: u8,
}

/// The H.265 SPS fields this layer populates.
#[derive(Clone, Copy)]
pub struct H265Sps {
    pub chroma_format_idc: u8,
    pub pic_width_in_luma_samples: u32,
    pub pic_height_in_luma_samples: u32,
    pub sps_video_parameter_set_id: u8,
    pub sps_seq_parameter_set_id: u8,
    pub log2_max_pic_order_cnt_lsb_minus4: u8,
    pub log2_min_luma_coding_block_size_minus3: u8,
    pub log2_diff_max_min_luma_coding_block_size: u8,
    pub log2_min_luma_transform_block_size_minus2: u8,
    pub log2_diff_max_min_luma_transform_block_size: u8,
    pub max_transform_hierarchy_depth_inter: u8,
    pub max_transform_hierarchy_depth_intra: u8,
    pub num_short_term_ref_pic_sets: u8,
    pub amp_enabled_flag: bool,
    pub sample_adaptive_offset_enabled_flag: bool,
    pub conf_win_left_offset: u32,
    pub conf_win_right_offset: u32,
    pub conf_win_top_offset: u32,
    pub conf_win_bottom_offset: u32,
}

/// The H.265 PPS fields this layer populates.
#[derive(Clone, Copy)]
pub struct H265Pps {
    pub pps_pic_parameter_set_id: u8,
    pub pps_seq_parameter_set_id: u8,
    pub transform_skip_enabled_flag: bool,
    pub loop_filter_across_tiles_enabled_flag: bool,
    pub deblocking_filter_control_present_flag: bool,
    pub init_qp_minus26: i8,
}

/// The VPS/SPS/PPS triple an H.265 encode session starts from.
#[derive(Clone, Copy)]
pub struct H265SessionParameters {
    pub vps: H265Vps,
    pub sps: H265Sps,
    pub pps: H265Pps,
}

/// Build the H.265 parameter sets for a stream presented at
/// `width x height`: 4:2:0, 16..32 luma coding blocks, one short-term
/// reference picture set.  The luma extent is the presented extent rounded
/// up to the 32-sample coding-block grid — the coded extent — and the
/// conformance window trims exactly that rounding back off.
pub fn make_h265_video_session_parameters(width: u32, height: u32) -> (r: H265SessionParameters)
    requires
        1 <= width,
        1 <= height,
        width + 31 <= u32::MAX,
        height + 31 <= u32::MAX,
    ensures
        r.vps.vps_video_parameter_set_id == 0,
        r.vps.vps_max_sub_layers_minus1 == 0,
        r.vps.vps_temporal_id_nesting_flag,
        r.vps.vps_num_ticks_poc_diff_one_minus1 == 4,
        r.vps.max_dec_pic_buffering_minus1 == 1,
        r.sps.chroma_format_idc == 1,
        r.sps.pic_width_in_luma_samples == spec_round_up(width as nat, 32) as u32,
        r.sps.pic_height_in_luma_samples == spec_round_up(height as nat, 32) as u32,
        r.sps.sps_video_parameter_set_id == 0,
        r.sps.sps_seq_parameter_set_id == 0,
        r.sps.log2_max_pic_order_cnt_lsb_minus4 == 4,
        r.sps.log2_min_luma_coding_block_size_minus3 == 1,
        r.sps.log2_diff_max_min_luma_coding_block_size == 1,
        r.sps.log2_min_luma_transform_block_size_minus2 == 0,
        r.sps.log2_diff_max_min_luma_transform_block_size == 3,
        r.sps.max_transform_hierarchy_depth_inter == 3,
        r.sps.max_transform_hierarchy_depth_intra == 3,
        r.sps.num_short_term_ref_pic_sets == 1,
        r.sps.amp_enabled_flag,
        r.sps.sample_adaptive_offset_enabled_flag,
        r.sps.conf_win_left_offset == 0,
        r.sps.conf_win_right_offset == ((spec_round_up(width as nat, 32) - width) / 2) as u32,
        r.sps.conf_win_top_offset == 0,
        r.sps.conf_win_bottom_offset == ((spec_round_up(height as nat, 32) - height) / 2) as u32,
        r.pps.pps_pic_parameter_set_id == 0,
        r.pps.pps_seq_parameter_set_id == 0,
        r.pps.transform_skip_enabled_flag,
        r.pps.loop_filter_across_tiles_enabled_flag,
        r.pps.deblocking_filter_control_present_flag,
        r.pps.init_qp_minus26 == 0,
{
    let coded_width = round_up_to_multiple(width, 32);
    let coded_height = round_up_to_multiple(height, 32);
    let vps = H265Vps {
        vps_video_parameter_set_id: 0,
        vps_max_sub_layers_minus1: 0,
        vps_temporal_id_nesting_flag: true,
        vps_num_ticks_poc_diff_one_minus1: 4,
        max_dec_pic_buffering_minus1: 1,
    };
    let sps = H265Sps {
        chroma_format_idc: 1,
        pic_width_in_luma_samples: coded_width,
        pic_height_in_luma_samples: coded_height,
        sps_video_parameter_set_id: 0,
        sps_seq_parameter_set_id: 0,
        log2_max_pic_order_cnt_lsb_minus4: 4,
        log2_min_luma_coding_block_size_minus3: 1,
        log2_diff_max_min_luma_coding_block_size: 1,
        log2_min_luma_transform_block_size_minus2: 0,
        log2_diff_max_min_luma_transform_block_size: 3,
        max_transform_hierarchy_depth_inter: 3,
        max_transform_hierarchy_depth_intra: 3,
        num_short_term_ref_pic_sets: 1,
        amp_enabled_flag: true,
        sample_adaptive_offset_enabled_flag: true,
        conf_win_left_offset: 0,
        conf_win_right_offset: (coded_width - width) / 2,
        conf_win_top_offset: 0,
        conf_win_bottom_offset: (coded_height - height) / 2,
    };
    let pps = H265Pps {
        pps_pic_parameter_set_id: 0,
        pps_seq_parameter_set_id: 0,
        transform_skip_enabled_flag: true,
        loop_filter_across_tiles_enabled_flag: true,
        deblocking_filter_control_present_flag: true,
        init_qp_minus26: 0,
    };
    H265SessionParameters { vps, sps, pps }
}

} // verus!
