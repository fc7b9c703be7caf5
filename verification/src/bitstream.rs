//! H.264 SPS and PPS NAL-unit emission, used as the stream prelude when the
//! driver does not hand back encoded parameter sets.
//!
//! A NAL unit is the four-byte start code `00 00 00 01`, one header byte
//! (forbidden-zero bit, `nal_ref_idc`, `nal_unit_type`), and the RBSP payload
//! closed by a stop-one bit and zero padding to the next byte boundary.

use vstd::prelude::*;

verus! {

use vstd::arithmetic::power2::lemma2_to64;
use crate::bitio::BitWriter;
use crate::bitio::bits_of_uint;
use crate::bitio::bytes_of_bits;
use crate::bitio::pad_len;
use crate::expgolomb::ue;
use crate::expgolomb::se;
use crate::expgolomb::ue_bits;
use crate::expgolomb::se_bits;

/// The fields of an H.264 sequence parameter set that this layer emits.
/// `level_idc_code` is the byte written to the stream (levels are coded as
/// ten times their number: 51 for level 5.1).
#[derive(Clone, Copy)]
pub struct H264Sps {
    pub profile_idc: u8,
    pub level_idc_code: u8,
    pub seq_parameter_set_id: u8,
    pub log2_max_frame_num_minus4: u8,
    pub pic_order_cnt_type: u8,
    pub log2_max_pic_order_cnt_lsb_minus4: u8,
    pub max_num_ref_frames: u8,
    pub gaps_in_frame_num_value_allowed_flag: bool,
    pub pic_width_in_mbs_minus1: u32,
    pub pic_height_in_map_units_minus1: u32,
    pub frame_mbs_only_flag: bool,
    pub mb_adaptive_frame_field_flag: bool,
    pub direct_8x8_inference_flag: bool,
    pub frame_cropping_flag: bool,
    pub frame_crop_left_offset: u32,
    pub frame_crop_right_offset: u32,
    pub frame_crop_top_offset: u32,
    pub frame_crop_bottom_offset: u32,
    pub vui_parameters_present_flag: bool,
}

/// The fields of an H.264 picture parameter set that this layer emits.
#[derive(Clone, Copy)]
pub struct H264Pps {
    pub pic_parameter_set_id: u8,
    pub seq_parameter_set_id: u8,
    pub entropy_coding_mode_flag: bool,
    pub num_ref_idx_l0_default_active_minus1: u8,
    pub num_ref_idx_l1_default_active_minus1: u8,
    pub weighted_pred_flag: bool,
    pub weighted_bipred_idc: u8,
    pub pic_init_qp_minus26: i8,
    pub pic_init_qs_minus26: i8,
    pub chroma_qp_index_offset: i8,
    pub deblocking_filter_control_present_flag: bool,
    pub constrained_intra_pred_flag: bool,
    pub redundant_pic_cnt_present_flag: bool,
}

/// A single flag bit.
pub open spec fn flag_bit(b: bool) -> Seq<bool> {
    seq![b]
}

/// Start code plus NAL header byte: forbidden-zero bit 0, then `nal_ref_idc`
/// in two bits and `nal_unit_type` in five.
pub open spec fn nal_header_bytes(nal_ref_idc: nat, nal_unit_type: nat) -> Seq<u8> {
    seq![0u8, 0u8, 0u8, 1u8, (nal_ref_idc * 32 + nal_unit_type) as u8]
}

/// An RBSP closed by the stop-one bit and padded to a byte boundary.
pub open spec fn rbsp_trailed(s: Seq<bool>) -> Seq<bool> {
    let stopped = s + seq![true];
    stopped + Seq::new(pad_len(stopped.len()), |i: int| false)
}

/// The SPS syntax elements, in stream order, before the stop bit.
pub open spec fn sps_payload_bits(s: H264Sps) -> Seq<bool> {
    bits_of_uint(s.profile_idc as nat, 8) + bits_of_uint(0, 8) + bits_of_uint(
        s.level_idc_code as nat,
        8,
    ) + ue_bits(s.seq_parameter_set_id as nat) + ue_bits(s.log2_max_frame_num_minus4 as nat)
        + ue_bits(s.pic_order_cnt_type as nat) + ue_bits(
        s.log2_max_pic_order_cnt_lsb_minus4 as nat,
    ) + ue_bits(s.max_num_ref_frames as nat) + flag_bit(s.gaps_in_frame_num_value_allowed_flag)
        + ue_bits(s.pic_width_in_mbs_minus1 as nat) + ue_bits(
        s.pic_height_in_map_units_minus1 as nat,
    ) + flag_bit(s.frame_mbs_only_flag) + (if !s.frame_mbs_only_flag {
        flag_bit(s.mb_adaptive_frame_field_flag)
    } else {
        Seq::empty()
    }) + flag_bit(s.direct_8x8_inference_flag) + flag_bit(s.frame_cropping_flag) + (
    if s.frame_cropping_flag {
        ue_bits(s.frame_crop_left_offset as nat) + ue_bits(s.frame_crop_right_offset as nat)
            + ue_bits(s.frame_crop_top_offset as nat) + ue_bits(s.frame_crop_bottom_offset as nat)
    } else {
        Seq::empty()
    }) + flag_bit(s.vui_parameters_present_flag)
}

/// The PPS syntax elements, in stream order, before the stop bit.  The
/// picture-order-present flag and the slice-group count are fixed to zero,
/// as this layer emits neither.
pub open spec fn pps_payload_bits(s: H264Sps, p: H264Pps) -> Seq<bool> {
    ue_bits(p.pic_parameter_set_id as nat) + ue_bits(s.seq_parameter_set_id as nat) + flag_bit(
        p.entropy_coding_mode_flag,
    ) + flag_bit(false) + ue_bits(0) + ue_bits(p.num_ref_idx_l0_default_active_minus1 as nat)
        + ue_bits(p.num_ref_idx_l1_default_active_minus1 as nat) + flag_bit(p.weighted_pred_flag)
        + bits_of_uint(p.weighted_bipred_idc as nat, 2) + se_bits(p.pic_init_qp_minus26 as int)
        + se_bits(p.pic_init_qs_minus26 as int) + se_bits(p.chroma_qp_index_offset as int)
        + flag_bit(p.deblocking_filter_control_present_flag) + flag_bit(
        p.constrained_intra_pred_flag,
    ) + flag_bit(p.redundant_pic_cnt_present_flag)
}

/// Emit the SPS as a complete NAL unit.  Only picture-order-count type 0 and
/// streams without VUI parameters are emitted.
#[verifier::rlimit(100)]
pub fn write_h264_sps(sps: &H264Sps) -> (r: Vec<u8>)
    requires
        sps.pic_order_cnt_type == 0,
        !sps.vui_parameters_present_flag,
    ensures
        r@ == nal_header_bytes(3, 7) + bytes_of_bits(rbsp_trailed(sps_payload_bits(*sps))),
        r@.subrange(0, 5) == seq![0u8, 0u8, 0u8, 1u8, 0x67u8],
        r@.len() >= 5,
{
    proof {
        lemma2_to64();
    }
    let mut out: Vec<u8> = Vec::new();
    out.push(0);
    out.push(0);
    out.push(0);
    out.push(1);
    out.push(0x67);
    let mut w = BitWriter::new();
    w.write_bits(8, sps.profile_idc as u64);
    w.write_bits(8, 0);
    w.write_bits(8, sps.level_idc_code as u64);
    ue(&mut w, sps.seq_parameter_set_id as u64);
    ue(&mut w, sps.log2_max_frame_num_minus4 as u64);
    ue(&mut w, sps.pic_order_cnt_type as u64);
    ue(&mut w, sps.log2_max_pic_order_cnt_lsb_minus4 as u64);
    ue(&mut w, sps.max_num_ref_frames as u64);
    w.write_bit(sps.gaps_in_frame_num_value_allowed_flag);
    ue(&mut w, sps.pic_width_in_mbs_minus1 as u64);
    ue(&mut w, sps.pic_height_in_map_units_minus1 as u64);
    w.write_bit(sps.frame_mbs_only_flag);
    if !sps.frame_mbs_only_flag {
        w.write_bit(sps.mb_adaptive_frame_field_flag);
    }
    w.write_bit(sps.direct_8x8_inference_flag);
    w.write_bit(sps.frame_cropping_flag);
    if sps.frame_cropping_flag {
        ue(&mut w, sps.frame_crop_left_offset as u64);
        ue(&mut w, sps.frame_crop_right_offset as u64);
        ue(&mut w, sps.frame_crop_top_offset as u64);
        ue(&mut w, sps.frame_crop_bottom_offset as u64);
    }
    w.write_bit(sps.vui_parameters_present_flag);
    proof {
        assert(w@ =~= sps_payload_bits(*sps));
    }
    w.write_bit(true);
    w.byte_align();
    proof {
        assert(w@ =~= rbsp_trailed(sps_payload_bits(*sps)));
    }
    let mut body = w.finish();
    let ghost header = out@;
    out.append(&mut body);
    proof {
        assert(header =~= nal_header_bytes(3, 7));
        assert(out@.subrange(0, 5) =~= seq![0u8, 0u8, 0u8, 1u8, 0x67u8]);
    }
    out
}

/// Emit the PPS as a complete NAL unit.
#[verifier::rlimit(100)]
pub fn write_h264_pps(sps: &H264Sps, pps: &H264Pps) -> (r: Vec<u8>)
    requires
        pps.weighted_bipred_idc < 4,
    ensures
        r@ == nal_header_bytes(3, 8) + bytes_of_bits(rbsp_trailed(pps_payload_bits(*sps, *pps))),
        r@.subrange(0, 5) == seq![0u8, 0u8, 0u8, 1u8, 0x68u8],
        r@.len() >= 5,
{
    proof {
        lemma2_to64();
    }
    let mut out: Vec<u8> = Vec::new();
    out.push(0);
    out.push(0);
    out.push(0);
    out.push(1);
    out.push(0x68);
    let mut w = BitWriter::new();
    ue(&mut w, pps.pic_parameter_set_id as u64);
    ue(&mut w, sps.seq_parameter_set_id as u64);
    w.write_bit(pps.entropy_coding_mode_flag);
    w.write_bit(false);
    ue(&mut w, 0);
    ue(&mut w, pps.num_ref_idx_l0_default_active_minus1 as u64);
    ue(&mut w, pps.num_ref_idx_l1_default_active_minus1 as u64);
    w.write_bit(pps.weighted_pred_flag);
    w.write_bits(2, pps.weighted_bipred_idc as u64);
    se(&mut w, pps.pic_init_qp_minus26 as i64);
    se(&mut w, pps.pic_init_qs_minus26 as i64);
    se(&mut w, pps.chroma_qp_index_offset as i64);
    w.write_bit(pps.deblocking_filter_control_present_flag);
    w.write_bit(pps.constrained_intra_pred_flag);
    w.write_bit(pps.redundant_pic_cnt_present_flag);
    proof {
        assert(w@ =~= pps_payload_bits(*sps, *pps));
    }
    w.write_bit(true);
    w.byte_align();
    proof {
        assert(w@ =~= rbsp_trailed(pps_payload_bits(*sps, *pps)));
    }
    let mut body = w.finish();
    let ghost header = out@;
    out.append(&mut body);
    proof {
        assert(header =~= nal_header_bytes(3, 8));
        assert(out@.subrange(0, 5) =~= seq![0u8, 0u8, 0u8, 1u8, 0x68u8]);
    }
    out
}

} // verus!
