use video_record::bitio::{bytes_to_bit_vec, BitWriter};
use video_record::bitstream::{write_h264_pps, write_h264_sps};
use video_record::expgolomb::{decode_se, decode_ue, se, ue};
use video_record::session_parameters::{h264_prelude, make_h264_video_session_parameters};

#[test]
fn ue_test() {
    for (input, expected) in [
        (0, [0b10000000u8; 1]),
        (1, [0b01000000u8; 1]),
        (2, [0b01100000u8; 1]),
        (3, [0b00100000u8; 1]),
        (4, [0b00101000u8; 1]),
        (5, [0b00110000u8; 1]),
    ] {
        let mut writer = BitWriter::new();
        ue(&mut writer, input);
        writer.byte_align();
        let buffer = writer.finish();

        println!("{input}: {:b}, {:b}", buffer[0], expected[0]);
        assert_eq!(buffer.as_slice(), expected);
    }
}

#[test]
fn ve_test() {
    for (input, expected) in [
        (0, [0b10000000u8; 1]),
        (1, [0b01000000u8; 1]),
        (-1, [0b01100000u8; 1]),
        (2, [0b00100000u8; 1]),
        (-2, [0b00101000u8; 1]),
        (3, [0b00110000u8; 1]),
    ] {
        let mut writer = BitWriter::new();
        se(&mut writer, input);
        writer.byte_align();
        let buffer = writer.finish();

        println!("{input}: {:b}, {:b}", buffer[0], expected[0]);
        assert_eq!(buffer.as_slice(), expected);
    }
}

#[test]
fn start_sps_test() {
    let mut writer = BitWriter::new();
    writer.write_bits(32, 0x00_00_00_01);
    writer.write_bits(1, 0);
    writer.write_bits(2, 3);
    writer.write_bits(5, 7);
    writer.byte_align();
    let buffer = writer.finish();

    assert_eq!(buffer.as_slice(), [0x00, 0x00, 0x00, 0x01, 0x67]);
}

#[test]
fn ue_round_trip() {
    for v in [0u64, 1, 2, 5, 6, 7, 31, 32, 255, 4095, 65536, 0xFFFF_FFFE, 0xFFFF_FFFF] {
        let mut writer = BitWriter::new();
        ue(&mut writer, v);
        let width = writer.len();
        writer.byte_align();
        let bits = bytes_to_bit_vec(&writer.finish());
        let (decoded, next) = decode_ue(&bits, 0).expect("a whole code word was written");
        assert_eq!(decoded, v);
        assert_eq!(next, width);
    }
}

#[test]
fn se_round_trip() {
    for v in [
        0i64,
        1,
        -1,
        2,
        -2,
        3,
        1000,
        -1000,
        2147483647,
        -2147483648,
    ] {
        let mut writer = BitWriter::new();
        se(&mut writer, v);
        let width = writer.len();
        writer.byte_align();
        let bits = bytes_to_bit_vec(&writer.finish());
        let (decoded, next) = decode_se(&bits, 0).expect("a whole code word was written");
        assert_eq!(decoded, v);
        assert_eq!(next, width);
    }
}

#[test]
fn consecutive_code_words_decode_in_order() {
    let mut writer = BitWriter::new();
    ue(&mut writer, 9);
    ue(&mut writer, 0);
    ue(&mut writer, 77);
    writer.byte_align();
    let bits = bytes_to_bit_vec(&writer.finish());
    let (a, p1) = decode_ue(&bits, 0).unwrap();
    let (b, p2) = decode_ue(&bits, p1).unwrap();
    let (c, _) = decode_ue(&bits, p2).unwrap();
    assert_eq!((a, b, c), (9, 0, 77));
}

#[test]
fn sps_nal_starts_with_start_code_and_sps_header() {
    let p = make_h264_video_session_parameters(1920, 1080);
    let sps = write_h264_sps(&p.sps);
    assert!(sps.len() >= 5);
    assert_eq!(&sps[0..5], [0x00, 0x00, 0x00, 0x01, 0x67]);
}

#[test]
fn pps_nal_starts_with_start_code_and_pps_header() {
    let p = make_h264_video_session_parameters(1920, 1080);
    let pps = write_h264_pps(&p.sps, &p.pps);
    assert!(pps.len() >= 5);
    assert_eq!(&pps[0..5], [0x00, 0x00, 0x00, 0x01, 0x68]);
}

#[test]
fn prelude_holds_sps_then_pps() {
    let p = make_h264_video_session_parameters(1920, 1080);
    let sps = write_h264_sps(&p.sps);
    let pps = write_h264_pps(&p.sps, &p.pps);
    let prelude = h264_prelude(&p);
    assert_eq!(prelude.len(), sps.len() + pps.len());
    assert_eq!(&prelude[0..sps.len()], sps.as_slice());
    assert_eq!(&prelude[sps.len()..], pps.as_slice());
    assert_eq!(&prelude[sps.len()..sps.len() + 5], [0x00, 0x00, 0x00, 0x01, 0x68]);
}

#[test]
fn sps_decodes_back_to_its_fields() {
    let p = make_h264_video_session_parameters(1920, 1080);
    let sps = write_h264_sps(&p.sps);
    let bits = bytes_to_bit_vec(&sps);
    // start code and NAL header: 40 bits; profile, constraint flags, level:
    // 24 bits of fixed-width data
    let mut pos = 40;
    let profile = (sps[5], sps[6], sps[7]);
    assert_eq!(profile, (77, 0, 51));
    pos += 24;
    let (sps_id, p1) = decode_ue(&bits, pos).unwrap();
    assert_eq!(sps_id, 0);
    let (log2_max_frame_num_minus4, p2) = decode_ue(&bits, p1).unwrap();
    assert_eq!(log2_max_frame_num_minus4, 6);
    let (poc_type, p3) = decode_ue(&bits, p2).unwrap();
    assert_eq!(poc_type, 0);
    let (log2_max_poc_lsb_minus4, p4) = decode_ue(&bits, p3).unwrap();
    assert_eq!(log2_max_poc_lsb_minus4, 4);
    let (max_num_ref_frames, p5) = decode_ue(&bits, p4).unwrap();
    assert_eq!(max_num_ref_frames, 1);
    assert!(!bits[p5]); // gaps_in_frame_num_value_allowed_flag
    let (width_mbs_minus1, p6) = decode_ue(&bits, p5 + 1).unwrap();
    assert_eq!(width_mbs_minus1, 1920 / 16 - 1);
    let (height_map_units_minus1, _) = decode_ue(&bits, p6).unwrap();
    assert_eq!(height_map_units_minus1, 1080 / 16 + 1 - 1); // coded rows: 68
}

#[test]
fn crop_offsets_for_1919x1079() {
    let p = make_h264_video_session_parameters(1919, 1079);
    // coded extent rounds to 1920x1088: 120x68 macroblocks; the window
    // trims the one-column / nine-row excess, in two-sample crop units
    assert_eq!(p.sps.pic_width_in_mbs_minus1, 119);
    assert_eq!(p.sps.pic_height_in_map_units_minus1, 67);
    assert!(p.sps.frame_cropping_flag);
    assert_eq!(p.sps.frame_crop_left_offset, 0);
    assert_eq!(p.sps.frame_crop_right_offset, (1920 - 1919) / 2);
    assert_eq!(p.sps.frame_crop_top_offset, 0);
    assert_eq!(p.sps.frame_crop_bottom_offset, (1088 - 1079) / 2);
    assert_eq!(p.sps.frame_crop_bottom_offset, 4);
}

#[test]
fn crop_window_trims_exactly_the_rounding() {
    // 1080 leaves 8 rows of padding in the coded 1088, cropped as 4 crop
    // units; the aligned width needs no horizontal crop at all
    let p = make_h264_video_session_parameters(1920, 1080);
    assert_eq!(p.sps.frame_crop_right_offset, 0);
    assert_eq!(p.sps.frame_crop_bottom_offset, 4);
    assert!(p.sps.frame_cropping_flag);
    // a fully aligned extent has no cropping window
    let p = make_h264_video_session_parameters(1920, 1088);
    assert_eq!(p.sps.frame_crop_right_offset, 0);
    assert_eq!(p.sps.frame_crop_bottom_offset, 0);
    assert!(!p.sps.frame_cropping_flag);
}
