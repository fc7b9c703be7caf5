use video_record::dpb::PictureType;
use video_record::settings::{
    parse_bool, parse_config_line, parse_u32, parse_u64, Codec, RateControlMode, Settings,
};
use video_record::video_session::{output_file_name, FileTimestamp};

#[test]
fn defaults() {
    let s = Settings::default();
    assert_eq!(s.codec, Codec::H264);
    assert_eq!(s.output_folder, "");
    assert!(!s.use_nvpro);
    assert_eq!(s.gop_size, 16);
    assert_eq!(s.idr_period, 16);
    assert_eq!(s.max_consecutive_b_frames, 0);
    assert_eq!(s.last_frame_type, PictureType::P);
    assert_eq!(s.max_bitrate, 10 * 1024 * 1024);
    assert_eq!(s.average_bitrate, 8 * 1024 * 1024);
    assert_eq!(s.rate_control_mode, RateControlMode::Cbr);
    assert_eq!(s.frame_rate_numerator, 60);
    assert_eq!(s.frame_rate_denominator, 1);
    assert_eq!(s.vbv_size_in_ms, 1000);
    assert_eq!(s.initial_vbv_size_in_ms, 0);
    assert_eq!(s.quality_level, 1);
}

#[test]
fn parse_u64_accepts_decimal() {
    assert_eq!(parse_u64("0"), Some(0));
    assert_eq!(parse_u64("42"), Some(42));
    assert_eq!(parse_u64("+42"), Some(42));
    assert_eq!(parse_u64("18446744073709551615"), Some(u64::MAX));
}

#[test]
fn parse_u64_rejects_junk_and_overflow() {
    assert_eq!(parse_u64(""), None);
    assert_eq!(parse_u64("+"), None);
    assert_eq!(parse_u64("-1"), None);
    assert_eq!(parse_u64("12a"), None);
    assert_eq!(parse_u64("4.5"), None);
    assert_eq!(parse_u64("18446744073709551616"), None);
    assert_eq!(parse_u64("99999999999999999999999"), None);
}

#[test]
fn parse_u32_bounds() {
    assert_eq!(parse_u32("4294967295"), Some(u32::MAX));
    assert_eq!(parse_u32("4294967296"), None);
}

#[test]
fn parse_bool_words() {
    assert_eq!(parse_bool("true"), Some(true));
    assert_eq!(parse_bool("false"), Some(false));
    assert_eq!(parse_bool("TRUE"), None);
    assert_eq!(parse_bool("1"), None);
}

#[test]
fn codec_names() {
    assert_eq!(Codec::from("H264"), Codec::H264);
    assert_eq!(Codec::from("H265"), Codec::H265);
    assert_eq!(Codec::from("AV1"), Codec::AV1);
    assert_eq!(Codec::from("vp9"), Codec::H264);
    assert_eq!(RateControlMode::from("CBR"), RateControlMode::Cbr);
    assert_eq!(RateControlMode::from("VBR"), RateControlMode::Cbr);
    assert_eq!(PictureType::from("I"), PictureType::I);
    assert_eq!(PictureType::from("IDR"), PictureType::Idr);
    assert_eq!(PictureType::from("P"), PictureType::P);
    assert_eq!(PictureType::from("B"), PictureType::B);
    assert_eq!(PictureType::from("X"), PictureType::P);
}

#[test]
fn config_line_shapes() {
    assert_eq!(
        parse_config_line("thehamsta_video_record.codec = H265"),
        Some(("codec".to_owned(), "H265".to_owned()))
    );
    assert_eq!(
        parse_config_line("thehamsta_video_record.gop_size=8"),
        Some(("gop_size".to_owned(), "8".to_owned()))
    );
    assert_eq!(
        parse_config_line("thehamsta_video_record.video_output_folder =  /tmp/captures"),
        Some(("video_output_folder".to_owned(), "/tmp/captures".to_owned()))
    );
    // no '=' sign, wrong prefix, or plain chatter parse to nothing
    assert_eq!(parse_config_line("thehamsta_video_record.codec H265"), None);
    assert_eq!(parse_config_line("other_layer.codec = H265"), None);
    assert_eq!(parse_config_line(""), None);
    assert_eq!(parse_config_line("# a comment"), None);
}

#[test]
fn config_text_is_applied_line_by_line() {
    let mut s = Settings::default();
    s.apply_config_text(
        "thehamsta_video_record.codec = H265\n\
         ignored chatter\n\
         thehamsta_video_record.gop_size = 8\n\
         thehamsta_video_record.average_bitrate = 4194304\r\n\
         thehamsta_video_record.video_output_folder = /tmp/rec\n\
         thehamsta_video_record.quality_level = junk\n",
    );
    assert_eq!(s.codec, Codec::H265);
    assert_eq!(s.gop_size, 8);
    assert_eq!(s.average_bitrate, 4 * 1024 * 1024);
    assert_eq!(s.output_folder, "/tmp/rec");
    // an unparsable value falls back to its default
    assert_eq!(s.quality_level, 1);
    // untouched keys keep their defaults
    assert_eq!(s.max_bitrate, 10 * 1024 * 1024);
}

#[test]
fn idr_period_key_sets_its_own_field() {
    let mut s = Settings::default();
    s.apply_config_text("thehamsta_video_record.idr_period = 30\n");
    assert_eq!(s.idr_period, 30);
    assert_eq!(s.gop_size, 16);
}

#[test]
fn later_lines_override_earlier_ones() {
    let mut s = Settings::default();
    s.apply_config_text(
        "thehamsta_video_record.codec = H265\nthehamsta_video_record.codec = H264\n",
    );
    assert_eq!(s.codec, Codec::H264);
}

#[test]
fn output_file_name_layout() {
    let ts = FileTimestamp { year: 2024, month: 1, day: 2, hour: 3, minute: 4, second: 5 };
    let name = output_file_name("UnknownApp", 1920, 1080, &ts, Codec::H264);
    assert_eq!(name, "UnknownApp_1920x1080_02.01.2024_03_04_05.h264");
    let name = output_file_name("game", 1280, 720, &ts, Codec::H265);
    assert_eq!(name, "game_1280x720_02.01.2024_03_04_05.h265");
}
