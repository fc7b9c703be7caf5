use video_record::buffer_queue::{feedback_outcome, BitstreamBufferRing, FeedbackOutcome};
use video_record::cmd_buffer_queue::CommandBufferQueue;
use video_record::dpb::{
    CbrOptions, Dpb, GopOptions, PictureType, RateControlKind, RateControlOptions,
};
use video_record::settings::Codec;
use video_record::video_session::VideoSession;

fn test_rate_control(average: u64, max: u64) -> RateControlOptions {
    RateControlOptions {
        kind: RateControlKind::Cbr(CbrOptions {
            max_bitrate: max,
            average_bitrate: average,
            frame_rate_numerator: 60,
            frame_rate_denominator: 1,
        }),
        virtual_buffer_size_in_ms: 1000,
        initial_virtual_buffer_size_in_ms: 0,
        quality_level: 1,
    }
}

fn test_gop(gop_size: u64) -> GopOptions {
    GopOptions {
        use_nvpro: false,
        gop_size,
        idr_period: gop_size,
        max_consecutive_b_frames: 0,
        last_frame_type: PictureType::P,
    }
}

fn test_dpb(codec: Codec, width: u32, height: u32, gop_size: u64) -> Dpb {
    Dpb::new(
        codec,
        width,
        height,
        1,
        10,
        &test_gop(gop_size),
        &test_rate_control(8 * 1024 * 1024, 10 * 1024 * 1024),
    )
}

#[test]
fn coded_extent_rounds_to_macroblocks() {
    assert_eq!(test_dpb(Codec::H264, 1920, 1080, 16).coded_extent(), (1920, 1088));
    assert_eq!(test_dpb(Codec::H264, 1919, 1079, 16).coded_extent(), (1920, 1088));
    assert_eq!(test_dpb(Codec::H265, 1280, 720, 8).coded_extent(), (1280, 736));
    assert_eq!(test_dpb(Codec::H265, 1280, 736, 8).coded_extent(), (1280, 736));
    assert_eq!(test_dpb(Codec::H264, 16, 16, 16).coded_extent(), (16, 16));
    assert_eq!(test_dpb(Codec::H264, 1, 1, 16).coded_extent(), (16, 16));
}

#[test]
fn bitrates_are_clamped_to_the_average() {
    let dpb = Dpb::new(
        Codec::H264,
        1920,
        1080,
        1,
        10,
        &test_gop(16),
        &test_rate_control(10_000_000, 5_000_000),
    );
    let cbr = *dpb.rate_control_options.kind.as_cbr().unwrap();
    assert_eq!(cbr.average_bitrate, 10_000_000);
    assert_eq!(cbr.max_bitrate, 10_000_000);
}

#[test]
fn first_gop_of_ten_frames_h264() {
    // ten presented frames: frame 0 is IDR, 1..9 are P, POCs step by two
    let mut dpb = test_dpb(Codec::H264, 1920, 1080, 16);
    let mut session = VideoSession::new(Codec::H264);
    for i in 0..10u64 {
        let plan = dpb.encode_frame(&mut session);
        if i == 0 {
            assert_eq!(plan.picture_type, PictureType::Idr);
            assert!(plan.coding_control.is_some());
            assert!(plan.reference_slot.is_none());
        } else {
            assert_eq!(plan.picture_type, PictureType::P);
            assert!(plan.coding_control.is_none());
            assert!(plan.reference_slot.is_some());
        }
        assert_eq!(plan.frame_num, i);
        assert_eq!(plan.pic_order_cnt, 2 * i);
        assert_eq!(plan.compute_signal_value, i + 1);
        assert_eq!(plan.encode_wait_value, i);
        assert_eq!(plan.encode_signal_value, i + 1);
        assert_eq!(plan.input_slot as u64, i % 10);
        if i == 0 {
            assert_eq!(plan.setup_frame_num, 0);
            assert_eq!(plan.setup_pic_order_cnt, 0);
        } else {
            assert_eq!(plan.setup_frame_num, i - 1);
            assert_eq!(plan.setup_pic_order_cnt, 2 * (i - 1));
        }
    }
}

#[test]
fn planning_commits_nothing() {
    let mut dpb = test_dpb(Codec::H264, 1920, 1080, 16);
    let mut session = VideoSession::new(Codec::H264);
    let planned = dpb.plan_frame(&session);
    // a plan alone moves no cursor and keeps the reset pending
    assert_eq!(dpb.frame_index, 0);
    assert_eq!(dpb.next_image, 0);
    assert!(session.needs_reset());
    let planned_again = dpb.plan_frame(&session);
    assert_eq!(planned.picture_type, planned_again.picture_type);
    assert_eq!(planned.frame_num, planned_again.frame_num);
    // the commit returns the very plan and advances
    let committed = dpb.encode_frame(&mut session);
    assert_eq!(committed.picture_type, planned.picture_type);
    assert_eq!(committed.frame_num, planned.frame_num);
    assert_eq!(committed.pic_order_cnt, planned.pic_order_cnt);
    assert_eq!(committed.encode_signal_value, planned.encode_signal_value);
    assert_eq!(committed.coding_control.is_some(), planned.coding_control.is_some());
    assert_eq!(dpb.frame_index, 1);
    assert_eq!(dpb.next_image, 1);
    assert!(!session.needs_reset());
}

#[test]
fn resource_plan_sizes() {
    let dpb = test_dpb(Codec::H264, 1920, 1080, 16);
    let plan = dpb.resource_plan(3);
    assert_eq!(plan.descriptor_set_count, 30);
    assert_eq!(plan.cmd_ring_length, 10);
    assert_eq!(plan.cmd_ring_timeout, 100);
    assert_eq!(plan.bitstream_buffer_count, 30);
    assert_eq!(plan.bitstream_buffer_size, 5_000_000);
    assert_eq!(plan.views_per_input_image, 3);
}

#[test]
fn gop_boundaries_open_with_idr() {
    let mut dpb = test_dpb(Codec::H264, 1920, 1080, 4);
    let mut session = VideoSession::new(Codec::H264);
    let mut idr_frames = Vec::new();
    for i in 0..12u64 {
        let plan = dpb.encode_frame(&mut session);
        if plan.picture_type == PictureType::Idr {
            idr_frames.push(i);
        }
    }
    assert_eq!(idr_frames, vec![0, 4, 8]);
}

#[test]
fn idr_only_stream_with_gop_one() {
    // every slice is IDR; the encode timeline target after frame 30 is 30
    let mut dpb = test_dpb(Codec::H264, 1280, 720, 1);
    let mut session = VideoSession::new(Codec::H264);
    let mut last_signal = 0;
    for _ in 0..30 {
        let plan = dpb.encode_frame(&mut session);
        assert_eq!(plan.picture_type, PictureType::Idr);
        last_signal = plan.encode_signal_value;
    }
    assert_eq!(last_signal, 30);
    assert_eq!(dpb.frame_index, 30);
}

#[test]
fn coding_control_is_issued_exactly_once_per_reset() {
    let mut dpb = test_dpb(Codec::H264, 1920, 1080, 16);
    let mut session = VideoSession::new(Codec::H264);
    assert!(session.needs_reset());
    let first = dpb.encode_frame(&mut session);
    let control = first.coding_control.expect("the first encode resets the session");
    assert_eq!(control.average_bitrate, 8 * 1024 * 1024);
    assert_eq!(control.max_bitrate, 10 * 1024 * 1024);
    assert_eq!(control.frame_rate_numerator, 60);
    assert_eq!(control.frame_rate_denominator, 1);
    assert_eq!(control.gop_frame_count, 16);
    assert_eq!(control.idr_period, 16);
    assert_eq!(control.consecutive_b_frame_count, 0);
    assert_eq!(control.quality_level, 1);
    assert!(!session.needs_reset());
    let second = dpb.encode_frame(&mut session);
    assert!(second.coding_control.is_none());
    // a rate-control mutation raises the flag again
    session.set_needs_reset(true);
    let third = dpb.encode_frame(&mut session);
    assert!(third.coding_control.is_some());
    assert_eq!(third.picture_type, PictureType::Idr);
    let fourth = dpb.encode_frame(&mut session);
    assert!(fourth.coding_control.is_none());
}

#[test]
fn command_ring_hands_every_slot_out_fairly() {
    // seven hand-outs on a ring of three: every slot at least twice
    let mut ring = CommandBufferQueue::new(3, 100);
    let mut counts = [0u32; 3];
    for _ in 0..7 {
        let slot = ring.next();
        counts[slot.cmd_slot as usize] += 1;
    }
    for c in counts {
        assert!(c >= 2);
    }
}

#[test]
fn command_ring_walks_round_robin() {
    let mut ring = CommandBufferQueue::new(3, 100);
    let mut cmd_slots = Vec::new();
    let mut fence_slots = Vec::new();
    for _ in 0..7 {
        // the wait names the slot whose matched pair comes back
        assert_eq!(ring.wait_slot(), ring.current);
        let slot = ring.next();
        assert_eq!(slot.cmd_slot, slot.fence_slot);
        cmd_slots.push(slot.cmd_slot);
        fence_slots.push(slot.fence_slot);
    }
    assert_eq!(cmd_slots, vec![0, 1, 2, 0, 1, 2, 0]);
    assert_eq!(fence_slots, vec![0, 1, 2, 0, 1, 2, 0]);
}

#[test]
fn bitstream_ring_binds_and_harvests_causally() {
    let mut ring = BitstreamBufferRing::new(4, 5_000_000);
    // first revolution: no waits, no harvests
    for g in 0..4u64 {
        assert_eq!(ring.wait_target(), 0);
        let grant = ring.next();
        assert_eq!(grant.slot as u64, g % 4);
        assert_eq!(grant.wait_value, 0);
        assert!(grant.harvest.is_none());
        assert_eq!(grant.bound_value, g + 1);
    }
    // from then on, the wait and the harvest belong to the grant made one
    // full revolution earlier, at this very slot
    for g in 4..100u64 {
        assert_eq!(ring.wait_target(), g + 1 - 4);
        let grant = ring.next();
        assert_eq!(grant.slot as u64, g % 4);
        assert_eq!(grant.wait_value, g + 1 - 4);
        let harvest = grant.harvest.expect("a bound slot has feedback to read");
        assert_eq!(harvest.query_slot, grant.slot);
        assert_eq!(harvest.generation, g + 1 - 4);
        assert_eq!(grant.bound_value, g + 1);
    }
}

#[test]
fn stalled_readback_leaves_cursors_in_place() {
    // a blocked output sink shows up as an unmet wait target; nothing moves
    // until the wait is met, and then the ring resumes where it stood
    let mut ring = BitstreamBufferRing::new(4, 5_000_000);
    for _ in 0..4 {
        ring.next();
    }
    // timeline stuck at 0: wait target 1 cannot be met; the caller retries
    // without completing, so generation and cursor stand still
    assert_eq!(ring.wait_target(), 1);
    assert_eq!(ring.generation, 4);
    assert_eq!(ring.current, 0);
    assert_eq!(ring.wait_target(), 1);
    assert_eq!(ring.generation, 4);
    // after the unblock the very next grant harvests generation 1, not an
    // older or newer one
    let grant = ring.next();
    assert_eq!(grant.harvest.unwrap().generation, 1);
    assert_eq!(grant.harvest.unwrap().query_slot, 0);
}

#[test]
fn bitstream_ring_hands_every_slot_out_fairly() {
    // ten grants on a ring of three: slot t mod 3 each time, so every slot
    // at least three times
    let mut ring = BitstreamBufferRing::new(3, 5_000_000);
    let mut counts = [0u32; 3];
    for g in 0..10u64 {
        let grant = ring.next();
        assert_eq!(grant.slot as u64, g % 3);
        counts[grant.slot as usize] += 1;
    }
    for c in counts {
        assert!(c >= 3);
    }
}

#[test]
fn feedback_outcomes() {
    assert_eq!(feedback_outcome(false, 0, 4096, 5_000_000), FeedbackOutcome::Unavailable);
    assert_eq!(feedback_outcome(true, 0, 0, 5_000_000), FeedbackOutcome::Dropped);
    assert_eq!(
        feedback_outcome(true, 64, 4096, 5_000_000),
        FeedbackOutcome::Write { offset: 64, len: 4096 }
    );
    // the driver's size is clamped to the host buffer
    assert_eq!(
        feedback_outcome(true, 0, 4096, 100),
        FeedbackOutcome::Write { offset: 0, len: 100 }
    );
}

#[test]
fn conversion_plan_transfers_ownership_across_families() {
    // present family 0, compute family 2, encode family 3
    let dpb = test_dpb(Codec::H264, 1919, 1079, 16);
    let plan = dpb.prerecord_input_image_conversions(44, 0, 0, 2, 3);
    // release from the present family, acquire into compute, and back
    assert_eq!(plan.present_acquire_src_family, 0);
    assert_eq!(plan.present_acquire_dst_family, 2);
    assert_eq!(plan.input_acquire_src_family, 3);
    assert_eq!(plan.input_acquire_dst_family, 2);
    assert_eq!(plan.present_release_src_family, 2);
    assert_eq!(plan.present_release_dst_family, 0);
    assert_eq!((plan.binding_present, plan.binding_luma, plan.binding_chroma), (0, 1, 2));
    // push constants carry the presented extent, the dispatch covers the
    // coded extent in 8x8 tiles
    assert_eq!((plan.push_constant_width, plan.push_constant_height), (1919, 1079));
    assert_eq!((plan.dispatch_x, plan.dispatch_y, plan.dispatch_z), (240, 136, 1));
}

#[test]
fn h265_marks_references_per_stream_position() {
    let mut dpb = test_dpb(Codec::H265, 1280, 720, 8);
    let mut session = VideoSession::new(Codec::H265);
    for i in 0..10u64 {
        let plan = dpb.encode_frame(&mut session);
        assert_eq!(plan.h265_is_reference, i != 7);
    }
}

#[test]
fn picture_type_codes() {
    assert_eq!(PictureType::Idr.as_h264_picture_type(), 5);
    assert_eq!(PictureType::I.as_h264_picture_type(), 2);
    assert_eq!(PictureType::P.as_h264_picture_type(), 0);
    assert_eq!(PictureType::B.as_h264_picture_type(), 1);
    assert_eq!(PictureType::Idr.as_h265_picture_type(), 3);
    assert_eq!(PictureType::Idr.as_h264_slice_type(), 2);
    assert_eq!(PictureType::P.as_h264_slice_type(), 0);
    assert_eq!(PictureType::B.as_h264_slice_type(), 1);
    assert_eq!(PictureType::P.as_h265_slice_type(), 1);
    assert_eq!(PictureType::B.as_h265_slice_type(), 0);
    assert!(PictureType::Idr.is_idr());
    assert!(PictureType::I.is_i());
    assert!(PictureType::P.is_p());
    assert!(PictureType::B.is_b());
    assert!(!PictureType::P.is_idr());
}

#[test]
fn rate_control_kind_accessors() {
    let mut kind = RateControlKind::Cbr(CbrOptions {
        max_bitrate: 2,
        average_bitrate: 1,
        frame_rate_numerator: 30,
        frame_rate_denominator: 1,
    });
    assert!(kind.is_cbr());
    assert_eq!(kind.as_cbr().unwrap().average_bitrate, 1);
    kind.as_cbr_mut().unwrap().max_bitrate = 7;
    assert_eq!(kind.as_cbr().unwrap().max_bitrate, 7);
}
