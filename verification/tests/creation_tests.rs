use video_record::creation::{
    augment_queue_requests, device_hook, plan_device_creation, find_first_family, find_memorytype_index,
    instance_hook, negotiate_loader_layer_interface_version, patched_api_version,
    required_device_extensions, required_device_features, select_queue_families, DeviceHook,
    InstanceHook, MissingQueue, QUEUE_COMPUTE, QUEUE_GRAPHICS, QUEUE_TRANSFER,
    QUEUE_VIDEO_DECODE, QUEUE_VIDEO_ENCODE,
};
use video_record::session_parameters::make_h265_video_session_parameters;
use video_record::profile::{
    ProfileError, UsageHints, VideoProfile, VIDEO_FORMAT_G8_B8R8_2PLANE_420,
};
use video_record::settings::Codec;
use video_record::shader::{
    descriptor_set_groups, BindingCountDesc, BindingDesc, ShaderPipeline,
};
use video_record::video_session::{
    augment_swapchain_image_usage, SwapChainData, IMAGE_USAGE_STORAGE,
};

#[test]
fn queue_families_are_picked_first_match() {
    let flags = vec![
        QUEUE_GRAPHICS | QUEUE_COMPUTE | QUEUE_TRANSFER,
        QUEUE_COMPUTE | QUEUE_TRANSFER,
        QUEUE_VIDEO_ENCODE | QUEUE_TRANSFER,
        QUEUE_VIDEO_DECODE,
    ];
    let q = select_queue_families(&flags).unwrap();
    assert_eq!(q.graphics, 0);
    assert_eq!(q.compute, 0);
    assert_eq!(q.encode, 2);
    assert_eq!(q.decode, 3);
}

#[test]
fn missing_queues_are_reported_in_probe_order() {
    assert_eq!(select_queue_families(&vec![QUEUE_GRAPHICS]), Err(MissingQueue::Compute));
    assert_eq!(select_queue_families(&vec![QUEUE_COMPUTE]), Err(MissingQueue::Graphics));
    assert_eq!(
        select_queue_families(&vec![QUEUE_GRAPHICS | QUEUE_COMPUTE, QUEUE_VIDEO_ENCODE]),
        Err(MissingQueue::Encode)
    );
    assert_eq!(
        select_queue_families(&vec![
            QUEUE_GRAPHICS | QUEUE_COMPUTE,
            QUEUE_VIDEO_ENCODE | QUEUE_TRANSFER,
        ]),
        Err(MissingQueue::Decode)
    );
}

#[test]
fn queue_requests_are_added_only_when_missing() {
    assert_eq!(augment_queue_requests(&vec![0], 1, 2, 3), vec![0, 1, 2, 3]);
    assert_eq!(augment_queue_requests(&vec![0, 2], 0, 2, 2), vec![0, 2]);
    assert_eq!(augment_queue_requests(&vec![], 1, 1, 1), vec![1]);
    assert_eq!(augment_queue_requests(&vec![5], 5, 6, 6), vec![5, 6]);
}

#[test]
fn api_version_is_raised_to_video_minimum() {
    let min = patched_api_version(0);
    assert_eq!(min, (1 << 22) | (3 << 12) | 274);
    assert_eq!(patched_api_version(min + 5), min + 5);
    assert_eq!(patched_api_version(min - 1), min);
}

#[test]
fn first_family_scan() {
    let flags = vec![0, QUEUE_COMPUTE, QUEUE_COMPUTE | QUEUE_GRAPHICS];
    assert_eq!(find_first_family(&flags, QUEUE_COMPUTE), Some(1));
    assert_eq!(find_first_family(&flags, QUEUE_GRAPHICS), Some(2));
    assert_eq!(find_first_family(&flags, QUEUE_VIDEO_DECODE), None);
}

#[test]
fn memory_type_respects_mask_and_flags() {
    // type 0 lacks the wanted flag, type 1 is excluded by the resource's
    // mask, type 2 qualifies
    let type_flags = vec![0x2, 0x1, 0x1];
    assert_eq!(find_memorytype_index(0b101, &type_flags, 0x1), Some(2));
    assert_eq!(find_memorytype_index(0b111, &type_flags, 0x1), Some(1));
    assert_eq!(find_memorytype_index(0b001, &type_flags, 0x1), None);
}

#[test]
fn descriptor_bindings_group_per_set_ascending() {
    let bindings = vec![
        BindingDesc { set: 0, binding: 0, descriptor_type: 3, count: BindingCountDesc::One },
        BindingDesc { set: 0, binding: 1, descriptor_type: 3, count: BindingCountDesc::One },
        BindingDesc { set: 0, binding: 2, descriptor_type: 3, count: BindingCountDesc::One },
        BindingDesc {
            set: 2,
            binding: 0,
            descriptor_type: 6,
            count: BindingCountDesc::StaticSized(4),
        },
    ];
    let groups = descriptor_set_groups(&bindings);
    assert_eq!(groups.len(), 2);
    assert_eq!(groups[0].set, 0);
    assert_eq!(groups[0].bindings.len(), 3);
    assert_eq!(groups[1].set, 2);
    assert_eq!(groups[1].bindings.len(), 1);
    assert_eq!(groups[1].bindings[0].count, BindingCountDesc::StaticSized(4));
}

fn words_to_bytes(words: &[u32]) -> Vec<u8> {
    let mut bytes = Vec::new();
    for w in words {
        bytes.extend_from_slice(&w.to_le_bytes());
    }
    bytes
}

#[test]
fn reflected_interface_plans_a_pipeline() {
    // a minimal SPIR-V module: header, OpCapability Shader, OpMemoryModel
    // Logical GLSL450, one sampler bound at set 0 binding 1 — reflected
    // with the real reflection library, then handed over as plain values
    let words = [
        0x0723_0203u32, // magic
        0x0001_0000,    // version 1.0
        0,              // generator
        8,              // bound
        0,              // schema
        0x0002_0011, 1, // OpCapability Shader
        0x0003_000E, 0, 1, // OpMemoryModel Logical GLSL450
        0x0004_0047, 4, 34, 0, // OpDecorate %4 DescriptorSet 0
        0x0004_0047, 4, 33, 1, // OpDecorate %4 Binding 1
        0x0002_001A, 2, // %2 = OpTypeSampler
        0x0004_0020, 3, 0, 2, // %3 = OpTypePointer UniformConstant %2
        0x0004_003B, 3, 4, 0, // %4 = OpVariable %3 UniformConstant
    ];
    let info = rspirv_reflect::Reflection::new_from_spirv(&words_to_bytes(&words))
        .expect("a valid module parses");
    let mut bindings = Vec::new();
    for (set, per_set) in info.get_descriptor_sets().expect("reflection succeeds").iter() {
        for (binding, d) in per_set.iter() {
            let count = match d.binding_count {
                rspirv_reflect::BindingCount::One => BindingCountDesc::One,
                rspirv_reflect::BindingCount::StaticSized(n) => {
                    BindingCountDesc::StaticSized(n)
                }
                rspirv_reflect::BindingCount::Unbounded => BindingCountDesc::Unbounded,
            };
            bindings.push(BindingDesc {
                set: *set,
                binding: *binding,
                descriptor_type: d.ty.0,
                count,
            });
        }
    }
    let pipeline = ShaderPipeline::new(bindings, None).expect("reflected bindings are sorted");
    let plan = pipeline.make_compute_pipeline().expect("a well-formed shader plans");
    assert_eq!(plan.set_groups.len(), 1);
    assert_eq!(plan.set_groups[0].set, 0);
    assert_eq!(plan.set_groups[0].bindings.len(), 1);
    let b = plan.set_groups[0].bindings[0];
    assert_eq!(b.binding, 1);
    assert_eq!(b.descriptor_type, 0); // VK_DESCRIPTOR_TYPE_SAMPLER
    assert_eq!(b.count, BindingCountDesc::One);
    assert!(plan.push_constant_range.is_none());
}

#[test]
fn reflection_rejects_garbage() {
    assert!(rspirv_reflect::Reflection::new_from_spirv(&[0u8, 1, 2, 3]).is_err());
}

#[test]
fn unsorted_bindings_are_rejected() {
    // no reflection result has this shape: set 1 before set 0
    let bindings = vec![
        BindingDesc { set: 1, binding: 0, descriptor_type: 3, count: BindingCountDesc::One },
        BindingDesc { set: 0, binding: 0, descriptor_type: 3, count: BindingCountDesc::One },
    ];
    assert!(ShaderPipeline::new(bindings, None).is_err());
    // and neither has a repeated binding within one set
    let bindings = vec![
        BindingDesc { set: 0, binding: 2, descriptor_type: 3, count: BindingCountDesc::One },
        BindingDesc { set: 0, binding: 2, descriptor_type: 3, count: BindingCountDesc::One },
    ];
    assert!(ShaderPipeline::new(bindings, None).is_err());
}

#[test]
fn h265_parameters_carry_the_coded_extent() {
    // 1280x720 presented: the luma extent is the coded 1280x736, and the
    // conformance window trims the 16 padded rows back off
    let p = make_h265_video_session_parameters(1280, 720);
    assert_eq!(p.vps.vps_video_parameter_set_id, 0);
    assert_eq!(p.vps.max_dec_pic_buffering_minus1, 1);
    assert_eq!(p.sps.chroma_format_idc, 1);
    assert_eq!(p.sps.pic_width_in_luma_samples, 1280);
    assert_eq!(p.sps.pic_height_in_luma_samples, 736);
    assert_eq!(p.sps.conf_win_right_offset, 0);
    assert_eq!(p.sps.conf_win_bottom_offset, (736 - 720) / 2);
    assert_eq!(p.sps.num_short_term_ref_pic_sets, 1);
    assert!(p.pps.transform_skip_enabled_flag);
}

#[test]
fn video_profile_builds_only_supported_requests() {
    let p = VideoProfile::new(VIDEO_FORMAT_G8_B8R8_2PLANE_420, Codec::H264, true).unwrap();
    assert_eq!(p.video_codec_operation, 0x10000);
    assert_eq!(p.chroma_subsampling, 0x2);
    assert_eq!(p.luma_bit_depth, 0x1);
    assert_eq!(p.chroma_bit_depth, 0x1);
    assert_eq!(
        p.usage,
        UsageHints::Encode { video_usage_hints: 0x4, video_content_hints: 0x4, tuning_mode: 1 }
    );

    let d = VideoProfile::new(VIDEO_FORMAT_G8_B8R8_2PLANE_420, Codec::H265, false).unwrap();
    assert_eq!(d.video_codec_operation, 0x2);
    assert_eq!(d.usage, UsageHints::Decode { video_usage_hints: 0x4 });

    assert_eq!(
        VideoProfile::new(VIDEO_FORMAT_G8_B8R8_2PLANE_420, Codec::AV1, true),
        Err(ProfileError::UnsupportedProfile)
    );
    // an RGBA swapchain format is not an 8-bit 4:2:0 request
    assert_eq!(
        VideoProfile::new(44, Codec::H264, true),
        Err(ProfileError::UnsupportedProfile)
    );
}

#[test]
fn swapchain_images_gain_storage_usage() {
    // VK_IMAGE_USAGE_COLOR_ATTACHMENT_BIT alone gains the storage bit
    assert_eq!(augment_swapchain_image_usage(0x10), 0x10 | IMAGE_USAGE_STORAGE);
    assert_eq!(augment_swapchain_image_usage(IMAGE_USAGE_STORAGE), IMAGE_USAGE_STORAGE);
    assert_eq!(augment_swapchain_image_usage(0), IMAGE_USAGE_STORAGE);
}

#[test]
fn present_count_skips_failed_frames() {
    let mut sc = SwapChainData::new();
    sc.encode_image(true);
    sc.encode_image(false);
    sc.encode_image(true);
    assert_eq!(sc.frame_index(), 2);
}

#[test]
fn proc_addr_hooks() {
    assert_eq!(instance_hook("vkCreateInstance"), Some(InstanceHook::CreateInstance));
    assert_eq!(instance_hook("vkCreateDevice"), Some(InstanceHook::CreateDevice));
    assert_eq!(instance_hook("vkQueuePresentKHR"), None);
    assert_eq!(device_hook("vkCreateSwapchainKHR"), Some(DeviceHook::CreateSwapchain));
    assert_eq!(device_hook("vkDestroySwapchainKHR"), Some(DeviceHook::DestroySwapchain));
    assert_eq!(device_hook("vkDestroyDevice"), Some(DeviceHook::DestroyDevice));
    assert_eq!(device_hook("vkQueuePresentKHR"), Some(DeviceHook::QueuePresent));
    assert_eq!(device_hook("vkAcquireNextImageKHR"), None);
}

#[test]
fn layer_negotiation_and_requirements() {
    assert!(!negotiate_loader_layer_interface_version(1));
    assert!(negotiate_loader_layer_interface_version(2));
    assert!(negotiate_loader_layer_interface_version(3));
    let exts = required_device_extensions();
    assert_eq!(
        exts,
        vec![
            "VK_KHR_video_queue",
            "VK_KHR_video_decode_queue",
            "VK_KHR_video_encode_queue",
            "VK_KHR_video_decode_h264",
            "VK_KHR_video_decode_h265",
            "VK_KHR_video_encode_h264",
            "VK_KHR_video_encode_h265",
        ]
    );
    let features = required_device_features();
    assert!(features.sampler_ycbcr_conversion);
    assert!(features.timeline_semaphore);
    assert!(features.buffer_device_address);
    assert!(features.synchronization2);
    assert!(features.private_data);
}

#[test]
fn device_creation_plan_composes_the_decisions() {
    let flags = vec![
        QUEUE_GRAPHICS | QUEUE_COMPUTE | QUEUE_TRANSFER,
        QUEUE_VIDEO_ENCODE | QUEUE_TRANSFER,
        QUEUE_VIDEO_DECODE,
    ];
    let plan = plan_device_creation(&flags, &vec![0]).unwrap();
    assert_eq!(plan.families.graphics, 0);
    assert_eq!(plan.families.compute, 0);
    assert_eq!(plan.families.encode, 1);
    assert_eq!(plan.families.decode, 2);
    // the application asked for family 0; the layer adds its encode and
    // decode queues
    assert_eq!(plan.queue_requests, vec![0, 1, 2]);
    assert_eq!(plan.extensions.len(), 7);
    assert_eq!(plan.extensions[0], "VK_KHR_video_queue");
    assert!(plan.features.private_data);
    assert!(matches!(
        plan_device_creation(&vec![QUEUE_GRAPHICS], &vec![]),
        Err(MissingQueue::Compute)
    ));
}
