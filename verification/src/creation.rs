//! Device-creation decisions: which queue families carry the graphics,
//! compute, encode and decode work, which queue requests must be added for
//! the layer's own queues, which API version the instance must ask for, and
//! which memory type backs an allocation.
//!
//! Walking the loader chain and calling the driver stay with the embedder;
//! every choice made on the way is taken here, on the flag words the
//! embedder reads out.

use vstd::prelude::*;

verus! {

use crate::settings::str_eq;

/// `VK_QUEUE_GRAPHICS_BIT`.
pub const QUEUE_GRAPHICS: u32 = 0x1;

/// `VK_QUEUE_COMPUTE_BIT`.
pub const QUEUE_COMPUTE: u32 = 0x2;

/// `VK_QUEUE_TRANSFER_BIT`.
pub const QUEUE_TRANSFER: u32 = 0x4;

/// `VK_QUEUE_VIDEO_DECODE_BIT_KHR`.
pub const QUEUE_VIDEO_DECODE: u32 = 0x20;

/// `VK_QUEUE_VIDEO_ENCODE_BIT_KHR`.
pub const QUEUE_VIDEO_ENCODE: u32 = 0x40;

/// The instance API version recording needs: 1.3.274, encoded as Vulkan
/// packs versions (major 22 bits up, minor 12 bits up, patch).
pub const LAYER_MIN_API_VERSION: u32 = 0x403112;

/// A flag word carries every bit of `mask`.
pub open spec fn has_bits(flags: u32, mask: u32) -> bool {
    flags & mask == mask
}

/// The queue capability a family was being searched for when device
/// creation failed.
#[derive(Debug, Copy, Clone, PartialEq, Eq, Structural)]
pub enum MissingQueue {
    Compute,
    Graphics,
    Encode,
    Decode,
}

/// The chosen queue family for each role.
#[derive(Debug, Copy, Clone, PartialEq, Eq, Structural)]
pub struct QueueFamilySelection {
    pub graphics: usize,
    pub compute: usize,
    pub encode: usize,
    pub decode: usize,
}

/// `i` is the first family whose flags carry all bits of `mask`.
pub open spec fn spec_first_family(flags: Seq<u32>, mask: u32, i: int) -> bool {
    &&& 0 <= i < flags.len()
    &&& has_bits(flags[i], mask)
    &&& forall|j: int| 0 <= j < i ==> !has_bits(#[trigger] flags[j], mask)
}

/// No family carries all bits of `mask`.
pub open spec fn spec_no_family(flags: Seq<u32>, mask: u32) -> bool {
    forall|j: int| 0 <= j < flags.len() ==> !has_bits(#[trigger] flags[j], mask)
}

/// A valid selection: each role took the first family with its capability;
/// encode needs both the encode and the transfer bits.
pub open spec fn spec_selection_ok(flags: Seq<u32>, q: QueueFamilySelection) -> bool {
    &&& spec_first_family(flags, QUEUE_COMPUTE, q.compute as int)
    &&& spec_first_family(flags, QUEUE_GRAPHICS, q.graphics as int)
    &&& spec_first_family(flags, QUEUE_VIDEO_ENCODE | QUEUE_TRANSFER, q.encode as int)
    &&& spec_first_family(flags, QUEUE_VIDEO_DECODE, q.decode as int)
}

/// Which capability a failed selection lacked.
pub open spec fn spec_selection_err(flags: Seq<u32>, e: MissingQueue) -> bool {
    match e {
        MissingQueue::Compute => spec_no_family(flags, QUEUE_COMPUTE),
        MissingQueue::Graphics => spec_no_family(flags, QUEUE_GRAPHICS),
        MissingQueue::Encode => spec_no_family(flags, QUEUE_VIDEO_ENCODE | QUEUE_TRANSFER),
        MissingQueue::Decode => spec_no_family(flags, QUEUE_VIDEO_DECODE),
    }
}

/// The first family whose flags carry all bits of `mask`.
pub fn find_first_family(queue_flags: &Vec<u32>, mask: u32) -> (r: Option<usize>)
    ensures
        match r {
            Some(i) => i < queue_flags@.len() && has_bits(queue_flags@[i as int], mask)
                && forall|j: int| 0 <= j < i ==> !has_bits(queue_flags@[j], mask),
            None => forall|j: int| 0 <= j < queue_flags@.len() ==> !has_bits(queue_flags@[j], mask),
        },
{
    let mut i: usize = 0;
    while i < queue_flags.len()
        invariant
            i <= queue_flags@.len(),
            forall|j: int| 0 <= j < i ==> !has_bits(queue_flags@[j], mask),
        decreases queue_flags@.len() - i,
    {
        if queue_flags[i] & mask == mask {
            return Some(i);
        }
        i = i + 1;
    }
    None
}

/// Pick the queue families the layer records with: the first with compute,
/// the first with graphics, the first with both encode and transfer, and
/// the first with decode — failing with the first capability the device
/// lacks, in that order.
pub fn select_queue_families(queue_flags: &Vec<u32>) -> (r: Result<
    QueueFamilySelection,
    MissingQueue,
>)
    ensures
        match r {
            Ok(q) => spec_selection_ok(queue_flags@, q),
            Err(e) => spec_selection_err(queue_flags@, e),
        },
{
    let compute = match find_first_family(queue_flags, QUEUE_COMPUTE) {
        Some(i) => i,
        None => {
            return Err(MissingQueue::Compute);
        },
    };
    let graphics = match find_first_family(queue_flags, QUEUE_GRAPHICS) {
        Some(i) => i,
        None => {
            return Err(MissingQueue::Graphics);
        },
    };
    let encode = match find_first_family(queue_flags, QUEUE_VIDEO_ENCODE | QUEUE_TRANSFER) {
        Some(i) => i,
        None => {
            return Err(MissingQueue::Encode);
        },
    };
    let decode = match find_first_family(queue_flags, QUEUE_VIDEO_DECODE) {
        Some(i) => i,
        None => {
            return Err(MissingQueue::Decode);
        },
    };
    Ok(QueueFamilySelection { graphics, compute, encode, decode })
}

/// The queue requests after the layer adds its own: each of the compute,
/// encode and decode families gets a single-queue request if neither the
/// application nor an earlier addition asked for it.
pub open spec fn spec_augmented_requests(requested: Seq<u32>, compute: u32, encode: u32, decode: u32) -> Seq<u32> {
    let with_compute = if requested.contains(compute) {
        requested
    } else {
        requested.push(compute)
    };
    let with_encode = if with_compute.contains(encode) {
        with_compute
    } else {
        with_compute.push(encode)
    };
    if with_encode.contains(decode) {
        with_encode
    } else {
        with_encode.push(decode)
    }
}

/// Whether a family already has a queue request.
fn contains_family(requested: &Vec<u32>, family: u32) -> (r: bool)
    ensures
        r == requested@.contains(family),
{
    let mut i: usize = 0;
    while i < requested.len()
        invariant
            i <= requested@.len(),
            forall|j: int| 0 <= j < i ==> requested@[j] != family,
        decreases requested@.len() - i,
    {
        if requested[i] == family {
            return true;
        }
        i = i + 1;
    }
    proof {
        assert(!requested@.contains(family));
    }
    false
}

/// Append the layer's queue requests to the application's.
pub fn augment_queue_requests(requested: &Vec<u32>, compute: u32, encode: u32, decode: u32) -> (r:
    Vec<u32>)
    ensures
        r@ == spec_augmented_requests(requested@, compute, encode, decode),
        r@.contains(compute),
        r@.contains(encode),
        r@.contains(decode),
{
    let mut r: Vec<u32> = Vec::new();
    let mut i: usize = 0;
    while i < requested.len()
        invariant
            i <= requested@.len(),
            r@ == requested@.subrange(0, i as int),
        decreases requested@.len() - i,
    {
        r.push(requested[i]);
        i = i + 1;
    }
    proof {
        assert(requested@.subrange(0, requested@.len() as int) =~= requested@);
    }
    if !contains_family(&r, compute) {
        r.push(compute);
    }
    if !contains_family(&r, encode) {
        r.push(encode);
    }
    if !contains_family(&r, decode) {
        r.push(decode);
    }
    proof {
        let s = spec_augmented_requests(requested@, compute, encode, decode);
        assert(r@ =~= s);
        let s1 = if requested@.contains(compute) {
            requested@
        } else {
            requested@.push(compute)
        };
        let s2 = if s1.contains(encode) {
            s1
        } else {
            s1.push(encode)
        };
        if !requested@.contains(compute) {
            lemma_push_contains_self(requested@, compute);
        }
        if !s1.contains(encode) {
            lemma_push_contains(s1, compute, encode);
            lemma_push_contains_self(s1, encode);
        }
        if !s2.contains(decode) {
            lemma_push_contains(s2, compute, decode);
            lemma_push_contains(s2, encode, decode);
            lemma_push_contains_self(s2, decode);
        }
    }
    r
}

proof fn lemma_push_contains(s: Seq<u32>, x: u32, y: u32)
    requires
        s.contains(x),
    ensures
        s.push(y).contains(x),
{
    let i = choose|i: int| 0 <= i < s.len() && s[i] == x;
    assert(s.push(y)[i] == x);
}

proof fn lemma_push_contains_self(s: Seq<u32>, x: u32)
    ensures
        s.push(x).contains(x),
{
    assert(s.push(x)[s.len() as int] == x);
}

/// The API version the patched instance asks for: what the application
/// requested, raised to the version Vulkan Video needs.
pub fn patched_api_version(requested: u32) -> (r: u32)
    ensures
        r == if requested >= LAYER_MIN_API_VERSION {
            requested
        } else {
            LAYER_MIN_API_VERSION
        },
{
    if requested >= LAYER_MIN_API_VERSION {
        requested
    } else {
        LAYER_MIN_API_VERSION
    }
}

/// The instance-level calls the layer intercepts.
#[derive(Debug, Copy, Clone, PartialEq, Eq, Structural)]
pub enum InstanceHook {
    CreateInstance,
    CreateDevice,
}

/// The device-level calls the layer intercepts.
#[derive(Debug, Copy, Clone, PartialEq, Eq, Structural)]
pub enum DeviceHook {
    CreateSwapchain,
    DestroySwapchain,
    DestroyDevice,
    QueuePresent,
}

/// Which hook, if any, answers an instance-procedure lookup; every other
/// name goes to the next layer in the chain.
pub fn instance_hook(fn_name: &str) -> (r: Option<InstanceHook>)
    ensures
        r == (if fn_name@ == "vkCreateDevice"@ {
            Some(InstanceHook::CreateDevice)
        } else if fn_name@ == "vkCreateInstance"@ {
            Some(InstanceHook::CreateInstance)
        } else {
            None::<InstanceHook>
        }),
{
    if str_eq(fn_name, "vkCreateDevice") {
        Some(InstanceHook::CreateDevice)
    } else if str_eq(fn_name, "vkCreateInstance") {
        Some(InstanceHook::CreateInstance)
    } else {
        None
    }
}

/// Which hook, if any, answers a device-procedure lookup.
pub fn device_hook(fn_name: &str) -> (r: Option<DeviceHook>)
    ensures
        r == (if fn_name@ == "vkCreateSwapchainKHR"@ {
            Some(DeviceHook::CreateSwapchain)
        } else if fn_name@ == "vkDestroySwapchainKHR"@ {
            Some(DeviceHook::DestroySwapchain)
        } else if fn_name@ == "vkDestroyDevice"@ {
            Some(DeviceHook::DestroyDevice)
        } else if fn_name@ == "vkQueuePresentKHR"@ {
            Some(DeviceHook::QueuePresent)
        } else {
            None::<DeviceHook>
        }),
{
    if str_eq(fn_name, "vkCreateSwapchainKHR") {
        Some(DeviceHook::CreateSwapchain)
    } else if str_eq(fn_name, "vkDestroySwapchainKHR") {
        Some(DeviceHook::DestroySwapchain)
    } else if str_eq(fn_name, "vkDestroyDevice") {
        Some(DeviceHook::DestroyDevice)
    } else if str_eq(fn_name, "vkQueuePresentKHR") {
        Some(DeviceHook::QueuePresent)
    } else {
        None
    }
}

/// Whether the loader's interface version lets the layer publish its
/// procedure-address hooks.
pub fn negotiate_loader_layer_interface_version(loader_version: u32) -> (r: bool)
    ensures
        r == (loader_version >= 2),
{
    loader_version >= 2
}

/// The seven device extensions recording needs, appended to whatever the
/// application enabled.
pub fn required_device_extensions() -> (r: Vec<&'static str>)
    ensures
        r@.len() == 7,
        r@[0]@ == "VK_KHR_video_queue"@,
        r@[1]@ == "VK_KHR_video_decode_queue"@,
        r@[2]@ == "VK_KHR_video_encode_queue"@,
        r@[3]@ == "VK_KHR_video_decode_h264"@,
        r@[4]@ == "VK_KHR_video_decode_h265"@,
        r@[5]@ == "VK_KHR_video_encode_h264"@,
        r@[6]@ == "VK_KHR_video_encode_h265"@,
{
    let mut r: Vec<&'static str> = Vec::new();
    r.push("VK_KHR_video_queue");
    r.push("VK_KHR_video_decode_queue");
    r.push("VK_KHR_video_encode_queue");
    r.push("VK_KHR_video_decode_h264");
    r.push("VK_KHR_video_decode_h265");
    r.push("VK_KHR_video_encode_h264");
    r.push("VK_KHR_video_encode_h265");
    r
}

/// The device features the layer enables when the application has not.
#[derive(Debug, Copy, Clone, PartialEq, Eq, Structural)]
pub struct RequiredFeatures {
    pub sampler_ycbcr_conversion: bool,
    pub timeline_semaphore: bool,
    pub buffer_device_address: bool,
    pub synchronization2: bool,
    pub private_data: bool,
}

pub fn required_device_features() -> (r: RequiredFeatures)
    ensures
        r.sampler_ycbcr_conversion,
        r.timeline_semaphore,
        r.buffer_device_address,
        r.synchronization2,
        r.private_data,
{
    RequiredFeatures {
        sampler_ycbcr_conversion: true,
        timeline_semaphore: true,
        buffer_device_address: true,
        synchronization2: true,
        private_data: true,
    }
}

/// Everything the patched device creation decides: the chosen queue
/// families, the queue requests after the layer's additions, and the
/// extensions and features to enable.
pub struct DeviceCreationPlan {
    pub families: QueueFamilySelection,
    pub queue_requests: Vec<u32>,
    pub extensions: Vec<&'static str>,
    pub features: RequiredFeatures,
}

/// The decision spine of the patched device creation: pick the queue
/// families from the device's flag words, add the layer's queue requests
/// to the application's, and name the extensions and features to enable —
/// failing with the first capability the device lacks.
pub fn plan_device_creation(
    queue_family_flags: &Vec<u32>,
    requested_queue_families: &Vec<u32>,
) -> (r: Result<DeviceCreationPlan, MissingQueue>)
    requires
        queue_family_flags@.len() <= u32::MAX,
    ensures
        match r {
            Ok(p) => spec_selection_ok(queue_family_flags@, p.families) && p.queue_requests@
                == spec_augmented_requests(
                requested_queue_families@,
                p.families.compute as u32,
                p.families.encode as u32,
                p.families.decode as u32,
            ) && p.extensions@.len() == 7 && p.extensions@[0]@ == "VK_KHR_video_queue"@
                && p.extensions@[1]@ == "VK_KHR_video_decode_queue"@ && p.extensions@[2]@
                == "VK_KHR_video_encode_queue"@ && p.extensions@[3]@
                == "VK_KHR_video_decode_h264"@ && p.extensions@[4]@
                == "VK_KHR_video_decode_h265"@ && p.extensions@[5]@
                == "VK_KHR_video_encode_h264"@ && p.extensions@[6]@
                == "VK_KHR_video_encode_h265"@ && p.features.sampler_ycbcr_conversion
                && p.features.timeline_semaphore && p.features.buffer_device_address
                && p.features.synchronization2 && p.features.private_data,
            Err(e) => spec_selection_err(queue_family_flags@, e),
        },
{
    let families = match select_queue_families(queue_family_flags) {
        Ok(q) => q,
        Err(e) => {
            return Err(e);
        },
    };
    let queue_requests = augment_queue_requests(
        requested_queue_families,
        families.compute as u32,
        families.encode as u32,
        families.decode as u32,
    );
    Ok(
        DeviceCreationPlan {
            families,
            queue_requests,
            extensions: required_device_extensions(),
            features: required_device_features(),
        },
    )
}

/// The first memory type that the resource accepts (its bit is set in
/// `memory_type_bits`) and whose property flags carry all wanted bits.
pub fn find_memorytype_index(memory_type_bits: u32, type_flags: &Vec<u32>, flags: u32) -> (r:
    Option<u32>)
    requires
        type_flags@.len() <= 32,
    ensures
        match r {
            Some(i) => i < type_flags@.len() && (memory_type_bits >> i) & 1 == 1 && has_bits(
                type_flags@[i as int],
                flags,
            ) && forall|j: int|
                0 <= j < i ==> !((memory_type_bits >> j as u32) & 1 == 1 && has_bits(
                    type_flags@[j],
                    flags,
                )),
            None => forall|j: int|
                0 <= j < type_flags@.len() ==> !((memory_type_bits >> j as u32) & 1 == 1
                    && has_bits(type_flags@[j], flags)),
        },
{
    let mut i: u32 = 0;
    while (i as usize) < type_flags.len()
        invariant
            type_flags@.len() <= 32,
            i <= type_flags@.len(),
            forall|j: int|
                0 <= j < i ==> !((memory_type_bits >> j as u32) & 1 == 1 && has_bits(
                    type_flags@[j],
                    flags,
                )),
        decreases type_flags@.len() - i,
    {
        if (memory_type_bits >> i) & 1 == 1 && type_flags[i as usize] & flags == flags {
            return Some(i);
        }
        i = i + 1;
    }
    None
}

} // verus!
