//! The encode engine behind the present hook: picture-type and GOP
//! decisions, rate-control parameters, reference-slot selection, timeline
//! values, and the shape of the compute and encode command buffers that one
//! frame submits.
//!
//! Everything here is a decision on plain values; recording the planned
//! commands against the device is the embedder's part.

use vstd::prelude::*;

verus! {

use crate::settings::Codec;
use crate::video_session::VideoSession;
use crate::spec_round_up;
use crate::round_up_to_multiple;

/// Constant-bitrate parameters.
#[derive(Debug, Copy, Clone)]
pub struct CbrOptions {
    pub max_bitrate: u64,
    pub average_bitrate: u64,
    pub frame_rate_numerator: u32,
    pub frame_rate_denominator: u32,
}

/// The rate-control discipline and its parameters.
#[non_exhaustive]
#[derive(Debug, Copy, Clone)]
pub enum RateControlKind {
    Cbr(CbrOptions),
}

impl RateControlKind {
    /// The CBR parameters, whichever variant holds them.
    pub open spec fn spec_cbr(&self) -> CbrOptions {
        match *self {
            RateControlKind::Cbr(c) => c,
        }
    }

    pub fn as_cbr(&self) -> (r: Option<&CbrOptions>)
        ensures
            r matches Some(c) && *c == self.spec_cbr(),
    {
        #[allow(irrefutable_let_patterns)]
        if let RateControlKind::Cbr(v) = self {
            Some(v)
        } else {
            None
        }
    }

    pub fn as_cbr_mut(&mut self) -> (r: Option<&mut CbrOptions>)
        ensures
            r matches Some(c) && *c == old(self).spec_cbr() && *final(self)
                == RateControlKind::Cbr(*final(c)),
    {
        #[allow(irrefutable_let_patterns)]
        if let RateControlKind::Cbr(v) = self {
            Some(v)
        } else {
            None
        }
    }

    /// Returns `true` if the rate control kind is [`Cbr`].
    ///
    /// [`Cbr`]: RateControlKind::Cbr
    #[must_use]
    pub fn is_cbr(&self) -> (r: bool)
        ensures
            r == (*self matches RateControlKind::Cbr(_)),
    {
        matches!(self, RateControlKind::Cbr(..))
    }
}

/// Rate control plus the virtual-buffer and quality-level settings that ride
/// along in the coding-control command.
#[derive(Debug, Copy, Clone)]
pub struct RateControlOptions {
    pub kind: RateControlKind,
    pub virtual_buffer_size_in_ms: u32,
    pub initial_virtual_buffer_size_in_ms: u32,
    pub quality_level: u32,
}

/// How a picture is coded.
#[derive(Debug, Copy, Clone, PartialEq, Eq, Structural)]
pub enum PictureType {
    Idr,
    I,
    P,
    B,
}

impl PictureType {
    /// The `StdVideoH264SliceType` code of this picture type (P 0, B 1, I 2;
    /// IDR pictures carry I slices).
    pub fn as_h264_slice_type(self) -> (r: u32)
        ensures
            r == match self {
                PictureType::Idr | PictureType::I => 2u32,
                PictureType::P => 0u32,
                PictureType::B => 1u32,
            },
    {
        match self {
            PictureType::Idr | PictureType::I => 2,
            PictureType::P => 0,
            PictureType::B => 1,
        }
    }

    /// The `StdVideoH265SliceType` code of this picture type (B 0, P 1, I 2).
    pub fn as_h265_slice_type(&self) -> (r: u32)
        ensures
            r == match *self {
                PictureType::Idr | PictureType::I => 2u32,
                PictureType::P => 1u32,
                PictureType::B => 0u32,
            },
    {
        match self {
            PictureType::Idr | PictureType::I => 2,
            PictureType::P => 1,
            PictureType::B => 0,
        }
    }

    /// The `StdVideoH264PictureType` code (P 0, B 1, I 2, IDR 5).
    pub fn as_h264_picture_type(self) -> (r: u32)
        ensures
            r == match self {
                PictureType::Idr => 5u32,
                PictureType::I => 2u32,
                PictureType::P => 0u32,
                PictureType::B => 1u32,
            },
    {
        match self {
            PictureType::Idr => 5,
            PictureType::I => 2,
            PictureType::P => 0,
            PictureType::B => 1,
        }
    }

    /// The `StdVideoH265PictureType` code (P 0, B 1, I 2, IDR 3).
    pub fn as_h265_picture_type(&self) -> (r: u32)
        ensures
            r == match *self {
                PictureType::Idr => 3u32,
                PictureType::I => 2u32,
                PictureType::P => 0u32,
                PictureType::B => 1u32,
            },
    {
        match self {
            PictureType::Idr => 3,
            PictureType::I => 2,
            PictureType::P => 0,
            PictureType::B => 1,
        }
    }

    /// Returns `true` if the picture type is [`Idr`].
    ///
    /// [`Idr`]: PictureType::Idr
    #[must_use]
    pub fn is_idr(&self) -> (r: bool)
        ensures
            r == (*self matches PictureType::Idr),
    {
        matches!(self, PictureType::Idr)
    }

    /// Returns `true` if the picture type is [`I`].
    ///
    /// [`I`]: PictureType::I
    #[must_use]
    pub fn is_i(&self) -> (r: bool)
        ensures
            r == (*self matches PictureType::I),
    {
        matches!(self, PictureType::I)
    }

    /// Returns `true` if the picture type is [`P`].
    ///
    /// [`P`]: PictureType::P
    #[must_use]
    pub fn is_p(&self) -> (r: bool)
        ensures
            r == (*self matches PictureType::P),
    {
        matches!(self, PictureType::P)
    }

    /// Returns `true` if the picture type is [`B`].
    ///
    /// [`B`]: PictureType::B
    #[must_use]
    pub fn is_b(&self) -> (r: bool)
        ensures
            r == (*self matches PictureType::B),
    {
        matches!(self, PictureType::B)
    }
}

/// GOP shape handed to the engine at construction.
#[derive(Debug, Copy, Clone)]
pub struct GopOptions {
    pub use_nvpro: bool,
    pub gop_size: u64,
    pub idr_period: u64,
    pub max_consecutive_b_frames: u64,
    pub last_frame_type: PictureType,
}

/// The macroblock granularity a codec codes at: 16 for H.264, 32 for H.265.
pub open spec fn spec_block_size(codec: Codec) -> nat {
    match codec {
        Codec::H264 => 16,
        Codec::H265 => 32,
        Codec::AV1 => 0,
    }
}

/// The decision state of the per-swapchain encode engine.
#[derive(Debug, Copy, Clone)]
pub struct Dpb {
    pub extent_width: u32,
    pub extent_height: u32,
    pub coded_width: u32,
    pub coded_height: u32,
    pub num_images: u32,
    pub num_dpb_images: u32,
    pub next_image: u32,
    pub frame_index: u64,
    pub gop_size: u64,
    pub rate_control_options: RateControlOptions,
}

/// What the coding-control command sets when the session needs a reset:
/// a session reset, CBR rate control, and a quality level, plus the
/// codec-specific regular-GOP record.
#[derive(Debug, Copy, Clone)]
pub struct CodingControlPlan {
    pub average_bitrate: u64,
    pub max_bitrate: u64,
    pub frame_rate_numerator: u32,
    pub frame_rate_denominator: u32,
    pub virtual_buffer_size_in_ms: u32,
    pub initial_virtual_buffer_size_in_ms: u32,
    pub gop_frame_count: u64,
    pub idr_period: u64,
    pub consecutive_b_frame_count: u32,
    pub quality_level: u32,
}

/// Everything one frame's compute and encode submissions depend on.
#[derive(Debug, Copy, Clone)]
pub struct FramePlan {
    /// How the picture is coded.
    pub picture_type: PictureType,
    /// The coding-control command to issue before this encode, present
    /// exactly when the session carried `needs_reset`.
    pub coding_control: Option<CodingControlPlan>,
    /// Input image written by color conversion and read by the encoder.
    pub input_slot: u32,
    /// The H.264 `frame_num` syntax element: the in-GOP index,
    /// `frame_index mod gop_size`.
    pub frame_num: u64,
    /// Picture order count: twice the in-GOP index.
    pub pic_order_cnt: u64,
    /// DPB slot of the backward reference, for P pictures only.
    pub reference_slot: Option<u64>,
    /// Slot index the reconstructed picture is set up into.
    pub setup_slot: u64,
    /// DPB view bound to the setup slot.
    pub setup_view: u64,
    /// `FrameNum` of the setup reference record: the previous in-GOP
    /// index, or zero at a GOP opener.
    pub setup_frame_num: u64,
    /// Picture order count of the setup reference record.
    pub setup_pic_order_cnt: u64,
    /// H.265 marks every picture as a reference except frame
    /// `gop_size - 1` of the whole stream.
    pub h265_is_reference: bool,
    /// The compute submission signals the compute timeline with this value.
    pub compute_signal_value: u64,
    /// The encode submission waits for the encode timeline to reach this.
    pub encode_wait_value: u64,
    /// The encode submission signals the encode timeline with this value.
    pub encode_signal_value: u64,
}

/// Which picture a frame becomes: an IDR when the session was reset or the
/// frame opens a GOP, a P picture otherwise.
pub open spec fn spec_picture_type(needs_reset: bool, frame_index: u64, gop_size: u64) -> PictureType {
    if needs_reset || frame_index as nat % gop_size as nat == 0 {
        PictureType::Idr
    } else {
        PictureType::P
    }
}

impl Dpb {
    /// The engine's state is meaningful: cursors inside their rings and room
    /// to count frames.
    pub open spec fn wf(&self) -> bool {
        &&& self.gop_size >= 1
        &&& self.num_images >= 1
        &&& self.num_dpb_images >= 1
        &&& self.next_image < self.num_images
        &&& self.frame_index < u64::MAX
        &&& self.gop_size <= 0x4000_0000_0000_0000
    }

    /// Set up the engine: round the extent up to the codec's block size,
    /// clamp the peak bitrate to at least the average, and start counting
    /// frames at zero.  AV1 has no encode path.
    pub fn new(
        codec: Codec,
        width: u32,
        height: u32,
        num_dpb_images: u32,
        num_inflight_images: u32,
        gop_options: &GopOptions,
        rate_control_options: &RateControlOptions,
    ) -> (r: Dpb)
        requires
            codec != Codec::AV1,
            width + 32 <= u32::MAX,
            height + 32 <= u32::MAX,
            num_dpb_images >= 1,
            num_inflight_images >= 1,
            1 <= gop_options.gop_size <= 0x4000_0000_0000_0000,
        ensures
            r.wf(),
            r.extent() == (width, height),
            r.coded_extent_spec() == (
                spec_round_up(width as nat, spec_block_size(codec)) as u32,
                spec_round_up(height as nat, spec_block_size(codec)) as u32,
            ),
            r.num_input_images() == num_inflight_images,
            r.num_dpb_slots() == num_dpb_images,
            r.frame_index() == 0,
            r.next_input() == 0,
            r.gop_size() == gop_options.gop_size,
            r.rate_control().virtual_buffer_size_in_ms
                == rate_control_options.virtual_buffer_size_in_ms,
            r.rate_control().initial_virtual_buffer_size_in_ms
                == rate_control_options.initial_virtual_buffer_size_in_ms,
            r.rate_control().quality_level == rate_control_options.quality_level,
            r.rate_control().kind.spec_cbr().average_bitrate
                == rate_control_options.kind.spec_cbr().average_bitrate,
            r.rate_control().kind.spec_cbr().max_bitrate == (
            if rate_control_options.kind.spec_cbr().max_bitrate
                < rate_control_options.kind.spec_cbr().average_bitrate {
                rate_control_options.kind.spec_cbr().average_bitrate
            } else {
                rate_control_options.kind.spec_cbr().max_bitrate
            }),
            r.rate_control().kind.spec_cbr().frame_rate_numerator
                == rate_control_options.kind.spec_cbr().frame_rate_numerator,
            r.rate_control().kind.spec_cbr().frame_rate_denominator
                == rate_control_options.kind.spec_cbr().frame_rate_denominator,
    {
        let mut rate_control = *rate_control_options;
        if let Some(cbr) = rate_control.kind.as_cbr_mut() {
            if cbr.max_bitrate < cbr.average_bitrate {
                cbr.max_bitrate = cbr.average_bitrate;
            }
        }
        let block: u32 = match codec {
            Codec::H264 => 16,
            Codec::H265 => 32,
            Codec::AV1 => 16,
        };
        let coded_width = round_up_to_multiple(width, block);
        let coded_height = round_up_to_multiple(height, block);
        Dpb {
            extent_width: width,
            extent_height: height,
            coded_width,
            coded_height,
            num_images: num_inflight_images,
            num_dpb_images,
            next_image: 0,
            frame_index: 0,
            gop_size: gop_options.gop_size,
            rate_control_options: rate_control,
        }
    }

    /// What one engine allocates: descriptor sets for every pair of a
    /// presented view and an input image, ten-deep command rings waiting up
    /// to 100 units per fence, and a thirty-deep bitstream ring of
    /// five-megabyte buffers.
    pub fn resource_plan(&self, max_input_image_views: u32) -> (r: ResourcePlan)
        requires
            max_input_image_views * self.num_images <= u32::MAX,
        ensures
            r.descriptor_set_count == max_input_image_views * self.num_images,
            r.cmd_ring_length == 10,
            r.cmd_ring_timeout == 100,
            r.bitstream_buffer_count == 30,
            r.bitstream_buffer_size == 5_000_000,
            r.views_per_input_image == 3,
    {
        ResourcePlan {
            descriptor_set_count: max_input_image_views * self.num_images,
            cmd_ring_length: 10,
            cmd_ring_timeout: 100,
            bitstream_buffer_count: 30,
            bitstream_buffer_size: 5_000_000,
            views_per_input_image: 3,
        }
    }

    /// The extent the application presents at.
    pub open spec fn extent(&self) -> (u32, u32) {
        (self.extent_width, self.extent_height)
    }

    /// The extent the encoder codes at.
    pub fn coded_extent(&self) -> (r: (u32, u32))
        ensures
            r == self.coded_extent_spec(),
    {
        (self.coded_width, self.coded_height)
    }

    pub open spec fn coded_extent_spec(&self) -> (u32, u32) {
        (self.coded_width, self.coded_height)
    }

    pub open spec fn num_input_images(&self) -> u32 {
        self.num_images
    }

    pub open spec fn num_dpb_slots(&self) -> u32 {
        self.num_dpb_images
    }

    pub open spec fn frame_index(&self) -> u64 {
        self.frame_index
    }

    pub open spec fn next_input(&self) -> u32 {
        self.next_image
    }

    pub open spec fn gop_size(&self) -> u64 {
        self.gop_size
    }

    pub open spec fn rate_control(&self) -> RateControlOptions {
        self.rate_control_options
    }

    /// The frame plan the engine at this state emits, given the session's
    /// reset flag.
    pub open spec fn spec_frame_plan(&self, needs_reset: bool) -> FramePlan {
        let f = self.frame_index as nat;
        let gop = self.gop_size as nat;
        let n = self.num_dpb_images as nat;
        let picture_type = spec_picture_type(needs_reset, self.frame_index, self.gop_size);
        FramePlan {
            picture_type,
            coding_control: if needs_reset {
                Some(self.spec_coding_control())
            } else {
                None
            },
            input_slot: self.next_image,
            frame_num: (f % gop) as u64,
            pic_order_cnt: (2 * (f % gop)) as u64,
            reference_slot: if picture_type is P {
                Some(((((f + n) as int - 1) % (n as int))) as u64)
            } else {
                None
            },
            setup_slot: ((((f + n) as int - 1) % (n as int))) as u64,
            setup_view: (f % n) as u64,
            setup_frame_num: if f % gop != 0 {
                (f % gop - 1) as u64
            } else {
                0u64
            },
            setup_pic_order_cnt: if f % gop != 0 {
                (2 * (f % gop - 1)) as u64
            } else {
                0u64
            },
            h265_is_reference: self.frame_index != self.gop_size - 1,
            compute_signal_value: (f + 1) as u64,
            encode_wait_value: self.frame_index,
            encode_signal_value: (f + 1) as u64,
        }
    }

    /// The coding-control command of a reset: CBR with the engine's
    /// bitrates and frame rate, the GOP record sized to the configured GOP,
    /// no consecutive B frames.
    pub open spec fn spec_coding_control(&self) -> CodingControlPlan {
        let cbr = self.rate_control_options.kind.spec_cbr();
        CodingControlPlan {
            average_bitrate: cbr.average_bitrate,
            max_bitrate: cbr.max_bitrate,
            frame_rate_numerator: cbr.frame_rate_numerator,
            frame_rate_denominator: cbr.frame_rate_denominator,
            virtual_buffer_size_in_ms: self.rate_control_options.virtual_buffer_size_in_ms,
            initial_virtual_buffer_size_in_ms:
                self.rate_control_options.initial_virtual_buffer_size_in_ms,
            gop_frame_count: self.gop_size,
            idr_period: self.gop_size,
            consecutive_b_frame_count: 0,
            quality_level: self.rate_control_options.quality_level,
        }
    }

    /// The engine state after one frame: the input cursor moves around its
    /// ring and the frame count grows by one.
    pub open spec fn spec_step(&self) -> Dpb {
        Dpb {
            next_image: if self.next_image + 1 < self.num_images {
                (self.next_image + 1) as u32
            } else {
                0
            },
            frame_index: (self.frame_index + 1) as u64,
            ..*self
        }
    }

    /// Decide one frame without committing anything: exactly the plan that
    /// `encode_frame` would return for this state and this session.  The
    /// embedder plans, records and submits, and commits with `encode_frame`
    /// only once the submissions succeeded — so a failed frame leaves every
    /// cursor and the session untouched, and the next present starts over.
    pub fn plan_frame(&self, session: &VideoSession) -> (plan: FramePlan)
        requires
            self.wf(),
        ensures
            plan == self.spec_frame_plan(session.needs_reset_spec()),
    {
        let needs_reset = session.needs_reset();
        let picture_type = if needs_reset || self.frame_index % self.gop_size == 0 {
            PictureType::Idr
        } else {
            PictureType::P
        };
        let coding_control = if needs_reset {
            let cbr = *self.rate_control_options.kind.as_cbr().unwrap();
            Some(
                CodingControlPlan {
                    average_bitrate: cbr.average_bitrate,
                    max_bitrate: cbr.max_bitrate,
                    frame_rate_numerator: cbr.frame_rate_numerator,
                    frame_rate_denominator: cbr.frame_rate_denominator,
                    virtual_buffer_size_in_ms: self.rate_control_options.virtual_buffer_size_in_ms,
                    initial_virtual_buffer_size_in_ms:
                        self.rate_control_options.initial_virtual_buffer_size_in_ms,
                    gop_frame_count: self.gop_size,
                    idr_period: self.gop_size,
                    consecutive_b_frame_count: 0,
                    quality_level: self.rate_control_options.quality_level,
                },
            )
        } else {
            None
        };
        let gop_index = self.frame_index % self.gop_size;
        let n = self.num_dpb_images as u64;
        let prev_slot = if self.frame_index == 0 {
            n - 1
        } else {
            (self.frame_index - 1) % n
        };
        proof {
            let f = self.frame_index as int;
            let ni = n as int;
            if f == 0 {
                vstd::arithmetic::div_mod::lemma_small_mod((ni - 1) as nat, ni as nat);
            } else {
                vstd::arithmetic::div_mod::lemma_mod_multiples_vanish(1, f - 1, ni);
            }
        }
        let plan = FramePlan {
            picture_type,
            coding_control,
            input_slot: self.next_image,
            frame_num: gop_index,
            pic_order_cnt: 2 * gop_index,
            reference_slot: if matches!(picture_type, PictureType::P) {
                Some(prev_slot)
            } else {
                None
            },
            setup_slot: prev_slot,
            setup_view: self.frame_index % n,
            setup_frame_num: if gop_index != 0 {
                gop_index - 1
            } else {
                0
            },
            setup_pic_order_cnt: if gop_index != 0 {
                2 * (gop_index - 1)
            } else {
                0
            },
            h265_is_reference: self.frame_index != self.gop_size - 1,
            compute_signal_value: self.frame_index + 1,
            encode_wait_value: self.frame_index,
            encode_signal_value: self.frame_index + 1,
        };
        proof {
            let f = self.frame_index as nat;
            vstd::arithmetic::div_mod::lemma_mod_bound(f as int, self.gop_size as int);
            vstd::arithmetic::div_mod::lemma_mod_bound(
                (f + n) as int - 1,
                self.num_dpb_images as int,
            );
            vstd::arithmetic::div_mod::lemma_mod_bound(f as int, self.num_dpb_images as int);
        }
        plan
    }

    /// Commit the frame the embedder just submitted: consume the session's
    /// reset flag and move the input cursor and frame count on.  Returns
    /// the committed frame's plan, the same value `plan_frame` gave.  The
    /// submissions carry `compute_signal_value`, wait on
    /// `encode_wait_value` and signal `encode_signal_value`.
    pub fn encode_frame(&mut self, session: &mut VideoSession) -> (plan: FramePlan)
        requires
            old(self).wf(),
        ensures
            plan == old(self).spec_frame_plan(old(session).needs_reset_spec()),
            *final(self) == old(self).spec_step(),
            !final(session).needs_reset_spec(),
            final(session).codec_spec() == old(session).codec_spec(),
    {
        let plan = self.plan_frame(session);
        session.set_needs_reset(false);
        self.next_image = self.next_image + 1;
        if self.next_image >= self.num_images {
            self.next_image = 0;
        }
        self.frame_index = self.frame_index + 1;
        plan
    }
}

/// How much one engine allocates at construction.  Every input image gets
/// a two-plane color view plus single-plane luma and chroma views.
#[derive(Debug, Copy, Clone, PartialEq, Eq, Structural)]
pub struct ResourcePlan {
    pub descriptor_set_count: u32,
    pub cmd_ring_length: u32,
    pub cmd_ring_timeout: u64,
    pub bitstream_buffer_count: u32,
    pub bitstream_buffer_size: u64,
    pub views_per_input_image: u32,
}

/// The shape of one prerecorded color-conversion command buffer: the
/// queue-family ownership transfers around the compute dispatch, the
/// storage-image bindings, the push constants and the dispatch size.
///
/// The presented image is acquired from the present family into the compute
/// family (PRESENT_SRC to GENERAL), the input image is acquired from the
/// encode family (UNDEFINED to GENERAL), and after the dispatch the
/// presented image is released back (GENERAL to PRESENT_SRC).
#[derive(Debug, Copy, Clone, PartialEq, Eq, Structural)]
pub struct ConversionPlan {
    pub present_acquire_src_family: u32,
    pub present_acquire_dst_family: u32,
    pub input_acquire_src_family: u32,
    pub input_acquire_dst_family: u32,
    pub present_release_src_family: u32,
    pub present_release_dst_family: u32,
    pub binding_present: u32,
    pub binding_luma: u32,
    pub binding_chroma: u32,
    pub push_constant_width: u32,
    pub push_constant_height: u32,
    pub dispatch_x: u32,
    pub dispatch_y: u32,
    pub dispatch_z: u32,
}

impl Dpb {
    /// Plan the color-conversion command buffer recorded once per
    /// (presented image, input slot) pair.  Only the two B8G8R8A8 swapchain
    /// formats (`VK_FORMAT_B8G8R8A8_UNORM` 44 and `VK_FORMAT_B8G8R8A8_SRGB`
    /// 50) have a conversion.
    pub fn prerecord_input_image_conversions(
        &self,
        input_format: u32,
        src_queue_family_index: u32,
        dst_queue_family_index: u32,
        compute_family_index: u32,
        encode_family_index: u32,
    ) -> (r: ConversionPlan)
        requires
            input_format == 44 || input_format == 50,
            self.coded_width + 7 <= u32::MAX,
            self.coded_height + 7 <= u32::MAX,
        ensures
            r.present_acquire_src_family == src_queue_family_index,
            r.present_acquire_dst_family == compute_family_index,
            r.input_acquire_src_family == encode_family_index,
            r.input_acquire_dst_family == compute_family_index,
            r.present_release_src_family == compute_family_index,
            r.present_release_dst_family == dst_queue_family_index,
            r.binding_present == 0 && r.binding_luma == 1 && r.binding_chroma == 2,
            r.push_constant_width == self.extent_width,
            r.push_constant_height == self.extent_height,
            r.dispatch_x == (self.coded_width + 7) as u32 / 8,
            r.dispatch_y == (self.coded_height + 7) as u32 / 8,
            r.dispatch_z == 1,
    {
        ConversionPlan {
            present_acquire_src_family: src_queue_family_index,
            present_acquire_dst_family: compute_family_index,
            input_acquire_src_family: encode_family_index,
            input_acquire_dst_family: compute_family_index,
            present_release_src_family: compute_family_index,
            present_release_dst_family: dst_queue_family_index,
            binding_present: 0,
            binding_luma: 1,
            binding_chroma: 2,
            push_constant_width: self.extent_width,
            push_constant_height: self.extent_height,
            dispatch_x: (self.coded_width + 7) / 8,
            dispatch_y: (self.coded_height + 7) / 8,
            dispatch_z: 1,
        }
    }
}

/// The engine `k` frames after `d`.
pub open spec fn dpb_after(d: Dpb, k: nat) -> Dpb
    decreases k,
{
    if k == 0 {
        d
    } else {
        dpb_after(d, (k - 1) as nat).spec_step()
    }
}

proof fn lemma_dpb_after_unfold(d: Dpb, k: nat)
    requires
        d.frame_index + k <= u64::MAX,
    ensures
        dpb_after(d, k).frame_index == d.frame_index + k,
        dpb_after(d, k).gop_size == d.gop_size,
        dpb_after(d, k).num_images == d.num_images,
        dpb_after(d, k).num_dpb_images == d.num_dpb_images,
        dpb_after(d, k).rate_control_options == d.rate_control_options,
    decreases k,
{
    if k > 0 {
        lemma_dpb_after_unfold(d, (k - 1) as nat);
    }
}

/// Encode-timeline monotonicity: starting from a fresh engine, the k-th
/// frame's encode submission signals the encode timeline with value k, so
/// after k successful frames the timeline stands at exactly k.
pub proof fn lemma_encode_timeline(d: Dpb, k: u64, needs_reset: bool)
    requires
        d.frame_index == 0,
        k >= 1,
    ensures
        dpb_after(d, k as nat).frame_index == k,
        dpb_after(d, (k - 1) as nat).spec_frame_plan(needs_reset).encode_signal_value == k,
{
    lemma_dpb_after_unfold(d, k as nat);
    lemma_dpb_after_unfold(d, (k - 1) as nat);
}

/// GOP shape: in the window of `gop_size` frames that opens at a GOP
/// boundary, the steady-state engine codes the first frame as an IDR
/// picture and no other.
pub proof fn lemma_gop_window(gop_size: u64, start: u64, offset: u64)
    requires
        1 <= gop_size,
        start as nat % gop_size as nat == 0,
        offset < gop_size,
        start + offset <= u64::MAX,
    ensures
        spec_picture_type(false, (start + offset) as u64, gop_size) == PictureType::Idr <==> offset
            == 0,
{
    let g = gop_size as int;
    vstd::arithmetic::div_mod::lemma_fundamental_div_mod(start as int, g);
    vstd::arithmetic::div_mod::lemma_mod_multiples_vanish(
        start as int / g,
        offset as int,
        g,
    );
    vstd::arithmetic::div_mod::lemma_small_mod(offset as nat, gop_size as nat);
}

/// GOP shape, any alignment: two GOP openers less than one GOP apart are the
/// same frame, so a window of `gop_size` consecutive frames holds at most
/// one IDR of the steady state.
pub proof fn lemma_gop_opener_unique(gop_size: u64, f1: u64, f2: u64)
    requires
        1 <= gop_size,
        f1 as nat % gop_size as nat == 0,
        f2 as nat % gop_size as nat == 0,
        f1 <= f2,
        f2 - f1 < gop_size,
    ensures
        f1 == f2,
{
    let g = gop_size as int;
    vstd::arithmetic::div_mod::lemma_fundamental_div_mod(f1 as int, g);
    vstd::arithmetic::div_mod::lemma_fundamental_div_mod(f2 as int, g);
    let q1 = f1 as int / g;
    let q2 = f2 as int / g;
    assert(f1 == g * q1 && f2 == g * q2);
    if q1 < q2 {
        assert(g * q2 - g * q1 >= g) by (nonlinear_arith)
            requires
                q1 < q2,
                g >= 1,
        ;
        assert(false);
    }
    if q2 < q1 {
        assert(g * q1 - g * q2 >= g) by (nonlinear_arith)
            requires
                q2 < q1,
                g >= 1,
        ;
        assert(false);
    }
}

/// Every window of `gop_size` consecutive frames holds a GOP opener.
pub proof fn lemma_gop_opener_exists(gop_size: u64, start: u64)
    requires
        1 <= gop_size,
        start + gop_size <= u64::MAX,
    ensures
        exists|f: u64|
            start <= f < start + gop_size && #[trigger] (f as nat % gop_size as nat) == 0,
{
    let g = gop_size as int;
    let r = start as int % g;
    vstd::arithmetic::div_mod::lemma_fundamental_div_mod(start as int, g);
    if r == 0 {
        assert(start as nat % gop_size as nat == 0);
        assert(start <= start < start + gop_size);
    } else {
        let f = (start + gop_size - r) as u64;
        vstd::arithmetic::mul::lemma_mul_is_distributive_add(g, start as int / g, 1);
        assert(f as int == g * (start as int / g + 1));
        vstd::arithmetic::div_mod::lemma_mod_multiples_basic(start as int / g + 1, g);
        assert(f as nat % gop_size as nat == 0);
        assert(start <= f < start + gop_size);
    }
}

/// Rate-control apply-once: the frame planned while the session needs a
/// reset carries exactly one coding-control command, and the frame after it
/// carries none.
pub proof fn lemma_rate_control_apply_once(d: Dpb, needs_reset: bool)
    ensures
        d.spec_frame_plan(needs_reset).coding_control is Some <==> needs_reset,
        d.spec_step().spec_frame_plan(false).coding_control is None,
{
}

} // verus!
