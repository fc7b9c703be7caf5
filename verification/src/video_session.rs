//! The encode session's decision state: which codec it codes and whether the
//! next encode must issue a coding-control reset.
//!
//! The session object, its bound memory and its parameter-set handle live
//! with the device; what the engine decides on is here.

use vstd::prelude::*;

verus! {

use vstd::string::*;
use crate::settings::Codec;

/// Decision state of one video session.  `needs_reset` is true from creation
/// and after any rate-control change, until the first encode afterwards
/// issues its coding-control command.
#[derive(Debug, Copy, Clone)]
pub struct VideoSession {
    codec: Codec,
    needs_reset: bool,
}

impl VideoSession {
    /// A fresh session always needs a coding-control reset first.
    pub fn new(codec: Codec) -> (r: VideoSession)
        ensures
            r.codec_spec() == codec,
            r.needs_reset_spec(),
    {
        VideoSession { codec, needs_reset: true }
    }

    pub closed spec fn codec_spec(&self) -> Codec {
        self.codec
    }

    pub closed spec fn needs_reset_spec(&self) -> bool {
        self.needs_reset
    }

    pub fn codec(&self) -> (r: Codec)
        ensures
            r == self.codec_spec(),
    {
        self.codec
    }

    pub fn needs_reset(&self) -> (r: bool)
        ensures
            r == self.needs_reset_spec(),
    {
        self.needs_reset
    }

    /// Raised by rate-control changes; cleared by the encode that issued the
    /// coding-control command.
    pub fn set_needs_reset(&mut self, needs_reset: bool)
        ensures
            final(self).needs_reset_spec() == needs_reset,
            final(self).codec_spec() == old(self).codec_spec(),
    {
        self.needs_reset = needs_reset;
    }
}

/// Per-swapchain recording state that the present hook reads and writes:
/// how many frames were handed to the encoder.  A failing frame is skipped
/// — the count stands still, and the host's present goes through either
/// way.
#[derive(Debug, Copy, Clone)]
pub struct SwapChainData {
    frame_index: u64,
}

impl SwapChainData {
    pub fn new() -> (r: SwapChainData)
        ensures
            r.frame_index_spec() == 0,
    {
        SwapChainData { frame_index: 0 }
    }

    pub closed spec fn frame_index_spec(&self) -> u64 {
        self.frame_index
    }

    pub fn frame_index(&self) -> (r: u64)
        ensures
            r == self.frame_index_spec(),
    {
        self.frame_index
    }

    /// Account for one present: the frame count grows exactly when the
    /// frame's encode was dispatched; a failed frame leaves it unchanged.
    pub fn encode_image(&mut self, encoded: bool)
        requires
            old(self).frame_index_spec() < u64::MAX,
        ensures
            final(self).frame_index_spec() == old(self).frame_index_spec() + (if encoded {
                1u64
            } else {
                0u64
            }),
    {
        if encoded {
            self.frame_index = self.frame_index + 1;
        }
    }
}

/// `VK_IMAGE_USAGE_STORAGE_BIT`.
pub const IMAGE_USAGE_STORAGE: u32 = 0x8;

/// The swapchain's image usage with storage added, so the color-conversion
/// compute stage can write the presented images' conversions.
pub fn augment_swapchain_image_usage(image_usage: u32) -> (r: u32)
    ensures
        r == image_usage | IMAGE_USAGE_STORAGE,
{
    image_usage | IMAGE_USAGE_STORAGE
}

/// The character of one decimal digit.
pub open spec fn digit_char(d: nat) -> char {
    ((48 + d) as u8) as char
}

/// `v` in decimal, most significant digit first, no leading zeros.
pub open spec fn spec_decimal(v: nat) -> Seq<char>
    decreases v,
{
    if v < 10 {
        seq![digit_char(v)]
    } else {
        spec_decimal(v / 10).push(digit_char(v % 10))
    }
}

/// `v` in decimal, zero-padded to two digits.
pub open spec fn spec_decimal2(v: nat) -> Seq<char> {
    seq![digit_char(v / 10), digit_char(v % 10)]
}

/// `v` in decimal, zero-padded to four digits.
pub open spec fn spec_decimal4(v: nat) -> Seq<char> {
    seq![
        digit_char(v / 1000),
        digit_char(v / 100 % 10),
        digit_char(v / 10 % 10),
        digit_char(v % 10),
    ]
}

/// The single-character string of one decimal digit.
fn digit_str(d: u64) -> (r: &'static str)
    requires
        d < 10,
    ensures
        r@ == seq![digit_char(d as nat)],
{
    proof {
        reveal_strlit("0");
        reveal_strlit("1");
        reveal_strlit("2");
        reveal_strlit("3");
        reveal_strlit("4");
        reveal_strlit("5");
        reveal_strlit("6");
        reveal_strlit("7");
        reveal_strlit("8");
        reveal_strlit("9");
        assert("0"@ =~= seq![digit_char(0)]);
        assert("1"@ =~= seq![digit_char(1)]);
        assert("2"@ =~= seq![digit_char(2)]);
        assert("3"@ =~= seq![digit_char(3)]);
        assert("4"@ =~= seq![digit_char(4)]);
        assert("5"@ =~= seq![digit_char(5)]);
        assert("6"@ =~= seq![digit_char(6)]);
        assert("7"@ =~= seq![digit_char(7)]);
        assert("8"@ =~= seq![digit_char(8)]);
        assert("9"@ =~= seq![digit_char(9)]);
    }
    match d {
        0 => "0",
        1 => "1",
        2 => "2",
        3 => "3",
        4 => "4",
        5 => "5",
        6 => "6",
        7 => "7",
        8 => "8",
        _ => "9",
    }
}

/// `v` in decimal, as it appears in the output file name.
pub fn u64_to_decimal(v: u64) -> (r: String)
    ensures
        r@ == spec_decimal(v as nat),
    decreases v,
{
    if v < 10 {
        String::from_str(digit_str(v))
    } else {
        let mut prefix = u64_to_decimal(v / 10);
        prefix.append(digit_str(v % 10));
        proof {
            assert(prefix@ =~= spec_decimal(v as nat));
        }
        prefix
    }
}

/// `v` in decimal, zero-padded to two digits.
pub fn u64_to_decimal2(v: u64) -> (r: String)
    requires
        v < 100,
    ensures
        r@ == spec_decimal2(v as nat),
{
    let mut s = String::from_str(digit_str(v / 10));
    s.append(digit_str(v % 10));
    proof {
        assert(s@ =~= spec_decimal2(v as nat));
    }
    s
}

/// `v` in decimal, zero-padded to four digits.
pub fn u64_to_decimal4(v: u64) -> (r: String)
    requires
        v < 10000,
    ensures
        r@ == spec_decimal4(v as nat),
{
    let mut s = String::from_str(digit_str(v / 1000));
    s.append(digit_str(v / 100 % 10));
    s.append(digit_str(v / 10 % 10));
    s.append(digit_str(v % 10));
    proof {
        assert(s@ =~= spec_decimal4(v as nat));
    }
    s
}

/// The output file's extension for a codec.
pub open spec fn spec_codec_extension(codec: Codec) -> Seq<char> {
    match codec {
        Codec::H264 => "h264"@,
        Codec::H265 => "h265"@,
        Codec::AV1 => "av1"@,
    }
}

pub fn codec_file_extension(codec: Codec) -> (r: &'static str)
    ensures
        r@ == spec_codec_extension(codec),
{
    match codec {
        Codec::H264 => "h264",
        Codec::H265 => "h265",
        Codec::AV1 => "av1",
    }
}

/// The moment a recording starts, as its file name carries it.
#[derive(Debug, Copy, Clone, PartialEq, Eq, Structural)]
pub struct FileTimestamp {
    pub year: u32,
    pub month: u32,
    pub day: u32,
    pub hour: u32,
    pub minute: u32,
    pub second: u32,
}

/// The output file's name: application, presented extent, then day, month,
/// year, hour, minute and second, then the codec's extension.
pub open spec fn spec_output_file_name(
    app: Seq<char>,
    width: u32,
    height: u32,
    ts: FileTimestamp,
    codec: Codec,
) -> Seq<char> {
    app + "_"@ + spec_decimal(width as nat) + "x"@ + spec_decimal(height as nat) + "_"@
        + spec_decimal2(ts.day as nat) + "."@ + spec_decimal2(ts.month as nat) + "."@
        + spec_decimal4(ts.year as nat) + "_"@ + spec_decimal2(ts.hour as nat) + "_"@
        + spec_decimal2(ts.minute as nat) + "_"@ + spec_decimal2(ts.second as nat) + "."@
        + spec_codec_extension(codec)
}

/// Compose the output file's name.
pub fn output_file_name(
    app: &str,
    width: u32,
    height: u32,
    ts: &FileTimestamp,
    codec: Codec,
) -> (r: String)
    requires
        ts.year < 10000,
        ts.month < 100,
        ts.day < 100,
        ts.hour < 100,
        ts.minute < 100,
        ts.second < 100,
    ensures
        r@ == spec_output_file_name(app@, width, height, *ts, codec),
{
    let mut name = String::from_str(app);
    name.append("_");
    let w = u64_to_decimal(width as u64);
    name.append(w.as_str());
    name.append("x");
    let h = u64_to_decimal(height as u64);
    name.append(h.as_str());
    name.append("_");
    let day = u64_to_decimal2(ts.day as u64);
    name.append(day.as_str());
    name.append(".");
    let month = u64_to_decimal2(ts.month as u64);
    name.append(month.as_str());
    name.append(".");
    let year = u64_to_decimal4(ts.year as u64);
    name.append(year.as_str());
    name.append("_");
    let hour = u64_to_decimal2(ts.hour as u64);
    name.append(hour.as_str());
    name.append("_");
    let minute = u64_to_decimal2(ts.minute as u64);
    name.append(minute.as_str());
    name.append("_");
    let second = u64_to_decimal2(ts.second as u64);
    name.append(second.as_str());
    name.append(".");
    name.append(codec_file_extension(codec));
    proof {
        assert(name@ =~= spec_output_file_name(app@, width, height, *ts, codec));
    }
    name
}

} // verus!
