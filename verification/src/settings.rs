//! Layer configuration: codec and rate-control selection, GOP shape, frame
//! rate and bitrates, parsed from a flat `key = value` settings file.
//!
//! The recognized lines have the form `thehamsta_video_record.<key> = <value>`.
//! Reading the file and the environment is the caller's business; everything
//! from characters to a `Settings` value happens here.

use vstd::prelude::*;

verus! {

use vstd::string::*;
use crate::dpb::PictureType;

/// A character `\w` matches: a letter, a digit or an underscore.
pub open spec fn is_word_char(c: char) -> bool {
    (97 <= c as u32 && c as u32 <= 122) || (65 <= c as u32 && c as u32 <= 90) || (48 <= c as u32
        && c as u32 <= 57) || c == '_'
}

/// A character `\s` matches.
pub open spec fn is_space_char(c: char) -> bool {
    c == ' ' || c == '\t' || c == '\n' || c == '\r' || c == '\u{b}' || c == '\u{c}'
}

/// A decimal digit: code points 48 through 57.
pub open spec fn is_digit_char(c: char) -> bool {
    48 <= c as u32 && c as u32 <= 57
}

/// The codec a recording is made with.
#[derive(Debug, Eq, PartialEq, Structural, Copy, Clone)]
pub enum Codec {
    H264,
    H265,
    AV1,
}

impl Default for Codec {
    /// H.264 is the codec used when none is configured.
    fn default() -> (r: Self)
        ensures
            r == Codec::H264,
    {
        Codec::H264
    }
}

/// The rate-control discipline; only constant bitrate is offered.
#[derive(Debug, Eq, PartialEq, Structural, Copy, Clone)]
pub enum RateControlMode {
    Cbr,
}

impl Default for RateControlMode {
    fn default() -> (r: Self)
        ensures
            r == RateControlMode::Cbr,
    {
        RateControlMode::Cbr
    }
}

/// Everything the layer can be configured with.
#[derive(Debug, Clone)]
pub struct Settings {
    pub codec: Codec,
    pub output_folder: String,
    pub use_nvpro: bool,
    pub gop_size: u64,
    pub idr_period: u64,
    pub max_consecutive_b_frames: u64,
    pub last_frame_type: PictureType,
    pub max_bitrate: u64,
    pub average_bitrate: u64,
    pub rate_control_mode: RateControlMode,
    pub frame_rate_numerator: u32,
    pub frame_rate_denominator: u32,
    pub vbv_size_in_ms: u32,
    pub initial_vbv_size_in_ms: u32,
    pub quality_level: u32,
}

impl Default for Settings {
    /// The built-in defaults: H.264, GOP 16, 60/1 fps, 8 Mb/s average and
    /// 10 Mb/s peak, one second of VBV, quality level 1.
    fn default() -> (r: Self)
        ensures
            r.codec == Codec::H264,
            r.output_folder@ == Seq::<char>::empty(),
            r.use_nvpro == false,
            r.gop_size == 16,
            r.idr_period == 16,
            r.max_consecutive_b_frames == 0,
            r.last_frame_type == PictureType::P,
            r.initial_vbv_size_in_ms == 0,
            r.vbv_size_in_ms == 1000,
            r.max_bitrate == 10 * 1024 * 1024,
            r.average_bitrate == 8 * 1024 * 1024,
            r.rate_control_mode == RateControlMode::Cbr,
            r.frame_rate_numerator == 60,
            r.frame_rate_denominator == 1,
            r.quality_level == 1,
    {
        proof {
            reveal_strlit("");
            assert(""@ =~= Seq::<char>::empty());
        }
        Settings {
            codec: Codec::H264,
            output_folder: "".to_owned(),
            use_nvpro: false,
            gop_size: 16,
            idr_period: 16,
            max_consecutive_b_frames: 0,
            last_frame_type: PictureType::P,
            initial_vbv_size_in_ms: 0,
            vbv_size_in_ms: 1000,
            max_bitrate: 10 * 1024 * 1024,
            average_bitrate: 8 * 1024 * 1024,
            rate_control_mode: RateControlMode::Cbr,
            frame_rate_numerator: 60,
            frame_rate_denominator: 1,
            quality_level: 1,
        }
    }
}

/// Character-for-character equality of two strings.
pub fn str_eq(a: &str, b: &str) -> (r: bool)
    ensures
        r == (a@ == b@),
{
    let n = a.unicode_len();
    if n != b.unicode_len() {
        proof {
            assert(a@ != b@);
        }
        return false;
    }
    let mut i: usize = 0;
    while i < n
        invariant
            i <= n,
            n == a@.len(),
            n == b@.len(),
            forall|j: int| 0 <= j < i ==> a@[j] == b@[j],
        decreases n - i,
    {
        if a.get_char(i) != b.get_char(i) {
            proof {
                assert(a@[i as int] != b@[i as int]);
            }
            return false;
        }
        i = i + 1;
    }
    proof {
        assert(a@ =~= b@);
    }
    true
}

/// The value of a digit string, most significant digit first.
pub open spec fn dec_value(s: Seq<char>) -> nat
    decreases s.len(),
{
    if s.len() == 0 {
        0
    } else {
        10 * dec_value(s.drop_last()) + (s.last() as u32 - 48) as nat
    }
}

/// Every character is a digit.
pub open spec fn all_digits(t: Seq<char>) -> bool {
    forall|i: int| 0 <= i < t.len() ==> is_digit_char(#[trigger] t[i])
}

/// What `u64` parsing accepts: an optional leading plus, then only digits,
/// at least one, whose value fits.
pub open spec fn spec_parse_u64(s: Seq<char>) -> Option<u64> {
    let t = if s.len() > 0 && s[0] == '+' {
        s.skip(1)
    } else {
        s
    };
    if t.len() > 0 && all_digits(t) && dec_value(t) <= u64::MAX {
        Some(dec_value(t) as u64)
    } else {
        None
    }
}

/// Like `spec_parse_u64`, further restricted to the `u32` range.
pub open spec fn spec_parse_u32(s: Seq<char>) -> Option<u32> {
    match spec_parse_u64(s) {
        Some(v) => if v <= u32::MAX {
            Some(v as u32)
        } else {
            None
        },
        None => None,
    }
}

/// What `bool` parsing accepts.
pub open spec fn spec_parse_bool(s: Seq<char>) -> Option<bool> {
    if s == "true"@ {
        Some(true)
    } else if s == "false"@ {
        Some(false)
    } else {
        None
    }
}

/// Appending digits never shrinks a digit string's value.
proof fn lemma_dec_value_prefix(s: Seq<char>, i: int)
    requires
        0 <= i <= s.len(),
    ensures
        dec_value(s) >= dec_value(s.subrange(0, i)),
    decreases s.len() - i,
{
    if i == s.len() {
        assert(s.subrange(0, i) =~= s);
    } else {
        lemma_dec_value_prefix(s, i + 1);
        let p = s.subrange(0, i + 1);
        assert(p.drop_last() =~= s.subrange(0, i));
        assert(dec_value(p) >= dec_value(s.subrange(0, i)));
    }
}

/// Parse a decimal `u64`, as the standard parser reads one: optional plus,
/// digits, value in range.
pub fn parse_u64(s: &str) -> (r: Option<u64>)
    ensures
        r == spec_parse_u64(s@),
{
    let n = s.unicode_len();
    let start: usize = if n > 0 && s.get_char(0) == '+' {
        1
    } else {
        0
    };
    let ghost t = if s@.len() > 0 && s@[0] == '+' {
        s@.skip(1)
    } else {
        s@
    };
    proof {
        assert(t =~= s@.subrange(start as int, n as int));
    }
    if n == start {
        return None;
    }
    let mut value: u64 = 0;
    let mut i: usize = start;
    proof {
        assert(s@.subrange(start as int, start as int) =~= Seq::<char>::empty());
    }
    while i < n
        invariant
            start <= i <= n,
            n == s@.len(),
            t == (if s@.len() > 0 && s@[0] == '+' {
                s@.skip(1)
            } else {
                s@
            }),
            start == (if s@.len() > 0 && s@[0] == '+' {
                1usize
            } else {
                0usize
            }),
            t == s@.subrange(start as int, n as int),
            forall|j: int| start <= j < i ==> is_digit_char(#[trigger] s@[j]),
            value == dec_value(s@.subrange(start as int, i as int)),
        decreases n - i,
    {
        let c = s.get_char(i);
        let u = c as u32;
        if !(48 <= u && u <= 57) {
            proof {
                assert(!is_digit_char(t[(i - start) as int]));
                assert(!all_digits(t));
            }
            return None;
        }
        let d = (u - 48) as u64;
        proof {
            let p = s@.subrange(start as int, (i + 1) as int);
            assert(p.drop_last() =~= s@.subrange(start as int, i as int));
            assert(dec_value(p) == 10 * (value as nat) + d);
        }
        if value > (u64::MAX - d) / 10 {
            proof {
                vstd::arithmetic::div_mod::lemma_fundamental_div_mod(
                    (u64::MAX - d) as int,
                    10,
                );
                assert(10 * (value as nat) + d > u64::MAX);
                let p = s@.subrange(start as int, (i + 1) as int);
                assert(p =~= t.subrange(0, (i + 1 - start) as int));
                lemma_dec_value_prefix(t, (i + 1 - start) as int);
                assert(dec_value(t) > u64::MAX);
                assert(spec_parse_u64(s@) is None);
            }
            return None;
        }
        proof {
            vstd::arithmetic::div_mod::lemma_fundamental_div_mod((u64::MAX - d) as int, 10);
            vstd::arithmetic::mul::lemma_mul_inequality(
                value as int,
                ((u64::MAX - d) / 10) as int,
                10,
            );
        }
        value = value * 10 + d;
        i = i + 1;
    }
    proof {
        assert(s@.subrange(start as int, n as int) =~= t);
        assert(all_digits(t));
        assert(value == dec_value(t));
    }
    Some(value)
}

/// Parse a decimal `u32`.
pub fn parse_u32(s: &str) -> (r: Option<u32>)
    ensures
        r == spec_parse_u32(s@),
{
    match parse_u64(s) {
        Some(v) => if v <= 0xFFFF_FFFF {
            Some(v as u32)
        } else {
            None
        },
        None => None,
    }
}

/// Parse a `bool`, as the standard parser reads one.
pub fn parse_bool(s: &str) -> (r: Option<bool>)
    ensures
        r == spec_parse_bool(s@),
{
    if str_eq(s, "true") {
        Some(true)
    } else if str_eq(s, "false") {
        Some(false)
    } else {
        None
    }
}

/// The codec a configuration word names; anything unrecognized falls back
/// to the default, H.264.
pub open spec fn spec_codec_of(s: Seq<char>) -> Codec {
    if s == "H264"@ {
        Codec::H264
    } else if s == "H265"@ {
        Codec::H265
    } else if s == "AV1"@ {
        Codec::AV1
    } else {
        Codec::H264
    }
}

/// The rate-control mode a configuration word names; anything unrecognized
/// falls back to CBR.
pub open spec fn spec_rate_control_mode_of(s: Seq<char>) -> RateControlMode {
    if s == "CBR"@ {
        RateControlMode::Cbr
    } else {
        RateControlMode::Cbr
    }
}

/// The picture type a configuration word names; anything unrecognized
/// falls back to P.
pub open spec fn spec_picture_type_of(s: Seq<char>) -> PictureType {
    if s == "I"@ {
        PictureType::I
    } else if s == "IDR"@ {
        PictureType::Idr
    } else if s == "P"@ {
        PictureType::P
    } else if s == "B"@ {
        PictureType::B
    } else {
        PictureType::P
    }
}

/// Length of the run of word characters starting at `i`.
pub open spec fn word_run(s: Seq<char>, i: int) -> int
    decreases s.len() - i when i <= s.len()
{
    if i < 0 || i >= s.len() || !is_word_char(s[i]) {
        0
    } else {
        1 + word_run(s, i + 1)
    }
}

/// Length of the run of whitespace characters starting at `i`.
pub open spec fn space_run(s: Seq<char>, i: int) -> int
    decreases s.len() - i when i <= s.len()
{
    if i < 0 || i >= s.len() || !is_space_char(s[i]) {
        0
    } else {
        1 + space_run(s, i + 1)
    }
}

proof fn lemma_word_run_bounds(s: Seq<char>, i: int)
    requires
        0 <= i <= s.len(),
    ensures
        0 <= word_run(s, i),
        i + word_run(s, i) <= s.len(),
    decreases s.len() - i,
{
    if !(i >= s.len() || !is_word_char(s[i])) {
        lemma_word_run_bounds(s, i + 1);
    }
}

proof fn lemma_space_run_bounds(s: Seq<char>, i: int)
    requires
        0 <= i <= s.len(),
    ensures
        0 <= space_run(s, i),
        i + space_run(s, i) <= s.len(),
    decreases s.len() - i,
{
    if !(i >= s.len() || !is_space_char(s[i])) {
        lemma_space_run_bounds(s, i + 1);
    }
}

/// The key prefix every recognized configuration line starts with.
pub open spec fn config_key_prefix() -> Seq<char> {
    "thehamsta_video_record."@
}

/// What a configuration line parses to: after the fixed prefix, a `\w*`
/// key, optional spaces, `=`, optional spaces, then the rest of the line as
/// the value.
pub open spec fn spec_parse_config_line(s: Seq<char>) -> Option<(Seq<char>, Seq<char>)> {
    let p = config_key_prefix();
    if s.len() < p.len() || s.subrange(0, p.len() as int) != p {
        None
    } else {
        let ks = p.len() as int;
        let ke = ks + word_run(s, ks);
        let eq = ke + space_run(s, ke);
        if eq < s.len() && s[eq] == '=' {
            let vs = eq + 1 + space_run(s, eq + 1);
            Some((s.subrange(ks, ke), s.subrange(vs, s.len() as int)))
        } else {
            None
        }
    }
}

/// Parse one configuration line into its key and value.
pub fn parse_config_line(line: &str) -> (r: Option<(String, String)>)
    ensures
        match (r, spec_parse_config_line(line@)) {
            (Some(kv), Some(skv)) => kv.0@ == skv.0 && kv.1@ == skv.1,
            (None, None) => true,
            _ => false,
        },
{
    let prefix = "thehamsta_video_record.";
    let n = line.unicode_len();
    let plen = prefix.unicode_len();
    proof {
        assert(prefix@ == config_key_prefix());
    }
    if n < plen {
        return None;
    }
    let mut j: usize = 0;
    while j < plen
        invariant
            j <= plen,
            plen == prefix@.len(),
            plen <= n,
            n == line@.len(),
            prefix@ == config_key_prefix(),
            forall|k: int| 0 <= k < j ==> line@[k] == prefix@[k],
        decreases plen - j,
    {
        if line.get_char(j) != prefix.get_char(j) {
            proof {
                assert(line@.subrange(0, plen as int)[j as int] != prefix@[j as int]);
            }
            return None;
        }
        j = j + 1;
    }
    proof {
        assert(line@.subrange(0, plen as int) =~= config_key_prefix());
    }
    let ghost s = line@;
    let mut ke: usize = plen;
    loop
        invariant
            plen <= ke <= n,
            n == s.len(),
            s == line@,
            plen == config_key_prefix().len(),
            word_run(s, plen as int) == (ke - plen) + word_run(s, ke as int),
        ensures
            plen <= ke <= n,
            word_run(s, plen as int) == ke - plen,
        decreases n - ke,
    {
        if ke >= n {
            break;
        }
        let c = line.get_char(ke);
        let u = c as u32;
        if !((97 <= u && u <= 122) || (65 <= u && u <= 90) || (48 <= u && u <= 57) || c == '_') {
            proof {
                assert(!is_word_char(s[ke as int]));
            }
            break;
        }
        proof {
            assert(is_word_char(s[ke as int]));
        }
        ke = ke + 1;
    }
    let mut eq: usize = ke;
    loop
        invariant
            ke <= eq <= n,
            n == s.len(),
            s == line@,
            space_run(s, ke as int) == (eq - ke) + space_run(s, eq as int),
        ensures
            ke <= eq <= n,
            s == line@,
            space_run(s, ke as int) == eq - ke,
        decreases n - eq,
    {
        if eq >= n {
            break;
        }
        let c = line.get_char(eq);
        if !(c == ' ' || c == '\t' || c == '\n' || c == '\r' || c == '\u{b}' || c == '\u{c}') {
            proof {
                assert(!is_space_char(s[eq as int]));
            }
            break;
        }
        proof {
            assert(is_space_char(s[eq as int]));
        }
        eq = eq + 1;
    }
    if !(eq < n && line.get_char(eq) == '=') {
        return None;
    }
    let mut vs: usize = eq + 1;
    loop
        invariant
            eq + 1 <= vs <= n,
            n == s.len(),
            s == line@,
            space_run(s, (eq + 1) as int) == (vs - eq - 1) + space_run(s, vs as int),
        ensures
            eq + 1 <= vs <= n,
            s == line@,
            space_run(s, (eq + 1) as int) == vs - eq - 1,
        decreases n - vs,
    {
        if vs >= n {
            break;
        }
        let c = line.get_char(vs);
        if !(c == ' ' || c == '\t' || c == '\n' || c == '\r' || c == '\u{b}' || c == '\u{c}') {
            proof {
                assert(!is_space_char(s[vs as int]));
            }
            break;
        }
        proof {
            assert(is_space_char(s[vs as int]));
        }
        vs = vs + 1;
    }
    let key = line.substring_char(plen, ke).to_owned();
    let value = line.substring_char(vs, n).to_owned();
    Some((key, value))
}

/// Index of the first newline at or after `i`, or the text's length.
pub open spec fn line_break(s: Seq<char>, i: int) -> int
    decreases s.len() - i when i <= s.len()
{
    if i < 0 || i >= s.len() {
        s.len() as int
    } else if s[i] == '\n' {
        i
    } else {
        line_break(s, i + 1)
    }
}

proof fn lemma_line_break_bounds(s: Seq<char>, i: int)
    requires
        0 <= i <= s.len(),
    ensures
        i <= line_break(s, i) <= s.len(),
    decreases s.len() - i,
{
    if i < s.len() && s[i] != '\n' {
        lemma_line_break_bounds(s, i + 1);
    }
}

proof fn lemma_line_break_at(s: Seq<char>, i: int, j: int)
    requires
        0 <= i <= j <= s.len(),
        forall|k: int| i <= k < j ==> s[k] != '\n',
        j == s.len() || s[j] == '\n',
    ensures
        line_break(s, i) == j,
    decreases j - i,
{
    if i < j {
        lemma_line_break_at(s, i + 1, j);
    }
}

/// A line with its trailing carriage return, if any, removed.
pub open spec fn trim_cr(l: Seq<char>) -> Seq<char> {
    if l.len() > 0 && l.last() == '\r' {
        l.drop_last()
    } else {
        l
    }
}

/// The lines of a text from position `i` on, split at newlines, each with
/// a trailing carriage return removed; a trailing newline opens no empty
/// last line.
pub open spec fn spec_lines_from(s: Seq<char>, i: int) -> Seq<Seq<char>>
    decreases s.len() + 1 - i when 0 <= i via spec_lines_from_decreases
{
    if i >= s.len() {
        Seq::empty()
    } else {
        seq![trim_cr(s.subrange(i, line_break(s, i)))] + spec_lines_from(s, line_break(s, i) + 1)
    }
}

#[via_fn]
proof fn spec_lines_from_decreases(s: Seq<char>, i: int) {
    if 0 <= i < s.len() {
        lemma_line_break_bounds(s, i);
    }
}

/// One line's effect on everything but the output folder.
pub open spec fn spec_apply_line(s: Settings, line: Seq<char>) -> Settings {
    match spec_parse_config_line(line) {
        None => s,
        Some(kv) => if kv.0 == "video_output_folder"@ {
            s
        } else {
            spec_apply_setting(s, kv.0, kv.1)
        },
    }
}

/// One line's effect on the output folder.
pub open spec fn spec_folder_line(f: Seq<char>, line: Seq<char>) -> Seq<char> {
    match spec_parse_config_line(line) {
        None => f,
        Some(kv) => if kv.0 == "video_output_folder"@ {
            kv.1
        } else {
            f
        },
    }
}

/// A whole text's effect on everything but the output folder.
pub open spec fn spec_apply_lines(s: Settings, ls: Seq<Seq<char>>) -> Settings
    decreases ls.len(),
{
    if ls.len() == 0 {
        s
    } else {
        spec_apply_lines(spec_apply_line(s, ls.first()), ls.drop_first())
    }
}

/// A whole text's effect on the output folder.
pub open spec fn spec_folder_lines(f: Seq<char>, ls: Seq<Seq<char>>) -> Seq<char>
    decreases ls.len(),
{
    if ls.len() == 0 {
        f
    } else {
        spec_folder_lines(spec_folder_line(f, ls.first()), ls.drop_first())
    }
}

/// `spec_apply_lines` never touches the folder string.
proof fn lemma_apply_lines_folder(s: Settings, ls: Seq<Seq<char>>)
    ensures
        spec_apply_lines(s, ls).output_folder == s.output_folder,
    decreases ls.len(),
{
    if ls.len() > 0 {
        lemma_apply_lines_folder(spec_apply_line(s, ls.first()), ls.drop_first());
    }
}

/// Replacing the folder string commutes with applying a line.
proof fn lemma_apply_line_swap_folder(s: Settings, f: String, line: Seq<char>)
    ensures
        spec_apply_line(Settings { output_folder: f, ..s }, line) == (Settings {
            output_folder: f,
            ..spec_apply_line(s, line)
        }),
{
}

impl Settings {
    /// Take one configuration line; lines that do not parse change nothing.
    pub fn apply_config_line(&mut self, line: &str)
        ensures
            *final(self) == (Settings {
                output_folder: final(self).output_folder,
                ..spec_apply_line(*old(self), line@)
            }),
            final(self).output_folder@ == spec_folder_line(old(self).output_folder@, line@),
    {
        match parse_config_line(line) {
            None => {},
            Some(kv) => {
                let (key, value) = kv;
                self.apply_setting(key.as_str(), value.as_str());
            },
        }
    }

    /// Apply every line of a configuration text, first to last.
    pub fn apply_config_text(&mut self, text: &str)
        requires
            text@.len() < usize::MAX,
        ensures
            *final(self) == (Settings {
                output_folder: final(self).output_folder,
                ..spec_apply_lines(*old(self), spec_lines_from(text@, 0))
            }),
            final(self).output_folder@ == spec_folder_lines(
                old(self).output_folder@,
                spec_lines_from(text@, 0),
            ),
    {
        let n = text.unicode_len();
        let ghost s = text@;
        let ghost target = spec_apply_lines(*old(self), spec_lines_from(s, 0));
        let ghost folder_target = spec_folder_lines(old(self).output_folder@, spec_lines_from(s, 0));
        let mut i: usize = 0;
        proof {
            lemma_apply_lines_folder(*old(self), spec_lines_from(s, 0));
            assert(target == (Settings { output_folder: old(self).output_folder, ..target }));
        }
        while i < n
            invariant
                i <= n + 1,
                n == s.len(),
                s == text@,
                n < usize::MAX,
                target == spec_apply_lines(*old(self), spec_lines_from(s, 0)),
                folder_target == spec_folder_lines(
                    old(self).output_folder@,
                    spec_lines_from(s, 0),
                ),
                spec_apply_lines(*self, spec_lines_from(s, i as int)) == (Settings {
                    output_folder: self.output_folder,
                    ..target
                }),
                spec_folder_lines(self.output_folder@, spec_lines_from(s, i as int))
                    == folder_target,
            decreases n + 1 - i,
        {
            let mut j: usize = i;
            loop
                invariant
                    i <= j <= n,
                    n == s.len(),
                    s == text@,
                    forall|k: int| i <= k < j ==> s[k] != '\n',
                ensures
                    i <= j <= n,
                    s == text@,
                    n == s.len(),
                    forall|k: int| i <= k < j ==> s[k] != '\n',
                    j == s.len() || s[j as int] == '\n',
                decreases n - j,
            {
                if j >= n {
                    break;
                }
                if text.get_char(j) == '\n' {
                    break;
                }
                j = j + 1;
            }
            proof {
                lemma_line_break_at(s, i as int, j as int);
            }
            let end: usize = if j > i && text.get_char(j - 1) == '\r' {
                j - 1
            } else {
                j
            };
            let line = text.substring_char(i, end);
            proof {
                let raw = s.subrange(i as int, j as int);
                if j > i && s[j - 1] == '\r' {
                    assert(raw.last() == s[j - 1]);
                    assert(line@ =~= trim_cr(raw));
                } else {
                    if raw.len() > 0 {
                        assert(raw.last() == s[j - 1]);
                    }
                    assert(line@ =~= trim_cr(raw));
                }
            }
            let ghost before = *self;
            self.apply_config_line(line);
            proof {
                let rest = spec_lines_from(s, j + 1 as int);
                assert(spec_lines_from(s, i as int) == seq![trim_cr(
                    s.subrange(i as int, j as int),
                )] + rest);
                let ls = spec_lines_from(s, i as int);
                assert(ls.first() == line@);
                assert(ls.drop_first() =~= rest);
                assert(spec_apply_lines(before, ls) == spec_apply_lines(
                    spec_apply_line(before, line@),
                    rest,
                ));
                lemma_apply_line_swap_folder(
                    Settings { output_folder: before.output_folder, ..before },
                    self.output_folder,
                    line@,
                );
                assert(spec_apply_line(before, line@) == (Settings {
                    output_folder: before.output_folder,
                    ..spec_apply_line(before, line@)
                }));
                lemma_apply_lines_swap_folder(
                    spec_apply_line(before, line@),
                    self.output_folder,
                    rest,
                );
                assert(*self == (Settings {
                    output_folder: self.output_folder,
                    ..spec_apply_line(before, line@)
                }));
                assert(spec_apply_lines(*self, rest) == (Settings {
                    output_folder: self.output_folder,
                    ..spec_apply_lines(spec_apply_line(before, line@), rest)
                }));
            }
            i = j + 1;
        }
        proof {
            assert(spec_lines_from(s, i as int) =~= Seq::<Seq<char>>::empty());
            assert(spec_apply_lines(*self, spec_lines_from(s, i as int)) == *self);
        }
    }
}

/// Replacing the folder string commutes with applying a whole text.
proof fn lemma_apply_lines_swap_folder(s: Settings, f: String, ls: Seq<Seq<char>>)
    ensures
        spec_apply_lines(Settings { output_folder: f, ..s }, ls) == (Settings {
            output_folder: f,
            ..spec_apply_lines(s, ls)
        }),
    decreases ls.len(),
{
    if ls.len() > 0 {
        lemma_apply_line_swap_folder(s, f, ls.first());
        lemma_apply_lines_swap_folder(spec_apply_line(s, ls.first()), f, ls.drop_first());
    }
}

impl Codec {
    /// Read a codec name.
    pub fn from(value: &str) -> (r: Codec)
        ensures
            r == spec_codec_of(value@),
    {
        if str_eq(value, "H264") {
            Codec::H264
        } else if str_eq(value, "H265") {
            Codec::H265
        } else if str_eq(value, "AV1") {
            Codec::AV1
        } else {
            Codec::H264
        }
    }
}

impl RateControlMode {
    /// Read a rate-control mode name.
    pub fn from(value: &str) -> (r: RateControlMode)
        ensures
            r == spec_rate_control_mode_of(value@),
    {
        if str_eq(value, "CBR") {
            RateControlMode::Cbr
        } else {
            RateControlMode::Cbr
        }
    }
}

/// The settings after one recognized key takes its value.  Unknown keys —
/// and the output-folder key, whose effect is on the folder string alone —
/// change nothing here.  Values that fail to parse fall back to fixed
/// defaults.
pub open spec fn spec_apply_setting(s: Settings, key: Seq<char>, value: Seq<char>) -> Settings {
    if key == "codec"@ {
        Settings { codec: spec_codec_of(value), ..s }
    } else if key == "rate_control_mode"@ {
        Settings { rate_control_mode: spec_rate_control_mode_of(value), ..s }
    } else if key == "use_nvpro"@ {
        Settings {
            use_nvpro: match spec_parse_bool(value) {
                Some(b) => b,
                None => false,
            },
            ..s
        }
    } else if key == "gop_size"@ {
        Settings {
            gop_size: match spec_parse_u64(value) {
                Some(v) => v,
                None => 16u64,
            },
            ..s
        }
    } else if key == "idr_period"@ {
        Settings {
            idr_period: match spec_parse_u64(value) {
                Some(v) => v,
                None => 16u64,
            },
            ..s
        }
    } else if key == "last_frame_type"@ {
        Settings { last_frame_type: spec_picture_type_of(value), ..s }
    } else if key == "max_consecutive_b_frames"@ {
        Settings {
            max_consecutive_b_frames: match spec_parse_u64(value) {
                Some(v) => v,
                None => 16u64,
            },
            ..s
        }
    } else if key == "frame_rate_numerator"@ {
        Settings {
            frame_rate_numerator: match spec_parse_u32(value) {
                Some(v) => v,
                None => 60u32,
            },
            ..s
        }
    } else if key == "frame_rate_denominator"@ {
        Settings {
            frame_rate_denominator: match spec_parse_u32(value) {
                Some(v) => v,
                None => 1u32,
            },
            ..s
        }
    } else if key == "average_bitrate"@ {
        Settings {
            average_bitrate: match spec_parse_u64(value) {
                Some(v) => v,
                None => (8 * 1024 * 1024) as u64,
            },
            ..s
        }
    } else if key == "max_bitrate"@ {
        Settings {
            max_bitrate: match spec_parse_u64(value) {
                Some(v) => v,
                None => (8 * 1024 * 1024) as u64,
            },
            ..s
        }
    } else if key == "vbv_size_in_ms"@ {
        Settings {
            vbv_size_in_ms: match spec_parse_u32(value) {
                Some(v) => v,
                None => (8 * 1024 * 1024) as u32,
            },
            ..s
        }
    } else if key == "initial_vbv_size_in_ms"@ {
        Settings {
            initial_vbv_size_in_ms: match spec_parse_u32(value) {
                Some(v) => v,
                None => (8 * 1024 * 1024) as u32,
            },
            ..s
        }
    } else if key == "quality_level"@ {
        Settings {
            quality_level: match spec_parse_u32(value) {
                Some(v) => v,
                None => 1u32,
            },
            ..s
        }
    } else {
        s
    }
}

impl Settings {
    /// Take one `key = value` pair: the output-folder key replaces the
    /// folder string, every other recognized key replaces its field, and
    /// unknown keys change nothing.
    pub fn apply_setting(&mut self, key: &str, value: &str)
        ensures
            key@ == "video_output_folder"@ ==> final(self).output_folder@ == value@,
            key@ == "video_output_folder"@ ==> *final(self) == (Settings {
                output_folder: final(self).output_folder,
                ..*old(self)
            }),
            key@ != "video_output_folder"@ ==> *final(self) == spec_apply_setting(
                *old(self),
                key@,
                value@,
            ),
    {
        if str_eq(key, "video_output_folder") {
            self.output_folder = value.to_owned();
        } else if str_eq(key, "codec") {
            self.codec = Codec::from(value);
        } else if str_eq(key, "rate_control_mode") {
            self.rate_control_mode = RateControlMode::from(value);
        } else if str_eq(key, "use_nvpro") {
            self.use_nvpro = match parse_bool(value) {
                Some(b) => b,
                None => false,
            };
        } else if str_eq(key, "gop_size") {
            self.gop_size = match parse_u64(value) {
                Some(v) => v,
                None => 16,
            };
        } else if str_eq(key, "idr_period") {
            self.idr_period = match parse_u64(value) {
                Some(v) => v,
                None => 16,
            };
        } else if str_eq(key, "last_frame_type") {
            self.last_frame_type = PictureType::from(value);
        } else if str_eq(key, "max_consecutive_b_frames") {
            self.max_consecutive_b_frames = match parse_u64(value) {
                Some(v) => v,
                None => 16,
            };
        } else if str_eq(key, "frame_rate_numerator") {
            self.frame_rate_numerator = match parse_u32(value) {
                Some(v) => v,
                None => 60,
            };
        } else if str_eq(key, "frame_rate_denominator") {
            self.frame_rate_denominator = match parse_u32(value) {
                Some(v) => v,
                None => 1,
            };
        } else if str_eq(key, "average_bitrate") {
            self.average_bitrate = match parse_u64(value) {
                Some(v) => v,
                None => 8 * 1024 * 1024,
            };
        } else if str_eq(key, "max_bitrate") {
            self.max_bitrate = match parse_u64(value) {
                Some(v) => v,
                None => 8 * 1024 * 1024,
            };
        } else if str_eq(key, "vbv_size_in_ms") {
            self.vbv_size_in_ms = match parse_u32(value) {
                Some(v) => v,
                None => 8 * 1024 * 1024,
            };
        } else if str_eq(key, "initial_vbv_size_in_ms") {
            self.initial_vbv_size_in_ms = match parse_u32(value) {
                Some(v) => v,
                None => 8 * 1024 * 1024,
            };
        } else if str_eq(key, "quality_level") {
            self.quality_level = match parse_u32(value) {
                Some(v) => v,
                None => 1,
            };
        }
    }
}

impl PictureType {
    /// Read a picture-type name.
    pub fn from(value: &str) -> (r: PictureType)
        ensures
            r == spec_picture_type_of(value@),
    {
        if str_eq(value, "I") {
            PictureType::I
        } else if str_eq(value, "IDR") {
            PictureType::Idr
        } else if str_eq(value, "P") {
            PictureType::P
        } else if str_eq(value, "B") {
            PictureType::B
        } else {
            PictureType::P
        }
    }
}

} // verus!
