//! Media Foundation backend: decoding of the packed `UINT64` media-type
//! attributes, subtype GUIDs, control-id mapping and the decisions taken
//! while negotiating formats and reading samples.
use vstd::prelude::*;

use crate::sorted::{camera_formats_sorted, insert_camera_format};
use crate::text::{decimal, i32_text, parse_u32, signed_decimal, spec_parse_u32, u32_text};
use crate::types::{
    is_get_property_error, is_initialize_error, is_open_device_error, is_structure_error, spec_as_index_result, is_read_frame_error, is_set_property_error, spec_control_name, spec_default_camera_format, spec_setter_text, ApiBackend, CameraControl,
    CameraFormat, CameraIndex, CameraInfo, ControlValueDescription, ControlValueSetter,
    FrameFormat, KnownCameraControl, KnownCameraControlFlag, NokhwaError, Resolution,
};

verus! {

/// 2^32: the packed attributes keep one 32-bit half above this, one below.
pub open spec fn word() -> nat {
    0x1_0000_0000
}

/// High 32 bits of a packed `UINT64` attribute.
pub open spec fn high_word(packed: u64) -> nat {
    packed as nat / word()
}

/// Low 32 bits of a packed `UINT64` attribute.
pub open spec fn low_word(packed: u64) -> nat {
    packed as nat % word()
}

fn split_words(packed: u64) -> (r: (u32, u32))
    ensures
        r.0 == high_word(packed),
        r.1 == low_word(packed),
{
    let hi = (packed >> 32u64) as u32;
    let lo = (packed & 0xFFFF_FFFFu64) as u32;
    assert(((packed >> 32u64) as u32) as u64 == packed / 0x1_0000_0000u64) by (bit_vector);
    assert((packed & 0xFFFF_FFFFu64) as u32 as u64 == packed % 0x1_0000_0000u64) by (bit_vector);
    (hi, lo)
}

/// The packed value of a (high, low) pair of 32-bit words.
pub open spec fn packed(hi: u32, lo: u32) -> u64 {
    (hi as int * word() + lo as int) as u64
}

/// A packed attribute gives back the words it was packed from: the high
/// word is the width or numerator, the low word the height or denominator.
pub proof fn lemma_packed_halves(hi: u32, lo: u32)
    ensures
        high_word(packed(hi, lo)) == hi,
        low_word(packed(hi, lo)) == lo,
{
    let p = hi as int * word() + lo as int;
    assert(p <= u64::MAX) by (nonlinear_arith)
        requires
            p == hi as int * 0x1_0000_0000 + lo as int,
            hi <= u32::MAX,
            lo <= u32::MAX,
    ;
    assert(packed(hi, lo) as int == p);
    vstd::arithmetic::div_mod::lemma_fundamental_div_mod_converse(p, word() as int, hi as int, lo as int);
}

/// What `parse_frame_rate_fraction` yields: the numerator when the packed
/// fraction is a whole, nonzero number of frames per second.
pub open spec fn spec_parse_frame_rate_fraction(packed: u64) -> Option<u32> {
    if low_word(packed) != 1 || high_word(packed) == 0 {
        None
    } else {
        Some(high_word(packed) as u32)
    }
}

/// Decode a packed `MF_MT_FRAME_RATE*` attribute (numerator in the high
/// word, denominator in the low word) into whole frames per second. Only
/// denominators of exactly 1 and nonzero numerators are accepted.
pub fn parse_frame_rate_fraction(fraction_u64: u64) -> (r: Option<u32>)
    ensures
        r == spec_parse_frame_rate_fraction(fraction_u64),
{
    let (numerator, denominator) = split_words(fraction_u64);
    if denominator != 1 {
        return None;
    }
    if numerator == 0 {
        return None;
    }
    Some(numerator)
}

/// The numerator of a packed `MF_MT_FRAME_RATE` attribute, without any
/// validation of the denominator.
pub fn frame_rate_numerator(fraction_u64: u64) -> (r: u32)
    ensures
        r == high_word(fraction_u64),
{
    split_words(fraction_u64).0
}

/// Decode a packed `MF_MT_FRAME_SIZE` attribute into `(width, height)`:
/// the width is the high word and the height the low word.
pub fn parse_frame_size(packed: u64) -> (r: (u32, u32))
    ensures
        r.0 == high_word(packed),
        r.1 == low_word(packed),
{
    split_words(packed)
}

/// A Media Foundation / COM GUID. `data4` holds the eight trailing bytes
/// packed big-endian (first byte in the most significant position).
#[derive(Clone, Copy, Debug, PartialEq, Eq, Structural)]
pub struct Guid {
    pub data1: u32,
    pub data2: u16,
    pub data3: u16,
    pub data4: u64,
}

pub open spec fn pack_bytes(b: [u8; 8]) -> nat {
    b[0] as nat * 0x100_0000_0000_0000 + b[1] as nat * 0x1_0000_0000_0000 + b[2] as nat
        * 0x100_0000_0000 + b[3] as nat * 0x1_0000_0000 + b[4] as nat * 0x100_0000 + b[5] as nat
        * 0x1_0000 + b[6] as nat * 0x100 + b[7] as nat
}

impl Guid {
    /// Build a GUID from its four fields, as `GUID::from_values` does.
    pub fn from_values(data1: u32, data2: u16, data3: u16, data4: [u8; 8]) -> (g: Guid)
        ensures
            g.data1 == data1,
            g.data2 == data2,
            g.data3 == data3,
            g.data4 == pack_bytes(data4),
    {
        let mut packed: u64 = 0;
        let mut i: usize = 0;
        while i < 8
            invariant
                i <= 8,
                packed as nat == prefix_value(data4, i as nat),
                prefix_value(data4, i as nat) < pow256(i as nat),
            decreases 8 - i,
        {
            proof {
                lemma_prefix_step(data4, i as nat);
            }
            packed = packed * 256 + data4[i] as u64;
            i = i + 1;
        }
        proof {
            lemma_prefix_full(data4);
        }
        Guid { data1, data2, data3, data4: packed }
    }
}

pub open spec fn pow256(n: nat) -> nat
    decreases n,
{
    if n == 0 {
        1
    } else {
        256 * pow256((n - 1) as nat)
    }
}

/// Big-endian value of the first `n` bytes.
pub open spec fn prefix_value(b: [u8; 8], n: nat) -> nat
    decreases n,
{
    if n == 0 {
        0
    } else {
        prefix_value(b, (n - 1) as nat) * 256 + b[n - 1] as nat
    }
}

proof fn lemma_prefix_step(b: [u8; 8], i: nat)
    requires
        i < 8,
        prefix_value(b, i) < pow256(i),
    ensures
        prefix_value(b, i + 1) == prefix_value(b, i) * 256 + b[i as int] as nat,
        prefix_value(b, i + 1) < pow256(i + 1),
        pow256(i + 1) <= pow256(8),
        pow256(8) == 0x1_0000_0000_0000_0000,
{
    reveal_with_fuel(pow256, 9);
    let p = prefix_value(b, i);
    let x = b[i as int] as nat;
    assert(p * 256 + x < pow256(i) * 256) by (nonlinear_arith)
        requires
            p < pow256(i),
            x < 256,
    ;
    lemma_pow256_mono(i + 1, 8);
}

proof fn lemma_pow256_mono(a: nat, b: nat)
    requires
        a <= b,
    ensures
        pow256(a) <= pow256(b),
    decreases b,
{
    if a < b {
        lemma_pow256_mono(a, (b - 1) as nat);
        assert(pow256(b) == 256 * pow256((b - 1) as nat));
    }
}

proof fn lemma_prefix_full(b: [u8; 8])
    ensures
        prefix_value(b, 8) == pack_bytes(b),
{
    reveal_with_fuel(prefix_value, 9);
}

/// `MFVideoFormat_YUY2`.
pub fn mf_video_format_yuy2() -> (g: Guid)
    ensures
        g == spec_media_subtype(0x3259_5559),
{
    Guid { data1: 0x3259_5559, data2: 0, data3: 0x0010, data4: 0x8000_00AA_0038_9B71 }
}

/// `MFVideoFormat_MJPG`.
pub fn mf_video_format_mjpeg() -> (g: Guid)
    ensures
        g == spec_media_subtype(0x4750_4A4D),
{
    Guid { data1: 0x4750_4A4D, data2: 0, data3: 0x0010, data4: 0x8000_00AA_0038_9B71 }
}

/// `MFVideoFormat_L8` / `Y800` grayscale.
pub fn mf_video_format_gray() -> (g: Guid)
    ensures
        g == spec_media_subtype(0x3030_3859),
{
    Guid { data1: 0x3030_3859, data2: 0, data3: 0x0010, data4: 0x8000_00AA_0038_9B71 }
}

/// `MFVideoFormat_NV12`.
pub fn mf_video_format_nv12() -> (g: Guid)
    ensures
        g == spec_media_subtype(0x3231_564E),
{
    Guid { data1: 0x3231_564E, data2: 0, data3: 0x0010, data4: 0x8000_00AA_0038_9B71 }
}

/// `MFVideoFormat_RGB24`.
pub fn mf_video_format_rgb24() -> (g: Guid)
    ensures
        g == spec_media_subtype(0x0000_0014),
{
    Guid { data1: 0x0000_0014, data2: 0, data3: 0x0010, data4: 0x8000_00AA_0038_9B71 }
}

/// A media subtype GUID built on the standard `XXXXXXXX-0000-0010-8000-00AA00389B71`
/// base, with `code` as its first field.
pub open spec fn spec_media_subtype(code: u32) -> Guid {
    Guid { data1: code, data2: 0, data3: 0x0010, data4: 0x8000_00AA_0038_9B71 }
}

/// Frame format a media subtype GUID stands for. RGB24 is delivered
/// bottom-up in BGR byte order and is therefore reported as `RAWBGR`.
pub open spec fn spec_guid_to_frameformat(g: Guid) -> Option<FrameFormat> {
    if g == spec_media_subtype(0x3231_564E) {
        Some(FrameFormat::NV12)
    } else if g == spec_media_subtype(0x0000_0014) {
        Some(FrameFormat::RAWBGR)
    } else if g == spec_media_subtype(0x3030_3859) {
        Some(FrameFormat::GRAY)
    } else if g == spec_media_subtype(0x3259_5559) {
        Some(FrameFormat::YUYV)
    } else if g == spec_media_subtype(0x4750_4A4D) {
        Some(FrameFormat::MJPEG)
    } else {
        None
    }
}

/// Map a media subtype GUID to the frame format it carries, if known.
pub fn guid_to_frameformat(guid: Guid) -> (r: Option<FrameFormat>)
    ensures
        r == spec_guid_to_frameformat(guid),
{
    if guid == mf_video_format_nv12() {
        Some(FrameFormat::NV12)
    } else if guid == mf_video_format_rgb24() {
        Some(FrameFormat::RAWBGR)
    } else if guid == mf_video_format_gray() {
        Some(FrameFormat::GRAY)
    } else if guid == mf_video_format_yuy2() {
        Some(FrameFormat::YUYV)
    } else if guid == mf_video_format_mjpeg() {
        Some(FrameFormat::MJPEG)
    } else {
        None
    }
}

/// `VideoProcAmpProperty` values of DirectShow's `IAMVideoProcAmp`.
pub const VIDEO_PROC_AMP_BRIGHTNESS: i32 = 0;
pub const VIDEO_PROC_AMP_CONTRAST: i32 = 1;
pub const VIDEO_PROC_AMP_HUE: i32 = 2;
pub const VIDEO_PROC_AMP_SATURATION: i32 = 3;
pub const VIDEO_PROC_AMP_SHARPNESS: i32 = 4;
pub const VIDEO_PROC_AMP_GAMMA: i32 = 5;
pub const VIDEO_PROC_AMP_COLOR_ENABLE: i32 = 6;
pub const VIDEO_PROC_AMP_WHITE_BALANCE: i32 = 7;
pub const VIDEO_PROC_AMP_BACKLIGHT_COMPENSATION: i32 = 8;
pub const VIDEO_PROC_AMP_GAIN: i32 = 9;

/// `CameraControlProperty` values of DirectShow's `IAMCameraControl`.
pub const CAMERA_CONTROL_PAN: i32 = 0;
pub const CAMERA_CONTROL_TILT: i32 = 1;
pub const CAMERA_CONTROL_ZOOM: i32 = 3;
pub const CAMERA_CONTROL_EXPOSURE: i32 = 4;
pub const CAMERA_CONTROL_IRIS: i32 = 5;
pub const CAMERA_CONTROL_FOCUS: i32 = 6;

/// `CameraControl_Flags_Manual`: the control is driven by an explicit value.
pub const CAMERA_CONTROL_FLAGS_MANUAL: i32 = 2;

/// Which DirectShow interface and property id serve a control, and whether
/// it is reported as a range or as a boolean.
#[derive(Clone, Copy, Debug, PartialEq, Eq, Structural)]
pub enum MFControlId {
    ProcAmpBoolean(i32),
    ProcAmpRange(i32),
    CCRange(i32),
}

pub open spec fn spec_kcc_to_i32(kcc: KnownCameraControl) -> Option<MFControlId> {
    match kcc {
        KnownCameraControl::Brightness => Some(MFControlId::ProcAmpRange(VIDEO_PROC_AMP_BRIGHTNESS)),
        KnownCameraControl::Contrast => Some(MFControlId::ProcAmpRange(VIDEO_PROC_AMP_CONTRAST)),
        KnownCameraControl::Hue => Some(MFControlId::ProcAmpRange(VIDEO_PROC_AMP_HUE)),
        KnownCameraControl::Saturation => Some(MFControlId::ProcAmpRange(VIDEO_PROC_AMP_SATURATION)),
        KnownCameraControl::Sharpness => Some(MFControlId::ProcAmpRange(VIDEO_PROC_AMP_SHARPNESS)),
        KnownCameraControl::Gamma => Some(MFControlId::ProcAmpRange(VIDEO_PROC_AMP_GAMMA)),
        KnownCameraControl::WhiteBalance => Some(
            MFControlId::ProcAmpRange(VIDEO_PROC_AMP_WHITE_BALANCE),
        ),
        KnownCameraControl::BacklightComp => Some(
            MFControlId::ProcAmpBoolean(VIDEO_PROC_AMP_BACKLIGHT_COMPENSATION),
        ),
        KnownCameraControl::Gain => Some(MFControlId::ProcAmpRange(VIDEO_PROC_AMP_GAIN)),
        KnownCameraControl::Pan => Some(MFControlId::CCRange(CAMERA_CONTROL_PAN)),
        KnownCameraControl::Tilt => Some(MFControlId::CCRange(CAMERA_CONTROL_TILT)),
        KnownCameraControl::Zoom => Some(MFControlId::CCRange(CAMERA_CONTROL_ZOOM)),
        KnownCameraControl::Exposure => Some(MFControlId::CCRange(CAMERA_CONTROL_EXPOSURE)),
        KnownCameraControl::Iris => Some(MFControlId::CCRange(CAMERA_CONTROL_IRIS)),
        KnownCameraControl::Focus => Some(MFControlId::CCRange(CAMERA_CONTROL_FOCUS)),
        KnownCameraControl::Other(o) => if o == VIDEO_PROC_AMP_COLOR_ENABLE as u128 {
            Some(MFControlId::ProcAmpRange(VIDEO_PROC_AMP_COLOR_ENABLE))
        } else {
            None
        },
    }
}

/// Map a control to the DirectShow property serving it. Of the `Other`
/// controls only `VideoProcAmp_ColorEnable` is known.
pub fn kcc_to_i32(kcc: KnownCameraControl) -> (r: Option<MFControlId>)
    ensures
        r == spec_kcc_to_i32(kcc),
{
    let control_id = match kcc {
        KnownCameraControl::Brightness => MFControlId::ProcAmpRange(VIDEO_PROC_AMP_BRIGHTNESS),
        KnownCameraControl::Contrast => MFControlId::ProcAmpRange(VIDEO_PROC_AMP_CONTRAST),
        KnownCameraControl::Hue => MFControlId::ProcAmpRange(VIDEO_PROC_AMP_HUE),
        KnownCameraControl::Saturation => MFControlId::ProcAmpRange(VIDEO_PROC_AMP_SATURATION),
        KnownCameraControl::Sharpness => MFControlId::ProcAmpRange(VIDEO_PROC_AMP_SHARPNESS),
        KnownCameraControl::Gamma => MFControlId::ProcAmpRange(VIDEO_PROC_AMP_GAMMA),
        KnownCameraControl::WhiteBalance => MFControlId::ProcAmpRange(
            VIDEO_PROC_AMP_WHITE_BALANCE,
        ),
        KnownCameraControl::BacklightComp => MFControlId::ProcAmpBoolean(
            VIDEO_PROC_AMP_BACKLIGHT_COMPENSATION,
        ),
        KnownCameraControl::Gain => MFControlId::ProcAmpRange(VIDEO_PROC_AMP_GAIN),
        KnownCameraControl::Pan => MFControlId::CCRange(CAMERA_CONTROL_PAN),
        KnownCameraControl::Tilt => MFControlId::CCRange(CAMERA_CONTROL_TILT),
        KnownCameraControl::Zoom => MFControlId::CCRange(CAMERA_CONTROL_ZOOM),
        KnownCameraControl::Exposure => MFControlId::CCRange(CAMERA_CONTROL_EXPOSURE),
        KnownCameraControl::Iris => MFControlId::CCRange(CAMERA_CONTROL_IRIS),
        KnownCameraControl::Focus => MFControlId::CCRange(CAMERA_CONTROL_FOCUS),
        KnownCameraControl::Other(o) => {
            if o == 6u128 {
                MFControlId::ProcAmpRange(VIDEO_PROC_AMP_COLOR_ENABLE)
            } else {
                return None;
            }
        },
    };
    Some(control_id)
}

/// `kcc_to_i32`, with the refusal for an unmapped control spelled out: a
/// control no DirectShow property serves is an unsupported operation of the
/// Media Foundation backend.
pub fn kcc_to_i32_or_err(control: KnownCameraControl) -> (r: Result<MFControlId, NokhwaError>)
    ensures
        match spec_kcc_to_i32(control) {
            Some(id) => r == Ok::<MFControlId, NokhwaError>(id),
            None => r == Err::<MFControlId, NokhwaError>(
                NokhwaError::UnsupportedOperationError(ApiBackend::MediaFoundation),
            ),
        },
{
    match kcc_to_i32(control) {
        Some(id) => Ok(id),
        None => Err(NokhwaError::UnsupportedOperationError(ApiBackend::MediaFoundation)),
    }
}

/// One native media type of the first video stream, decoded.
#[derive(Clone, Debug)]
pub struct ParsedMediaType {
    pub frame_format: FrameFormat,
    pub resolution: Resolution,
    pub frame_rates: Vec<u32>,
}

/// The rate an optional packed attribute contributes: its whole-fps value,
/// or nothing when it is absent or not a whole, nonzero rate.
pub open spec fn rate_entry(attr: Option<u64>) -> Seq<u32> {
    match attr {
        Some(p) => match spec_parse_frame_rate_fraction(p) {
            Some(r) => seq![r],
            None => Seq::empty(),
        },
        None => Seq::empty(),
    }
}

/// Frame rates of a media type, read from `MF_MT_FRAME_RATE_RANGE_MAX`,
/// `MF_MT_FRAME_RATE` and `MF_MT_FRAME_RATE_RANGE_MIN` in that order;
/// attributes that are missing or not whole rates contribute nothing.
pub fn media_type_frame_rates(range_max: Option<u64>, rate: Option<u64>, range_min: Option<u64>) -> (r:
    Vec<u32>)
    ensures
        r@ == rate_entry(range_max) + rate_entry(rate) + rate_entry(range_min),
{
    let mut rates: Vec<u32> = Vec::new();
    if let Some(p) = range_max {
        if let Some(x) = parse_frame_rate_fraction(p) {
            rates.push(x);
        }
    }
    if let Some(p) = rate {
        if let Some(x) = parse_frame_rate_fraction(p) {
            rates.push(x);
        }
    }
    if let Some(p) = range_min {
        if let Some(x) = parse_frame_rate_fraction(p) {
            rates.push(x);
        }
    }
    assert(rates@ =~= rate_entry(range_max) + rate_entry(rate) + rate_entry(range_min));
    rates
}

/// Decode one native media type from its subtype and frame-size attribute
/// reads (each either a value or the failure text). `Ok(None)` skips a
/// subtype that maps to no frame format.
pub fn parse_native_media_type(
    subtype: Result<Guid, String>,
    frame_size: Result<u64, String>,
    frame_rates: Vec<u32>,
) -> (r: Result<Option<ParsedMediaType>, NokhwaError>)
    ensures
        match subtype {
            Err(why) => r matches Err(e) && is_get_property_error(e, "MF_MT_SUBTYPE"@, why@),
            Ok(g) => match spec_guid_to_frameformat(g) {
                None => r matches Ok(None),
                Some(ff) => match frame_size {
                    Err(why) => r matches Err(e) && is_get_property_error(
                        e,
                        "MF_MT_FRAME_SIZE"@,
                        why@,
                    ),
                    Ok(packed) => r matches Ok(Some(p)) && p.frame_format == ff
                        && p.resolution.width_x == high_word(packed) && p.resolution.height_y
                        == low_word(packed) && p.frame_rates@ == frame_rates@,
                },
            },
        },
{
    let fourcc = match subtype {
        Ok(g) => g,
        Err(why) => {
            return Err(
                NokhwaError::GetPropertyError {
                    property: String::from_str("MF_MT_SUBTYPE"),
                    error: why,
                },
            );
        },
    };
    let frame_format = match guid_to_frameformat(fourcc) {
        Some(ff) => ff,
        None => {
            return Ok(None);
        },
    };
    let (width, height) = match frame_size {
        Ok(packed) => parse_frame_size(packed),
        Err(why) => {
            return Err(
                NokhwaError::GetPropertyError {
                    property: String::from_str("MF_MT_FRAME_SIZE"),
                    error: why,
                },
            );
        },
    };
    Ok(
        Some(
            ParsedMediaType {
                frame_format,
                resolution: Resolution { width_x: width, height_y: height },
                frame_rates,
            },
        ),
    )
}

/// The camera format offered by rate `j` of media type `i`.
pub open spec fn offered_at(p: Seq<ParsedMediaType>, i: int, j: int) -> CameraFormat {
    CameraFormat {
        resolution: p[i].resolution,
        format: p[i].frame_format,
        frame_rate: p[i].frame_rates@[j],
    }
}

/// Some media type of `p` offers `c` at one of its frame rates.
pub open spec fn media_types_offer(p: Seq<ParsedMediaType>, c: CameraFormat) -> bool {
    exists|i: int, j: int|
        0 <= i < p.len() && 0 <= j < p[i].frame_rates@.len() && #[trigger] offered_at(p, i, j) == c
}

/// Every (resolution, format, rate) the media types offer, sorted and
/// without duplicates (media types often repeat the same mode).
pub fn compatible_format_list(parsed: &Vec<ParsedMediaType>) -> (r: Vec<CameraFormat>)
    ensures
        camera_formats_sorted(r@),
        forall|c: CameraFormat| #[trigger] r@.contains(c) <==> media_types_offer(parsed@, c),
{
    let mut out: Vec<CameraFormat> = Vec::new();
    let mut i: usize = 0;
    while i < parsed.len()
        invariant
            i <= parsed.len(),
            camera_formats_sorted(out@),
            forall|c: CameraFormat| #[trigger]
                out@.contains(c) <==> exists|a: int, b: int|
                    0 <= a < i && 0 <= b < parsed@[a].frame_rates@.len() && #[trigger] offered_at(
                        parsed@,
                        a,
                        b,
                    ) == c,
        decreases parsed.len() - i,
    {
        let pm = &parsed[i];
        let mut j: usize = 0;
        while j < pm.frame_rates.len()
            invariant
                i < parsed.len(),
                pm == parsed@[i as int],
                j <= pm.frame_rates@.len(),
                camera_formats_sorted(out@),
                forall|c: CameraFormat| #[trigger]
                    out@.contains(c) <==> (exists|a: int, b: int|
                        0 <= a < i && 0 <= b < parsed@[a].frame_rates@.len() && #[trigger] offered_at(
                            parsed@,
                            a,
                            b,
                        ) == c) || (exists|b: int|
                        0 <= b < j && #[trigger] offered_at(parsed@, i as int, b) == c),
            decreases pm.frame_rates@.len() - j,
        {
            let c = CameraFormat {
                resolution: pm.resolution,
                format: pm.frame_format,
                frame_rate: pm.frame_rates[j],
            };
            assert(c == offered_at(parsed@, i as int, j as int));
            insert_camera_format(&mut out, c);
            j = j + 1;
        }
        proof {
            assert forall|c: CameraFormat| #[trigger]
                out@.contains(c) <==> exists|a: int, b: int|
                    0 <= a < i + 1 && 0 <= b < parsed@[a].frame_rates@.len() && #[trigger] offered_at(
                        parsed@,
                        a,
                        b,
                    ) == c by {
                if out@.contains(c) {
                    if exists|b: int| 0 <= b < j && #[trigger] offered_at(parsed@, i as int, b) == c {
                        let b = choose|b: int| 0 <= b < j && #[trigger] offered_at(parsed@, i as int, b) == c;
                        assert(offered_at(parsed@, i as int, b) == c);
                    }
                }
                if exists|a: int, b: int|
                    0 <= a < i + 1 && 0 <= b < parsed@[a].frame_rates@.len() && #[trigger] offered_at(
                        parsed@,
                        a,
                        b,
                    ) == c {
                    let (a, b) = choose|a: int, b: int|
                        0 <= a < i + 1 && 0 <= b < parsed@[a].frame_rates@.len() && #[trigger] offered_at(
                            parsed@,
                            a,
                            b,
                        ) == c;
                    if a == i {
                        assert(offered_at(parsed@, i as int, b) == c);
                    } else {
                        assert(offered_at(parsed@, a, b) == c);
                    }
                }
            }
        }
        i = i + 1;
    }
    out
}

/// Media type `m` has the encoding and resolution of `f`.
pub open spec fn media_type_matches(m: ParsedMediaType, f: CameraFormat) -> bool {
    m.frame_format == f.format && m.resolution == f.resolution
}

/// One attempt at index `k` for every rate in `rates` equal to `fps`.
pub open spec fn rate_attempts(rates: Seq<u32>, fps: u32, k: int) -> Seq<int>
    decreases rates.len(),
{
    if rates.len() == 0 {
        Seq::empty()
    } else {
        rate_attempts(rates.drop_last(), fps, k) + if rates.last() == fps {
            seq![k]
        } else {
            Seq::empty()
        }
    }
}

/// Indices of the media types to hand to `SetCurrentMediaType`, in order,
/// when asked for `f`: one entry per rate of a matching media type that
/// equals the requested rate.
pub open spec fn format_attempts(p: Seq<ParsedMediaType>, f: CameraFormat) -> Seq<int>
    decreases p.len(),
{
    if p.len() == 0 {
        Seq::empty()
    } else {
        let k = p.len() - 1;
        format_attempts(p.drop_last(), f) + if media_type_matches(p[k], f) {
            rate_attempts(p[k].frame_rates@, f.frame_rate, k)
        } else {
            Seq::empty()
        }
    }
}

/// The media types `set_format` tries for `format`, in the order tried.
pub fn set_format_attempts(parsed: &Vec<ParsedMediaType>, format: CameraFormat) -> (r: Vec<usize>)
    ensures
        r@.map_values(|x: usize| x as int) == format_attempts(parsed@, format),
{
    let mut out: Vec<usize> = Vec::new();
    let mut i: usize = 0;
    while i < parsed.len()
        invariant
            i <= parsed.len(),
            out@.map_values(|x: usize| x as int) == format_attempts(parsed@.take(i as int), format),
        decreases parsed.len() - i,
    {
        let pm = &parsed[i];
        let ghost base = out@.map_values(|x: usize| x as int);
        proof {
            assert(parsed@.take(i + 1).drop_last() =~= parsed@.take(i as int));
        }
        if pm.frame_format == format.format && pm.resolution == format.resolution {
            let mut j: usize = 0;
            while j < pm.frame_rates.len()
                invariant
                    i < parsed.len(),
                    pm == parsed@[i as int],
                    j <= pm.frame_rates@.len(),
                    out@.map_values(|x: usize| x as int) == base + rate_attempts(
                        pm.frame_rates@.take(j as int),
                        format.frame_rate,
                        i as int,
                    ),
                decreases pm.frame_rates@.len() - j,
            {
                let ghost prev = out@;
                proof {
                    let t = pm.frame_rates@.take(j + 1);
                    assert(t.drop_last() =~= pm.frame_rates@.take(j as int));
                    assert(t.last() == pm.frame_rates@[j as int]);
                    assert(rate_attempts(t, format.frame_rate, i as int) == rate_attempts(
                        t.drop_last(),
                        format.frame_rate,
                        i as int,
                    ) + if t.last() == format.frame_rate {
                        seq![i as int]
                    } else {
                        Seq::<int>::empty()
                    });
                }
                if pm.frame_rates[j] == format.frame_rate {
                    out.push(i);
                    proof {
                        assert(out@.map_values(|x: usize| x as int) =~= prev.map_values(
                            |x: usize| x as int,
                        ).push(i as int));
                    }
                }
                proof {
                    assert(out@.map_values(|x: usize| x as int) =~= base + rate_attempts(
                        pm.frame_rates@.take(j + 1),
                        format.frame_rate,
                        i as int,
                    ));
                }
                j = j + 1;
            }
            proof {
                assert(pm.frame_rates@.take(j as int) =~= pm.frame_rates@);
                assert(parsed@.take(i + 1)[i as int] == pm);
            }
        }
        proof {
            assert(out@.map_values(|x: usize| x as int) =~= format_attempts(parsed@.take(i + 1), format));
        }
        i = i + 1;
    }
    assert(parsed@.take(parsed.len() as int) =~= parsed@);
    out
}

/// The error `set_format` reports when no attempt succeeded: the failure of
/// the last attempt, or, when nothing matched at all, that the request
/// could not be fulfilled.
pub fn set_format_failure(last_error: Option<NokhwaError>) -> (e: NokhwaError)
    ensures
        match last_error {
            Some(l) => e == l,
            None => is_initialize_error(
                e,
                ApiBackend::MediaFoundation,
                "Failed to fulfill requested format"@,
            ),
        },
{
    match last_error {
        Some(l) => l,
        None => NokhwaError::InitializeError {
            backend: ApiBackend::MediaFoundation,
            error: String::from_str("Failed to fulfill requested format"),
        },
    }
}

/// The negotiated format decoded from the current media type's
/// `MF_MT_FRAME_SIZE`, `MF_MT_FRAME_RATE` and `MF_MT_SUBTYPE` reads (each a
/// value or a failure text), checked in that order. The rate is the
/// numerator, whatever the denominator.
pub open spec fn spec_refreshed_format(
    frame_size: Result<u64, String>,
    frame_rate: Result<u64, String>,
    subtype: Result<Guid, String>,
    r: Result<CameraFormat, NokhwaError>,
) -> bool {
    match frame_size {
        Err(why) => r matches Err(e) && is_get_property_error(e, "MF_MT_FRAME_SIZE"@, why@),
        Ok(size) => match frame_rate {
            Err(why) => r matches Err(e) && is_get_property_error(e, "MF_MT_FRAME_RATE"@, why@),
            Ok(rate) => match subtype {
                Err(why) => r matches Err(e) && is_get_property_error(e, "MF_MT_SUBTYPE"@, why@),
                Ok(g) => match spec_guid_to_frameformat(g) {
                    None => r matches Err(e) && is_get_property_error(
                        e,
                        "MF_MT_SUBTYPE"@,
                        "Unknown"@,
                    ),
                    Some(ff) => r == Ok::<CameraFormat, NokhwaError>(
                        CameraFormat {
                            resolution: Resolution {
                                width_x: high_word(size) as u32,
                                height_y: low_word(size) as u32,
                            },
                            format: ff,
                            frame_rate: high_word(rate) as u32,
                        },
                    ),
                },
            },
        },
    }
}

/// Decode the negotiated format from the current media type's attributes.
pub fn refreshed_format(
    frame_size: Result<u64, String>,
    frame_rate: Result<u64, String>,
    subtype: Result<Guid, String>,
) -> (r: Result<CameraFormat, NokhwaError>)
    ensures
        spec_refreshed_format(frame_size, frame_rate, subtype, r),
{
    let (width, height) = match frame_size {
        Ok(res) => parse_frame_size(res),
        Err(why) => {
            return Err(
                NokhwaError::GetPropertyError {
                    property: String::from_str("MF_MT_FRAME_SIZE"),
                    error: why,
                },
            );
        },
    };
    let rate = match frame_rate {
        Ok(fps) => frame_rate_numerator(fps),
        Err(why) => {
            return Err(
                NokhwaError::GetPropertyError {
                    property: String::from_str("MF_MT_FRAME_RATE"),
                    error: why,
                },
            );
        },
    };
    let format = match subtype {
        Ok(fcc) => match guid_to_frameformat(fcc) {
            Some(ff) => ff,
            None => {
                return Err(
                    NokhwaError::GetPropertyError {
                        property: String::from_str("MF_MT_SUBTYPE"),
                        error: String::from_str("Unknown"),
                    },
                );
            },
        },
        Err(why) => {
            return Err(
                NokhwaError::GetPropertyError {
                    property: String::from_str("MF_MT_SUBTYPE"),
                    error: why,
                },
            );
        },
    };
    Ok(
        CameraFormat {
            resolution: Resolution { width_x: width, height_y: height },
            format,
            frame_rate: rate,
        },
    )
}

/// Largest `Duration` in whole nanoseconds: `u64::MAX` seconds plus
/// 999 999 999 nanoseconds. Durations are carried as nanosecond counts.
pub open spec fn max_duration_nanos() -> nat {
    u64::MAX as nat * 1_000_000_000 + 999_999_999
}

/// Absolute capture time of a sample: the stream's start time plus the
/// sample's presentation time (in 100 ns ticks). Negative presentation
/// times, a missing start time and results past the largest `Duration`
/// give `None`.
pub open spec fn spec_capture_timestamp(epoch: Option<u128>, sample_time_100ns: i64) -> Option<
    u128,
> {
    if sample_time_100ns < 0 {
        None
    } else if sample_time_100ns as nat * 100 > u64::MAX {
        None
    } else {
        match epoch {
            None => None,
            Some(e) => if e as nat + sample_time_100ns as nat * 100 > max_duration_nanos() {
                None
            } else {
                Some((e as nat + sample_time_100ns as nat * 100) as u128)
            },
        }
    }
}

/// Compute the absolute capture time of a sample, in nanoseconds since the
/// Unix epoch.
pub fn capture_timestamp(epoch: Option<u128>, sample_time_100ns: i64) -> (r: Option<u128>)
    requires
        epoch matches Some(e) ==> e as nat <= max_duration_nanos(),
    ensures
        r == spec_capture_timestamp(epoch, sample_time_100ns),
{
    if sample_time_100ns < 0 {
        return None;
    }
    let ticks = sample_time_100ns as u64;
    let offset = match ticks.checked_mul(100) {
        Some(o) => o,
        None => {
            return None;
        },
    };
    match epoch {
        None => None,
        Some(e) => {
            let limit: u128 = 18_446_744_073_709_551_615u128 * 1_000_000_000u128 + 999_999_999u128;
            if e > limit - offset as u128 {
                None
            } else {
                Some(e + offset as u128)
            }
        },
    }
}

/// `MF_SOURCE_READERF_ERROR | MF_SOURCE_READERF_ENDOFSTREAM`.
pub const READER_STREAM_FINISHED_FLAGS: u32 = 0x3;

/// `MF_SOURCE_READERF_CURRENTMEDIATYPECHANGED`.
pub const READER_CURRENT_MEDIA_TYPE_CHANGED: u32 = 0x20;

/// What to do after one `ReadSample` call.
#[derive(Clone, Copy, Debug, PartialEq, Eq, Structural)]
pub enum SampleStep {
    /// The stream errored or ended: report a read failure.
    StreamEnded,
    /// No sample yet; refresh the cached format first if asked, then read again.
    ReadAgain { refresh_format: bool },
    /// A sample arrived; refresh the cached format first if asked, then use it.
    Deliver { refresh_format: bool },
}

pub open spec fn spec_sample_step(stream_flags: u32, has_sample: bool) -> SampleStep {
    if stream_flags & READER_STREAM_FINISHED_FLAGS != 0 {
        SampleStep::StreamEnded
    } else if has_sample {
        SampleStep::Deliver {
            refresh_format: stream_flags & READER_CURRENT_MEDIA_TYPE_CHANGED != 0,
        }
    } else {
        SampleStep::ReadAgain {
            refresh_format: stream_flags & READER_CURRENT_MEDIA_TYPE_CHANGED != 0,
        }
    }
}

/// Decide what a `ReadSample` outcome means: an errored or ended stream
/// stops the read; a media-type change refreshes the cached format (the
/// accompanying sample is already in the new format); a missing sample
/// means reading again.
pub fn read_sample_step(stream_flags: u32, has_sample: bool) -> (r: SampleStep)
    ensures
        r == spec_sample_step(stream_flags, has_sample),
{
    if stream_flags & READER_STREAM_FINISHED_FLAGS != 0 {
        return SampleStep::StreamEnded;
    }
    let refresh_format = stream_flags & READER_CURRENT_MEDIA_TYPE_CHANGED != 0;
    if has_sample {
        SampleStep::Deliver { refresh_format }
    } else {
        SampleStep::ReadAgain { refresh_format }
    }
}

/// The read failure reported for a stream that errored or ended.
pub fn stream_ended_error(format: Option<FrameFormat>) -> (e: NokhwaError)
    ensures
        is_read_frame_error(e, "stream ended or errored"@, format),
{
    NokhwaError::ReadFrameError { message: String::from_str("stream ended or errored"), format }
}

/// Check a locked sample buffer before copying out of it: a null start
/// pointer or an empty buffer is a read failure.
pub fn check_locked_buffer(start_is_null: bool, valid_length: u32, format: Option<FrameFormat>) -> (r:
    Result<(), NokhwaError>)
    ensures
        start_is_null ==> (r matches Err(e) && is_read_frame_error(e, "Buffer Pointer Null"@, format)),
        !start_is_null && valid_length == 0 ==> (r matches Err(e) && is_read_frame_error(
            e,
            "Buffer Size is 0"@,
            format,
        )),
        !start_is_null && valid_length != 0 ==> r is Ok,
{
    if start_is_null {
        return Err(
            NokhwaError::ReadFrameError { message: String::from_str("Buffer Pointer Null"), format },
        );
    }
    if valid_length == 0 {
        return Err(
            NokhwaError::ReadFrameError { message: String::from_str("Buffer Size is 0"), format },
        );
    }
    Ok(())
}

/// Range, default, current value and flag of one DirectShow control, as
/// read by `GetRange` and `Get`.
#[derive(Clone, Copy, Debug, PartialEq, Eq, Structural)]
pub struct ControlReadout {
    pub min: i32,
    pub max: i32,
    pub step: i32,
    pub default: i32,
    pub value: i32,
    pub flag: i32,
}

/// Description reported for a readout: a boolean for `ProcAmpBoolean`
/// (nonzero is `true`), an integer range otherwise.
pub open spec fn spec_readout_description(id: MFControlId, r: ControlReadout) -> ControlValueDescription {
    match id {
        MFControlId::ProcAmpBoolean(_) => ControlValueDescription::Boolean {
            value: r.value != 0,
            default: r.default != 0,
        },
        _ => ControlValueDescription::IntegerRange {
            min: r.min as i64,
            max: r.max as i64,
            value: r.value as i64,
            step: r.step as i64,
            default: r.default as i64,
        },
    }
}

/// Build the control reported for a readout: manual when the flag is
/// `CameraControl_Flags_Manual`, automatic otherwise; always active.
pub fn control_from_readout(control: KnownCameraControl, id: MFControlId, r: ControlReadout) -> (c:
    CameraControl)
    ensures
        c.control == control,
        c.name@ == spec_control_name(control),
        c.description == spec_readout_description(id, r),
        c.flag@ == seq![
            if r.flag == CAMERA_CONTROL_FLAGS_MANUAL {
                KnownCameraControlFlag::Manual
            } else {
                KnownCameraControlFlag::Automatic
            },
        ],
        c.active,
{
    let description = match id {
        MFControlId::ProcAmpBoolean(_) => ControlValueDescription::Boolean {
            value: r.value != 0,
            default: r.default != 0,
        },
        _ => ControlValueDescription::IntegerRange {
            min: r.min as i64,
            max: r.max as i64,
            value: r.value as i64,
            step: r.step as i64,
            default: r.default as i64,
        },
    };
    let is_manual = if r.flag == CAMERA_CONTROL_FLAGS_MANUAL {
        KnownCameraControlFlag::Manual
    } else {
        KnownCameraControlFlag::Automatic
    };
    let mut flag: Vec<KnownCameraControlFlag> = Vec::new();
    flag.push(is_manual);
    CameraControl { control, name: control.name(), description, flag, active: true }
}

/// The integer written to a DirectShow control for a setter: an integer is
/// truncated to 32 bits, a boolean becomes 0 or 1, anything else is refused.
pub fn control_value_to_i32(value: &ControlValueSetter) -> (r: Result<i32, NokhwaError>)
    ensures
        match *value {
            ControlValueSetter::Integer(i) => r == Ok::<i32, NokhwaError>(i as i32),
            ControlValueSetter::Boolean(b) => r == Ok::<i32, NokhwaError>(
                if b {
                    1i32
                } else {
                    0i32
                },
            ),
            _ => r matches Err(e) && is_structure_error(
                e,
                "ControlValueSetter "@ + spec_setter_text(*value),
                "invalid value type"@,
            ),
        },
{
    match value {
        ControlValueSetter::Integer(i) => Ok(*i as i32),
        ControlValueSetter::Boolean(b) => Ok(
            if *b {
                1i32
            } else {
                0i32
            },
        ),
        v => Err(
            NokhwaError::StructureError {
                structure: String::from_str("ControlValueSetter ").concat(v.text().as_str()),
                error: String::from_str("invalid value type"),
            },
        ),
    }
}

/// The error for a control write the device refused.
pub fn set_control_failure(control: KnownCameraControl, value: i32, why: String) -> (e: NokhwaError)
    ensures
        is_set_property_error(e, spec_control_name(control), signed_decimal(value as int), why@),
{
    NokhwaError::SetPropertyError { property: control.name(), value: i32_text(value), error: why }
}

/// Debug rendering of a control id, e.g. `ProcAmpRange(0)`.
pub open spec fn spec_control_id_text(id: MFControlId) -> Seq<char> {
    match id {
        MFControlId::ProcAmpBoolean(i) => "ProcAmpBoolean("@ + signed_decimal(i as int) + ")"@,
        MFControlId::ProcAmpRange(i) => "ProcAmpRange("@ + signed_decimal(i as int) + ")"@,
        MFControlId::CCRange(i) => "CCRange("@ + signed_decimal(i as int) + ")"@,
    }
}

/// The error for a failed control read: `<id>: <control> - Range` when
/// `GetRange` failed, `... - Value` when `Get` failed.
pub fn control_read_failure(
    id: MFControlId,
    control: KnownCameraControl,
    range_failed: bool,
    why: String,
) -> (e: NokhwaError)
    ensures
        is_get_property_error(
            e,
            spec_control_id_text(id) + ": "@ + spec_control_name(control) + if range_failed {
                " - Range"@
            } else {
                " - Value"@
            },
            why@,
        ),
{
    let head = match id {
        MFControlId::ProcAmpBoolean(i) => String::from_str("ProcAmpBoolean(").concat(
            i32_text(i).as_str(),
        ).concat(")"),
        MFControlId::ProcAmpRange(i) => String::from_str("ProcAmpRange(").concat(
            i32_text(i).as_str(),
        ).concat(")"),
        MFControlId::CCRange(i) => String::from_str("CCRange(").concat(i32_text(i).as_str()).concat(
            ")",
        ),
    };
    let tail = if range_failed {
        " - Range"
    } else {
        " - Value"
    };
    let property = head.concat(": ").concat(control.name().as_str()).concat(tail);
    NokhwaError::GetPropertyError { property, error: why }
}

/// Plain state of an opened Media Foundation device: its descriptor, the
/// negotiated format, whether the stream is running, and the wall-clock
/// time (nanoseconds since the Unix epoch) at which it was started.
pub struct MediaFoundationDevice {
    is_open: bool,
    device_specifier: CameraInfo,
    device_format: CameraFormat,
    stream_epoch: Option<u128>,
}

impl MediaFoundationDevice {
    #[verifier::type_invariant]
    spec fn inv(self) -> bool {
        self.stream_epoch matches Some(e) ==> e as nat <= max_duration_nanos()
    }

    pub closed spec fn spec_is_open(self) -> bool {
        self.is_open
    }

    pub closed spec fn spec_info(self) -> CameraInfo {
        self.device_specifier
    }

    pub closed spec fn spec_format(self) -> CameraFormat {
        self.device_format
    }

    pub closed spec fn spec_epoch(self) -> Option<u128> {
        self.stream_epoch
    }

    /// State of a freshly opened device: stream closed, format not yet
    /// negotiated.
    pub fn new(device_specifier: CameraInfo) -> (d: MediaFoundationDevice)
        ensures
            !d.spec_is_open(),
            d.spec_info() == device_specifier,
            d.spec_format() == spec_default_camera_format(),
            d.spec_epoch() is None,
    {
        MediaFoundationDevice {
            is_open: false,
            device_specifier,
            device_format: CameraFormat::default_format(),
            stream_epoch: None,
        }
    }

    pub fn index(&self) -> (r: &CameraIndex)
        ensures
            *r == self.spec_info().index,
    {
        &self.device_specifier.index
    }

    pub fn name(&self) -> (r: String)
        ensures
            r == self.spec_info().human_name,
    {
        self.device_specifier.human_name.clone()
    }

    /// The device's symbolic link.
    pub fn symlink(&self) -> (r: String)
        ensures
            r == self.spec_info().misc,
    {
        self.device_specifier.misc.clone()
    }

    pub fn format(&self) -> (r: CameraFormat)
        ensures
            r == self.spec_format(),
    {
        self.device_format
    }

    pub fn is_stream_open(&self) -> (r: bool)
        ensures
            r == self.spec_is_open(),
    {
        self.is_open
    }

    /// Record that stream selection succeeded at wall-clock time `epoch`
    /// (`None` when the clock read before the Unix epoch).
    pub fn start_stream(&mut self, epoch: Option<u128>)
        requires
            epoch matches Some(e) ==> e as nat <= max_duration_nanos(),
        ensures
            final(self).spec_is_open(),
            final(self).spec_epoch() == epoch,
            final(self).spec_info() == old(self).spec_info(),
            final(self).spec_format() == old(self).spec_format(),
    {
        self.stream_epoch = epoch;
        self.is_open = true;
    }

    pub fn stop_stream(&mut self)
        ensures
            !final(self).spec_is_open(),
            final(self).spec_epoch() is None,
            final(self).spec_info() == old(self).spec_info(),
            final(self).spec_format() == old(self).spec_format(),
    {
        self.stream_epoch = None;
        self.is_open = false;
    }

    /// Decode the current media type and, on success, cache it as the
    /// negotiated format.
    pub fn format_refreshed(
        &mut self,
        frame_size: Result<u64, String>,
        frame_rate: Result<u64, String>,
        subtype: Result<Guid, String>,
    ) -> (r: Result<CameraFormat, NokhwaError>)
        ensures
            spec_refreshed_format(frame_size, frame_rate, subtype, r),
            match r {
                Ok(f) => final(self).spec_format() == f,
                Err(_) => final(self).spec_format() == old(self).spec_format(),
            },
            final(self).spec_is_open() == old(self).spec_is_open(),
            final(self).spec_epoch() == old(self).spec_epoch(),
            final(self).spec_info() == old(self).spec_info(),
    {
        proof {
            use_type_invariant(&*self);
        }
        let r = refreshed_format(frame_size, frame_rate, subtype);
        if let Ok(f) = &r {
            self.device_format = *f;
        }
        r
    }

    /// Absolute capture time of a sample of the running stream.
    pub fn sample_timestamp(&self, sample_time_100ns: i64) -> (r: Option<u128>)
        ensures
            r == spec_capture_timestamp(self.spec_epoch(), sample_time_100ns),
    {
        proof {
            use_type_invariant(self);
        }
        capture_timestamp(self.stream_epoch, sample_time_100ns)
    }
}

/// Position of the first device in `devices` whose symbolic link is `link`.
pub open spec fn first_with_symlink(devices: Seq<CameraInfo>, link: Seq<char>) -> Option<int> {
    if exists|k: int| 0 <= k < devices.len() && (#[trigger] devices[k]).misc@ == link {
        Some(
            choose|k: int|
                0 <= k < devices.len() && (#[trigger] devices[k]).misc@ == link && forall|m: int|
                    0 <= m < k ==> (#[trigger] devices[m]).misc@ != link,
        )
    } else {
        None
    }
}

/// What routing an index gives: a position is used as given; a string that
/// parses as a number is a position; any other string is a symbolic link,
/// looked up among `devices`, and refused when no device has it.
pub open spec fn spec_route_device_index(
    index: CameraIndex,
    devices: Seq<CameraInfo>,
    r: Result<u32, NokhwaError>,
) -> bool {
    match index {
        CameraIndex::Index(i) => r == Ok::<u32, NokhwaError>(i),
        CameraIndex::String(s) => match spec_parse_u32(s@) {
            Some(n) => r == Ok::<u32, NokhwaError>(n),
            None => match first_with_symlink(devices, s@) {
                Some(k) => spec_as_index_result(devices[k].index, r),
                None => r matches Err(e) && is_open_device_error(e, s@, "device not found"@),
            },
        },
    }
}

/// Resolve the index a device is opened by into a position among the
/// enumerated devices: a position is used as given; a string that parses
/// as a number is a position; any other string is a symbolic link, looked
/// up among `devices`.
pub fn route_device_index(index: &CameraIndex, devices: &Vec<CameraInfo>) -> (r: Result<
    u32,
    NokhwaError,
>)
    ensures
        spec_route_device_index(*index, devices@, r),
{
    match index {
        CameraIndex::Index(i) => Ok(*i),
        CameraIndex::String(s) => {
            if let Some(n) = parse_u32(s.as_str()) {
                return Ok(n);
            }
            let mut k: usize = 0;
            while k < devices.len()
                invariant
                    k <= devices.len(),
                    *index == CameraIndex::String(*s),
                    spec_parse_u32(s@) is None,
                    forall|m: int| 0 <= m < k ==> (#[trigger] devices@[m]).misc@ != s@,
                decreases devices.len() - k,
            {
                if devices[k].misc == *s {
                    proof {
                        let w = first_with_symlink(devices@, s@);
                        assert(devices@[k as int].misc@ == s@);
                        let c = choose|c: int|
                            0 <= c < devices@.len() && (#[trigger] devices@[c]).misc@ == s@
                                && forall|m: int|
                                0 <= m < c ==> (#[trigger] devices@[m]).misc@ != s@;
                        assert(c == k);
                        assert(w == Some(k as int));
                    }
                    return devices[k].index.as_index();
                }
                k = k + 1;
            }
            Err(
                NokhwaError::OpenDeviceError {
                    device: s.clone(),
                    error: String::from_str("device not found"),
                },
            )
        },
    }
}


/// A string index that parses as a number `n` opens what `Index(n)` opens.
pub proof fn lemma_numeric_string_routes_like_index(
    s: String,
    n: u32,
    devices: Seq<CameraInfo>,
    r: Result<u32, NokhwaError>,
)
    requires
        spec_parse_u32(s@) == Some(n),
    ensures
        spec_route_device_index(CameraIndex::String(s), devices, r) <==> spec_route_device_index(
            CameraIndex::Index(n),
            devices,
            r,
        ),
{
}

/// The position of the device an index opens: the routed position when a
/// device is enumerated there; a position past the enumerated devices is
/// refused as not found, named by its number.
pub fn device_position(index: &CameraIndex, devices: &Vec<CameraInfo>) -> (r: Result<
    usize,
    NokhwaError,
>)
    ensures
        exists|q: Result<u32, NokhwaError>|
            #[trigger] spec_route_device_index(*index, devices@, q) && match q {
                Err(e) => r == Err::<usize, NokhwaError>(e),
                Ok(n) => if n < devices@.len() {
                    r == Ok::<usize, NokhwaError>(n as usize)
                } else {
                    r matches Err(e) && is_open_device_error(
                        e,
                        decimal(n as nat),
                        "device not found"@,
                    )
                },
            },
{
    match route_device_index(index, devices) {
        Err(e) => Err(e),
        Ok(n) => {
            if (n as usize) < devices.len() {
                Ok(n as usize)
            } else {
                Err(
                    NokhwaError::OpenDeviceError {
                        device: u32_text(n),
                        error: String::from_str("device not found"),
                    },
                )
            }
        },
    }
}

/// The capture device where Media Foundation is not available: it cannot
/// be opened, and every fallible request is refused as not implemented.
pub struct MediaFoundationCaptureDevice;

/// The refusal every request on an unavailable Media Foundation gets.
pub open spec fn is_not_on_this_platform(e: NokhwaError) -> bool {
    e matches NokhwaError::NotImplementedError(m) && m@ == "MediaFoundation only on Windows"@
}

/// The shared refusal.
pub fn not_on_this_platform() -> (e: NokhwaError)
    ensures
        is_not_on_this_platform(e),
{
    NokhwaError::NotImplementedError(String::from_str("MediaFoundation only on Windows"))
}

impl MediaFoundationCaptureDevice {
    /// Always refused where Media Foundation is unavailable.
    pub fn new(index: &CameraIndex, camera_fmt: &crate::formats::RequestedFormat) -> (r: Result<
        MediaFoundationCaptureDevice,
        NokhwaError,
    >)
        ensures
            r matches Err(e) && is_not_on_this_platform(e),
    {
        Err(not_on_this_platform())
    }

    pub fn backend(&self) -> (b: ApiBackend)
        ensures
            b == ApiBackend::MediaFoundation,
    {
        ApiBackend::MediaFoundation
    }

    pub fn controls(&self) -> (r: Result<Vec<CameraControl>, NokhwaError>)
        ensures
            r matches Err(e) && is_not_on_this_platform(e),
    {
        Err(not_on_this_platform())
    }

    pub fn set_control(&mut self, id: KnownCameraControl, value: ControlValueSetter) -> (r: Result<
        (),
        NokhwaError,
    >)
        ensures
            r matches Err(e) && is_not_on_this_platform(e),
    {
        Err(not_on_this_platform())
    }

    pub fn set_format(&mut self, f: CameraFormat) -> (r: Result<(), NokhwaError>)
        ensures
            r matches Err(e) && is_not_on_this_platform(e),
    {
        Err(not_on_this_platform())
    }

    pub fn compatible_formats(&mut self) -> (r: Result<Vec<CameraFormat>, NokhwaError>)
        ensures
            r matches Err(e) && is_not_on_this_platform(e),
    {
        Err(not_on_this_platform())
    }

    pub fn compatible_fourcc(&mut self) -> (r: Result<Vec<FrameFormat>, NokhwaError>)
        ensures
            r matches Err(e) && is_not_on_this_platform(e),
    {
        Err(not_on_this_platform())
    }

    pub fn open(&mut self) -> (r: Result<(), NokhwaError>)
        ensures
            r matches Err(e) && is_not_on_this_platform(e),
    {
        Err(not_on_this_platform())
    }

    /// No stream is ever open.
    pub fn is_open(&self) -> (r: bool)
        ensures
            !r,
    {
        false
    }

    pub fn frame(&mut self) -> (r: Result<Vec<u8>, NokhwaError>)
        ensures
            r matches Err(e) && is_not_on_this_platform(e),
    {
        Err(not_on_this_platform())
    }

    pub fn frame_raw(&mut self) -> (r: Result<Vec<u8>, NokhwaError>)
        ensures
            r matches Err(e) && is_not_on_this_platform(e),
    {
        Err(not_on_this_platform())
    }

    pub fn close(&mut self) -> (r: Result<(), NokhwaError>)
        ensures
            r matches Err(e) && is_not_on_this_platform(e),
    {
        Err(not_on_this_platform())
    }
}


/// How reading one string attribute of a device activation ended.
#[derive(Clone, Debug)]
pub enum AttributeRead {
    /// The read call failed with this message.
    Failed(String),
    /// The call succeeded but handed back no buffer.
    Null,
    /// The buffer held no valid text; the conversion's message.
    Invalid(String),
    /// The text read.
    Text(String),
}

/// The error (if any) of reading attribute `attribute`, whose text is
/// called `what` in conversion errors.
pub open spec fn attribute_error(read: AttributeRead, attribute: Seq<char>, what: Seq<char>, e: NokhwaError) -> bool {
    match read {
        AttributeRead::Failed(why) => is_get_property_error(e, attribute, why@),
        AttributeRead::Null => is_get_property_error(
            e,
            attribute,
            "Call to IMFActivate::GetAllocatedString failed - PWSTR is null"@,
        ),
        AttributeRead::Invalid(why) => is_structure_error(e, what, why@),
        AttributeRead::Text(_) => false,
    }
}

fn attribute_text(read: AttributeRead, attribute: &str, what: &str) -> (r: Result<String, NokhwaError>)
    ensures
        match read {
            AttributeRead::Text(t) => r matches Ok(s) && s@ == t@,
            _ => r matches Err(e) && attribute_error(read, attribute@, what@, e),
        },
{
    match read {
        AttributeRead::Failed(why) => Err(
            NokhwaError::GetPropertyError { property: attribute.to_string(), error: why },
        ),
        AttributeRead::Null => Err(
            NokhwaError::GetPropertyError {
                property: attribute.to_string(),
                error: String::from_str(
                    "Call to IMFActivate::GetAllocatedString failed - PWSTR is null",
                ),
            },
        ),
        AttributeRead::Invalid(why) => Err(
            NokhwaError::StructureError { structure: what.to_string(), error: why },
        ),
        AttributeRead::Text(t) => Ok(t),
    }
}

/// The descriptor of an enumerated device from its friendly name and
/// symbolic link, read in that order; the first failed read is the error.
pub fn activation_info(index: CameraIndex, name: AttributeRead, symlink: AttributeRead) -> (r: Result<
    CameraInfo,
    NokhwaError,
>)
    ensures
        match (name, symlink) {
            (AttributeRead::Text(n), AttributeRead::Text(l)) => r matches Ok(info)
                && info.human_name@ == n@ && info.description@ == "MediaFoundation Camera"@
                && info.misc@ == l@ && info.index == index,
            (AttributeRead::Text(_), _) => r matches Err(e) && attribute_error(
                symlink,
                "MF_DEVSOURCE_ATTRIBUTE_SOURCE_TYPE_VIDCAP_SYMBOLIC_LINK"@,
                "PWSTR/String - Symlink"@,
                e,
            ),
            _ => r matches Err(e) && attribute_error(
                name,
                "MF_DEVSOURCE_ATTRIBUTE_FRIENDLY_NAME"@,
                "PWSTR/String - Name"@,
                e,
            ),
        },
{
    let ghost name_read = name;
    let ghost symlink_read = symlink;
    let n = match attribute_text(name, "MF_DEVSOURCE_ATTRIBUTE_FRIENDLY_NAME", "PWSTR/String - Name") {
        Ok(n) => n,
        Err(e) => {
            return Err(e);
        },
    };
    let l = match attribute_text(
        symlink,
        "MF_DEVSOURCE_ATTRIBUTE_SOURCE_TYPE_VIDCAP_SYMBOLIC_LINK",
        "PWSTR/String - Symlink",
    ) {
        Ok(l) => l,
        Err(e) => {
            return Err(e);
        },
    };
    Ok(CameraInfo::new(n, String::from_str("MediaFoundation Camera"), l, index))
}


/// A packed `UINT64` attribute splits into its high and low 32-bit words:
/// the quotient and remainder by 2^32.
pub proof fn lemma_words_of_packed(p: u64)
    ensures
        high_word(p) == p as nat / 0x1_0000_0000,
        low_word(p) == p as nat % 0x1_0000_0000,
        high_word(p) < 0x1_0000_0000,
        high_word(p) * 0x1_0000_0000 + low_word(p) == p as nat,
{
    assert(p as nat / 0x1_0000_0000 < 0x1_0000_0000) by (nonlinear_arith)
        requires
            p as nat <= 0xFFFF_FFFF_FFFF_FFFF,
    ;
    vstd::arithmetic::div_mod::lemma_fundamental_div_mod(p as int, 0x1_0000_0000);
}

/// A frame-rate attribute that is present contributes its numerator (the
/// high word), and only when its denominator (the low word) is 1 and the
/// numerator is not zero; an absent attribute contributes nothing. With the
/// ensures of `media_type_frame_rates`, the rates of a media type are the
/// whole-fps numerators of its maximum, nominal and minimum rates, in that
/// order.
pub proof fn lemma_frame_rates_are_numerators(p: u64)
    ensures
        rate_entry(None) == Seq::<u32>::empty(),
        rate_entry(Some(p)) == if p as nat % 0x1_0000_0000 == 1 && p as nat / 0x1_0000_0000 != 0 {
            seq![(p as nat / 0x1_0000_0000) as u32]
        } else {
            Seq::<u32>::empty()
        },
{
    lemma_words_of_packed(p);
}

/// The format read back from the current media type is decoded as the
/// advertised ones are: the frame size's high word is the width and its
/// low word the height, and the frame rate is the rate's numerator.
pub proof fn lemma_refreshed_format_decoding(
    width: u32,
    height: u32,
    num: u32,
    den: u32,
    g: Guid,
    r: Result<CameraFormat, NokhwaError>,
    frame_rates: Seq<u32>,
)
    requires
        spec_guid_to_frameformat(g) is Some,
        spec_refreshed_format(Ok(packed(width, height)), Ok(packed(num, den)), Ok(g), r),
    ensures
        r == Ok::<CameraFormat, NokhwaError>(
            CameraFormat {
                resolution: Resolution { width_x: width, height_y: height },
                format: spec_guid_to_frameformat(g).unwrap(),
                frame_rate: num,
            },
        ),
{
    lemma_packed_halves(width, height);
    lemma_packed_halves(num, den);
}

/// A range control reports the readout's current value as its value and the
/// readout's default as its default, with the readout's range and step; a
/// boolean control is on exactly when its current value is nonzero.
pub proof fn lemma_readout_reports_current_value(id: MFControlId, r: ControlReadout)
    ensures
        id is ProcAmpBoolean ==> (spec_readout_description(id, r) is Boolean
            && spec_readout_description(id, r)->Boolean_value == (r.value != 0)
            && spec_readout_description(id, r)->Boolean_default == (r.default != 0)),
        !(id is ProcAmpBoolean) ==> (spec_readout_description(id, r) is IntegerRange
            && spec_readout_description(id, r)->IntegerRange_value == r.value
            && spec_readout_description(id, r)->IntegerRange_default == r.default
            && spec_readout_description(id, r)->IntegerRange_min == r.min
            && spec_readout_description(id, r)->IntegerRange_max == r.max
            && spec_readout_description(id, r)->IntegerRange_step == r.step),
{
}

/// A defined capture time is the stream's start plus the sample time in
/// nanoseconds (100 per tick); two samples of one stream lie exactly their
/// tick distance times 100 ns apart; and the time is defined whenever the
/// sample time is not negative, the stream has a start and the sum fits.
pub proof fn lemma_capture_time_in_nanoseconds(epoch: Option<u128>, t1: i64, t2: i64)
    ensures
        spec_capture_timestamp(epoch, t1) is Some ==> (epoch is Some && t1 >= 0
            && spec_capture_timestamp(epoch, t1).unwrap() == epoch.unwrap() + 100 * t1),
        (spec_capture_timestamp(epoch, t1) is Some && spec_capture_timestamp(epoch, t2) is Some)
            ==> spec_capture_timestamp(epoch, t2).unwrap() - spec_capture_timestamp(
            epoch,
            t1,
        ).unwrap() == 100 * (t2 - t1),
        (epoch is Some && t1 >= 0 && 100 * t1 <= u64::MAX && epoch.unwrap() + 100 * t1
            <= max_duration_nanos()) ==> spec_capture_timestamp(epoch, t1) == Some(
            (epoch.unwrap() + 100 * t1) as u128,
        ),
{
}

/// The formats a list of media types offers are exactly the (resolution,
/// encoding, rate) triples of one media type with one of its own rates.
pub proof fn lemma_offered_formats(p: Seq<ParsedMediaType>, c: CameraFormat)
    ensures
        media_types_offer(p, c) <==> exists|i: int, j: int|
            0 <= i < p.len() && 0 <= j < p[i].frame_rates@.len() && c.resolution
                == p[i].resolution && c.format == p[i].frame_format && c.frame_rate
                == #[trigger] p[i].frame_rates@[j],
{
    if media_types_offer(p, c) {
        let (i, j) = choose|i: int, j: int|
            0 <= i < p.len() && 0 <= j < p[i].frame_rates@.len() && #[trigger] offered_at(p, i, j)
                == c;
        assert(c.frame_rate == p[i].frame_rates@[j]);
    }
    if exists|i: int, j: int|
        0 <= i < p.len() && 0 <= j < p[i].frame_rates@.len() && c.resolution == p[i].resolution
            && c.format == p[i].frame_format && c.frame_rate == #[trigger] p[i].frame_rates@[j] {
        let (i, j) = choose|i: int, j: int|
            0 <= i < p.len() && 0 <= j < p[i].frame_rates@.len() && c.resolution
                == p[i].resolution && c.format == p[i].frame_format && c.frame_rate
                == #[trigger] p[i].frame_rates@[j];
        assert(offered_at(p, i, j) == c);
    }
}

/// Each standard video subtype decodes to its encoding (RGB24, stored
/// bottom-up in BGR order, as `RAWBGR`), and a subtype decodes to an
/// encoding only if it is one of those five.
pub proof fn lemma_subtypes_decode()
    ensures
        spec_guid_to_frameformat(spec_media_subtype(0x4750_4A4D)) == Some(FrameFormat::MJPEG),
        spec_guid_to_frameformat(spec_media_subtype(0x3259_5559)) == Some(FrameFormat::YUYV),
        spec_guid_to_frameformat(spec_media_subtype(0x3231_564E)) == Some(FrameFormat::NV12),
        spec_guid_to_frameformat(spec_media_subtype(0x3030_3859)) == Some(FrameFormat::GRAY),
        spec_guid_to_frameformat(spec_media_subtype(0x0000_0014)) == Some(FrameFormat::RAWBGR),
        forall|g: Guid|
            #[trigger] spec_guid_to_frameformat(g) is Some ==> g.data2 == 0 && g.data3 == 0x0010
                && g.data4 == 0x8000_00AA_0038_9B71,
{
}

/// A read that reports an error (bit 1) or the end of the stream (bit 2)
/// stops; otherwise a sample is delivered exactly when one came, and the
/// format is refreshed exactly when the media type changed (bit 0x20),
/// whether or not a sample came.
pub proof fn lemma_sample_step_bits(flags: u32)
    ensures
        (flags & 1 != 0 || flags & 2 != 0) ==> (spec_sample_step(flags, true) is StreamEnded
            && spec_sample_step(flags, false) is StreamEnded),
        !(flags & 1 != 0 || flags & 2 != 0) ==> (spec_sample_step(flags, true) is Deliver
            && spec_sample_step(flags, true)->Deliver_refresh_format == (flags & 0x20 != 0)
            && spec_sample_step(flags, false) is ReadAgain && spec_sample_step(
            flags,
            false,
        )->ReadAgain_refresh_format == (flags & 0x20 != 0)),
{
    assert((flags & 3 != 0) <==> (flags & 1 != 0 || flags & 2 != 0)) by (bit_vector);
}

proof fn lemma_rate_attempts_point_at(rates: Seq<u32>, fps: u32, k: int)
    ensures
        forall|j: int|
            0 <= j < rate_attempts(rates, fps, k).len() ==> (#[trigger] rate_attempts(
                rates,
                fps,
                k,
            )[j]) == k,
        rate_attempts(rates, fps, k).len() > 0 ==> rates.contains(fps),
    decreases rates.len(),
{
    if rates.len() > 0 {
        let prev = rates.drop_last();
        lemma_rate_attempts_point_at(prev, fps, k);
        let a = rate_attempts(prev, fps, k);
        let all = rate_attempts(rates, fps, k);
        let tail: Seq<int> = if rates.last() == fps {
            seq![k]
        } else {
            Seq::empty()
        };
        assert(all == a + tail);
        assert forall|j: int| 0 <= j < all.len() implies (#[trigger] all[j]) == k by {
            if j < a.len() {
                assert(all[j] == a[j]);
            } else {
                assert(all[j] == tail[j - a.len()]);
            }
        }
        if all.len() > 0 {
            if rates.last() == fps {
                assert(rates[rates.len() - 1] == fps);
            } else {
                let m = choose|m: int| 0 <= m < prev.len() && prev[m] == fps;
                assert(rates[m] == fps);
            }
        }
    }
}

/// Every media type a format switch tries has the requested encoding and
/// resolution and offers the requested frame rate.
pub proof fn lemma_attempts_match_request(p: Seq<ParsedMediaType>, f: CameraFormat)
    ensures
        forall|j: int|
            0 <= j < format_attempts(p, f).len() ==> {
                let i = #[trigger] format_attempts(p, f)[j];
                &&& 0 <= i < p.len()
                &&& p[i].frame_format == f.format
                &&& p[i].resolution == f.resolution
                &&& p[i].frame_rates@.contains(f.frame_rate)
            },
    decreases p.len(),
{
    if p.len() > 0 {
        let prev = p.drop_last();
        let k = p.len() - 1;
        lemma_attempts_match_request(prev, f);
        lemma_rate_attempts_point_at(p[k].frame_rates@, f.frame_rate, k);
        let a = format_attempts(prev, f);
        let all = format_attempts(p, f);
        assert forall|j: int| 0 <= j < all.len() implies {
            let i = #[trigger] all[j];
            &&& 0 <= i < p.len()
            &&& p[i].frame_format == f.format
            &&& p[i].resolution == f.resolution
            &&& p[i].frame_rates@.contains(f.frame_rate)
        } by {
            if j < a.len() {
                assert(all[j] == a[j]);
                assert(p[a[j]] == prev[a[j]]);
            } else {
                let t = rate_attempts(p[k].frame_rates@, f.frame_rate, k);
                assert(all[j] == t[j - a.len()]);
                assert(t.len() > 0);
            }
        }
    }
}
} // verus!
