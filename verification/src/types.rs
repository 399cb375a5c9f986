//! Plain-value model of the camera vocabulary shared by every backend:
//! pixel formats, resolutions, negotiated formats, controls, device
//! descriptors and the error type.
use vstd::prelude::*;

use crate::text::{
    bytes_hex_list, decimal, hex_list, i128_text, i64_text, parse_u32, signed_decimal, spec_parse_u32,
    u128_text, u32_text, u64_text,
};

verus! {

/// Capture API a device or an error belongs to.
#[derive(Clone, Copy, Debug, PartialEq, Eq, Structural)]
pub enum ApiBackend {
    Auto,
    AVFoundation,
    Video4Linux,
    MediaFoundation,
    GStreamer,
}

/// Pixel / frame encodings understood by the backends, in their canonical
/// order (`MJPEG` first, `RAWBGR` last).
#[derive(Clone, Copy, Debug, PartialEq, Eq, Structural, PartialOrd, Ord, Hash)]
pub enum FrameFormat {
    MJPEG,
    YUYV,
    NV12,
    GRAY,
    RAWRGB,
    RAWBGR,
}

/// Position of a frame format in the canonical order.
pub open spec fn frame_format_rank(f: FrameFormat) -> nat {
    match f {
        FrameFormat::MJPEG => 0,
        FrameFormat::YUYV => 1,
        FrameFormat::NV12 => 2,
        FrameFormat::GRAY => 3,
        FrameFormat::RAWRGB => 4,
        FrameFormat::RAWBGR => 5,
    }
}

impl FrameFormat {
    /// Position of this format in the canonical order.
    pub fn rank(&self) -> (r: u8)
        ensures
            r == frame_format_rank(*self),
    {
        match self {
            FrameFormat::MJPEG => 0,
            FrameFormat::YUYV => 1,
            FrameFormat::NV12 => 2,
            FrameFormat::GRAY => 3,
            FrameFormat::RAWRGB => 4,
            FrameFormat::RAWBGR => 5,
        }
    }
}

/// Two distinct frame formats have distinct ranks.
pub proof fn lemma_frame_format_rank_injective(a: FrameFormat, b: FrameFormat)
    ensures
        frame_format_rank(a) == frame_format_rank(b) <==> a == b,
{
}

/// Width x height of a frame, in pixels.
#[derive(Clone, Copy, Debug, PartialEq, Eq, Structural)]
pub struct Resolution {
    pub width_x: u32,
    pub height_y: u32,
}

impl Resolution {
    pub fn new(width_x: u32, height_y: u32) -> (r: Resolution)
        ensures
            r.width_x == width_x,
            r.height_y == height_y,
    {
        Resolution { width_x, height_y }
    }
}

/// A concrete (resolution, encoding, frames-per-second) stream mode.
#[derive(Clone, Copy, Debug, PartialEq, Eq, Structural)]
pub struct CameraFormat {
    pub resolution: Resolution,
    pub format: FrameFormat,
    pub frame_rate: u32,
}

impl CameraFormat {
    pub fn new(resolution: Resolution, format: FrameFormat, frame_rate: u32) -> (c: CameraFormat)
        ensures
            c.resolution == resolution,
            c.format == format,
            c.frame_rate == frame_rate,
    {
        CameraFormat { resolution, format, frame_rate }
    }

    /// The format a device reports before anything was negotiated:
    /// 640x480 MJPEG at 30 frames per second.
    pub fn default_format() -> (c: CameraFormat)
        ensures
            c == spec_default_camera_format(),
    {
        CameraFormat {
            resolution: Resolution { width_x: 640, height_y: 480 },
            format: FrameFormat::MJPEG,
            frame_rate: 30,
        }
    }
}

pub open spec fn spec_default_camera_format() -> CameraFormat {
    CameraFormat {
        resolution: Resolution { width_x: 640, height_y: 480 },
        format: FrameFormat::MJPEG,
        frame_rate: 30,
    }
}

/// Total order on camera formats: width, then height, then encoding rank,
/// then frame rate. `a` comes strictly before `b`.
pub open spec fn camera_format_lt(a: CameraFormat, b: CameraFormat) -> bool {
    ||| a.resolution.width_x < b.resolution.width_x
    ||| (a.resolution.width_x == b.resolution.width_x && a.resolution.height_y
        < b.resolution.height_y)
    ||| (a.resolution == b.resolution && frame_format_rank(a.format) < frame_format_rank(
        b.format,
    ))
    ||| (a.resolution == b.resolution && a.format == b.format && a.frame_rate < b.frame_rate)
}

/// Well-known camera controls, plus `Other` for a backend-specific id.
#[derive(Clone, Copy, Debug, PartialEq, Eq, Structural)]
pub enum KnownCameraControl {
    Brightness,
    Contrast,
    Hue,
    Saturation,
    Sharpness,
    Gamma,
    WhiteBalance,
    BacklightComp,
    Gain,
    Pan,
    Tilt,
    Zoom,
    Exposure,
    Iris,
    Focus,
    Other(u128),
}

/// Number of standard (non-`Other`) controls.
pub const STANDARD_CONTROL_COUNT: usize = 15;

/// Canonical index of a standard control; `None` for `Other`.
pub open spec fn spec_control_index(c: KnownCameraControl) -> Option<nat> {
    match c {
        KnownCameraControl::Brightness => Some(0),
        KnownCameraControl::Contrast => Some(1),
        KnownCameraControl::Hue => Some(2),
        KnownCameraControl::Saturation => Some(3),
        KnownCameraControl::Sharpness => Some(4),
        KnownCameraControl::Gamma => Some(5),
        KnownCameraControl::WhiteBalance => Some(6),
        KnownCameraControl::BacklightComp => Some(7),
        KnownCameraControl::Gain => Some(8),
        KnownCameraControl::Pan => Some(9),
        KnownCameraControl::Tilt => Some(10),
        KnownCameraControl::Zoom => Some(11),
        KnownCameraControl::Exposure => Some(12),
        KnownCameraControl::Iris => Some(13),
        KnownCameraControl::Focus => Some(14),
        KnownCameraControl::Other(_) => None,
    }
}

/// The standard control at a canonical index, if the index is in range.
pub open spec fn spec_control_from_index(i: nat) -> Option<KnownCameraControl> {
    if i == 0 {
        Some(KnownCameraControl::Brightness)
    } else if i == 1 {
        Some(KnownCameraControl::Contrast)
    } else if i == 2 {
        Some(KnownCameraControl::Hue)
    } else if i == 3 {
        Some(KnownCameraControl::Saturation)
    } else if i == 4 {
        Some(KnownCameraControl::Sharpness)
    } else if i == 5 {
        Some(KnownCameraControl::Gamma)
    } else if i == 6 {
        Some(KnownCameraControl::WhiteBalance)
    } else if i == 7 {
        Some(KnownCameraControl::BacklightComp)
    } else if i == 8 {
        Some(KnownCameraControl::Gain)
    } else if i == 9 {
        Some(KnownCameraControl::Pan)
    } else if i == 10 {
        Some(KnownCameraControl::Tilt)
    } else if i == 11 {
        Some(KnownCameraControl::Zoom)
    } else if i == 12 {
        Some(KnownCameraControl::Exposure)
    } else if i == 13 {
        Some(KnownCameraControl::Iris)
    } else if i == 14 {
        Some(KnownCameraControl::Focus)
    } else {
        None
    }
}

impl KnownCameraControl {
    /// Canonical index of a standard control; `None` for `Other`.
    pub fn as_index(&self) -> (r: Option<u8>)
        ensures
            r matches Some(i) ==> spec_control_index(*self) == Some(i as nat),
            r is None ==> spec_control_index(*self) is None,
    {
        match self {
            KnownCameraControl::Brightness => Some(0),
            KnownCameraControl::Contrast => Some(1),
            KnownCameraControl::Hue => Some(2),
            KnownCameraControl::Saturation => Some(3),
            KnownCameraControl::Sharpness => Some(4),
            KnownCameraControl::Gamma => Some(5),
            KnownCameraControl::WhiteBalance => Some(6),
            KnownCameraControl::BacklightComp => Some(7),
            KnownCameraControl::Gain => Some(8),
            KnownCameraControl::Pan => Some(9),
            KnownCameraControl::Tilt => Some(10),
            KnownCameraControl::Zoom => Some(11),
            KnownCameraControl::Exposure => Some(12),
            KnownCameraControl::Iris => Some(13),
            KnownCameraControl::Focus => Some(14),
            KnownCameraControl::Other(_) => None,
        }
    }

    /// The standard control at a canonical index.
    pub fn from_index(i: u8) -> (r: Option<KnownCameraControl>)
        ensures
            r == spec_control_from_index(i as nat),
    {
        match i {
            0 => Some(KnownCameraControl::Brightness),
            1 => Some(KnownCameraControl::Contrast),
            2 => Some(KnownCameraControl::Hue),
            3 => Some(KnownCameraControl::Saturation),
            4 => Some(KnownCameraControl::Sharpness),
            5 => Some(KnownCameraControl::Gamma),
            6 => Some(KnownCameraControl::WhiteBalance),
            7 => Some(KnownCameraControl::BacklightComp),
            8 => Some(KnownCameraControl::Gain),
            9 => Some(KnownCameraControl::Pan),
            10 => Some(KnownCameraControl::Tilt),
            11 => Some(KnownCameraControl::Zoom),
            12 => Some(KnownCameraControl::Exposure),
            13 => Some(KnownCameraControl::Iris),
            14 => Some(KnownCameraControl::Focus),
            _ => None,
        }
    }
}

/// `from_index` undoes `as_index`, and every index below the standard count
/// names a control whose index it is.
pub proof fn lemma_control_index_round_trip(c: KnownCameraControl, i: nat)
    ensures
        spec_control_index(c) matches Some(k) ==> spec_control_from_index(k) == Some(c),
        i < STANDARD_CONTROL_COUNT ==> (spec_control_from_index(i) matches Some(d)
            && spec_control_index(d) == Some(i)),
        i >= STANDARD_CONTROL_COUNT ==> spec_control_from_index(i) is None,
{
}

/// Display name of a control: its variant name, or `Other(<id>)`.
pub open spec fn spec_control_name(c: KnownCameraControl) -> Seq<char> {
    match c {
        KnownCameraControl::Brightness => "Brightness"@,
        KnownCameraControl::Contrast => "Contrast"@,
        KnownCameraControl::Hue => "Hue"@,
        KnownCameraControl::Saturation => "Saturation"@,
        KnownCameraControl::Sharpness => "Sharpness"@,
        KnownCameraControl::Gamma => "Gamma"@,
        KnownCameraControl::WhiteBalance => "WhiteBalance"@,
        KnownCameraControl::BacklightComp => "BacklightComp"@,
        KnownCameraControl::Gain => "Gain"@,
        KnownCameraControl::Pan => "Pan"@,
        KnownCameraControl::Tilt => "Tilt"@,
        KnownCameraControl::Zoom => "Zoom"@,
        KnownCameraControl::Exposure => "Exposure"@,
        KnownCameraControl::Iris => "Iris"@,
        KnownCameraControl::Focus => "Focus"@,
        KnownCameraControl::Other(id) => "Other("@ + decimal(id as nat) + ")"@,
    }
}

impl KnownCameraControl {
    /// Display name of the control.
    pub fn name(&self) -> (s: String)
        ensures
            s@ == spec_control_name(*self),
    {
        match self {
            KnownCameraControl::Brightness => String::from_str("Brightness"),
            KnownCameraControl::Contrast => String::from_str("Contrast"),
            KnownCameraControl::Hue => String::from_str("Hue"),
            KnownCameraControl::Saturation => String::from_str("Saturation"),
            KnownCameraControl::Sharpness => String::from_str("Sharpness"),
            KnownCameraControl::Gamma => String::from_str("Gamma"),
            KnownCameraControl::WhiteBalance => String::from_str("WhiteBalance"),
            KnownCameraControl::BacklightComp => String::from_str("BacklightComp"),
            KnownCameraControl::Gain => String::from_str("Gain"),
            KnownCameraControl::Pan => String::from_str("Pan"),
            KnownCameraControl::Tilt => String::from_str("Tilt"),
            KnownCameraControl::Zoom => String::from_str("Zoom"),
            KnownCameraControl::Exposure => String::from_str("Exposure"),
            KnownCameraControl::Iris => String::from_str("Iris"),
            KnownCameraControl::Focus => String::from_str("Focus"),
            KnownCameraControl::Other(id) => {
                let mut s = String::from_str("Other(");
                let digits = u128_text(*id);
                s.append(digits.as_str());
                s.append(")");
                s
            },
        }
    }
}

/// How a control behaves, as reported by the backend.
#[derive(Clone, Copy, Debug, PartialEq, Eq, Structural)]
pub enum KnownCameraControlFlag {
    Automatic,
    Manual,
    Continuous,
    ReadOnly,
    WriteOnly,
    Volatile,
    Disabled,
}

/// A value a caller asks a control to take. Floating-point payloads are
/// carried as their IEEE-754 bit patterns.
#[derive(Clone, Debug)]
pub enum ControlValueSetter {
    NoValue,
    Integer(i64),
    Float(u64),
    Boolean(bool),
    String(String),
    Bytes(Vec<u8>),
    KeyValue(i128, i128),
    Point(u64, u64),
    EnumValue(i64),
    RGB(u64, u64, u64),
}

pub open spec fn bool_text(b: bool) -> Seq<char> {
    if b {
        "true"@
    } else {
        "false"@
    }
}

/// Human-readable rendering of a setter, as carried in error values.
/// Floating-point payloads are shown by their bit patterns.
pub open spec fn spec_setter_text(v: ControlValueSetter) -> Seq<char> {
    match v {
        ControlValueSetter::NoValue => "Value: None"@,
        ControlValueSetter::Integer(i) => "IntegerValue: "@ + signed_decimal(i as int),
        ControlValueSetter::Float(f) => "FloatValue(bits): "@ + decimal(f as nat),
        ControlValueSetter::Boolean(b) => "BoolValue: "@ + bool_text(b),
        ControlValueSetter::String(s) => "StrValue: "@ + s@,
        ControlValueSetter::Bytes(b) => "BytesValue: "@ + hex_list(b@),
        ControlValueSetter::KeyValue(k, x) => "KVValue: ("@ + signed_decimal(k as int) + ", "@
            + signed_decimal(x as int) + ")"@,
        ControlValueSetter::Point(x, y) => "PointValue(bits): ("@ + decimal(x as nat) + ", "@
            + decimal(y as nat) + ")"@,
        ControlValueSetter::EnumValue(e) => "EnumValue: "@ + signed_decimal(e as int),
        ControlValueSetter::RGB(r, g, b) => "RGBValue(bits): ("@ + decimal(r as nat) + ", "@
            + decimal(g as nat) + ", "@ + decimal(b as nat) + ")"@,
    }
}

impl ControlValueSetter {
    /// Human-readable rendering of the setter.
    pub fn text(&self) -> (s: String)
        ensures
            s@ == spec_setter_text(*self),
    {
        match self {
            ControlValueSetter::NoValue => String::from_str("Value: None"),
            ControlValueSetter::Integer(i) => {
                String::from_str("IntegerValue: ").concat(i64_text(*i).as_str())
            },
            ControlValueSetter::Float(f) => {
                String::from_str("FloatValue(bits): ").concat(u64_text(*f).as_str())
            },
            ControlValueSetter::Boolean(b) => {
                if *b {
                    String::from_str("BoolValue: ").concat("true")
                } else {
                    String::from_str("BoolValue: ").concat("false")
                }
            },
            ControlValueSetter::String(s) => String::from_str("StrValue: ").concat(s.as_str()),
            ControlValueSetter::Bytes(b) => {
                String::from_str("BytesValue: ").concat(bytes_hex_list(b).as_str())
            },
            ControlValueSetter::KeyValue(k, x) => {
                let s = String::from_str("KVValue: (").concat(i128_text(*k).as_str());
                s.concat(", ").concat(i128_text(*x).as_str()).concat(")")
            },
            ControlValueSetter::Point(x, y) => {
                let s = String::from_str("PointValue(bits): (").concat(u64_text(*x).as_str());
                s.concat(", ").concat(u64_text(*y).as_str()).concat(")")
            },
            ControlValueSetter::EnumValue(e) => {
                String::from_str("EnumValue: ").concat(i64_text(*e).as_str())
            },
            ControlValueSetter::RGB(r, g, b) => {
                let s = String::from_str("RGBValue(bits): (").concat(u64_text(*r).as_str());
                let s = s.concat(", ").concat(u64_text(*g).as_str());
                s.concat(", ").concat(u64_text(*b).as_str()).concat(")")
            },
        }
    }
}

/// The current value and legal range of a control. Floating-point payloads
/// are carried as their IEEE-754 bit patterns.
#[derive(Clone, Debug)]
pub enum ControlValueDescription {
    IntegerRange { min: i64, max: i64, value: i64, step: i64, default: i64 },
    Boolean { value: bool, default: bool },
    String { value: String, default: Option<String> },
    Enum { value: i64, possible: Vec<i64>, default: i64 },
    Float { value: u64, default: u64, step: u64 },
    FloatRange { min: u64, max: u64, value: u64, step: u64, default: u64 },
    Point { x: u64, y: u64, default_x: u64, default_y: u64 },
    RGB {
        red: u64,
        green: u64,
        blue: u64,
        max_red: u64,
        max_green: u64,
        max_blue: u64,
        default_red: u64,
        default_green: u64,
        default_blue: u64,
    },
}

/// A control as enumerated from a device.
#[derive(Clone, Debug)]
pub struct CameraControl {
    pub control: KnownCameraControl,
    pub name: String,
    pub description: ControlValueDescription,
    pub flag: Vec<KnownCameraControlFlag>,
    pub active: bool,
}

/// How a caller designates a device: by position or by a backend string.
#[derive(Clone, Debug)]
pub enum CameraIndex {
    Index(u32),
    String(String),
}

/// What `CameraIndex::as_index` yields: the position itself, or the number
/// a string index spells; any other string is refused.
pub open spec fn spec_as_index_result(index: CameraIndex, r: Result<u32, NokhwaError>) -> bool {
    match index {
        CameraIndex::Index(i) => r == Ok::<u32, NokhwaError>(i),
        CameraIndex::String(s) => match spec_parse_u32(s@) {
            Some(n) => r == Ok::<u32, NokhwaError>(n),
            None => r matches Err(e) && is_general_error(
                e,
                "CameraIndex is not a number: "@ + s@,
                None,
            ),
        },
    }
}

impl CameraIndex {
    /// The position this index designates.
    pub fn as_index(&self) -> (r: Result<u32, NokhwaError>)
        ensures
            spec_as_index_result(*self, r),
    {
        match self {
            CameraIndex::Index(i) => Ok(*i),
            CameraIndex::String(s) => match parse_u32(s.as_str()) {
                Some(n) => Ok(n),
                None => Err(
                    NokhwaError::GeneralError {
                        message: String::from_str("CameraIndex is not a number: ").concat(
                            s.as_str(),
                        ),
                        backend: None,
                    },
                ),
            },
        }
    }

    /// Text of the index: the number, or the string itself.
    pub fn text(&self) -> (r: String)
        ensures
            r@ == spec_index_text(*self),
    {
        match self {
            CameraIndex::Index(i) => u32_text(*i),
            CameraIndex::String(s) => s.clone(),
        }
    }

    /// A copy of this index.
    pub fn duplicate(&self) -> (r: CameraIndex)
        ensures
            r == *self,
    {
        match self {
            CameraIndex::Index(i) => CameraIndex::Index(*i),
            CameraIndex::String(s) => CameraIndex::String(s.clone()),
        }
    }
}

pub open spec fn spec_index_text(index: CameraIndex) -> Seq<char> {
    match index {
        CameraIndex::Index(i) => decimal(i as nat),
        CameraIndex::String(s) => s@,
    }
}

/// Descriptor of an enumerated device.
#[derive(Clone, Debug)]
pub struct CameraInfo {
    pub human_name: String,
    pub description: String,
    pub misc: String,
    pub index: CameraIndex,
}

impl CameraInfo {
    pub fn new(human_name: String, description: String, misc: String, index: CameraIndex) -> (r:
        CameraInfo)
        ensures
            r == (CameraInfo { human_name, description, misc, index }),
    {
        CameraInfo { human_name, description, misc, index }
    }

    /// A copy of this descriptor.
    pub fn duplicate(&self) -> (r: CameraInfo)
        ensures
            r == *self,
    {
        CameraInfo {
            human_name: self.human_name.clone(),
            description: self.description.clone(),
            misc: self.misc.clone(),
            index: self.index.duplicate(),
        }
    }
}

/// Errors reported by the backends.
#[allow(inconsistent_fields)]
#[derive(Clone, Debug)]
pub enum NokhwaError {
    GeneralError { message: String, backend: Option<ApiBackend> },
    StructureError { structure: String, error: String },
    OpenDeviceError { device: String, error: String },
    GetPropertyError { property: String, error: String },
    SetPropertyError { property: String, value: String, error: String },
    OpenStreamError { message: String, backend: Option<ApiBackend> },
    ReadFrameError { message: String, format: Option<FrameFormat> },
    NotImplementedError(String),
    UnsupportedOperationError(ApiBackend),
    InitializeError { backend: ApiBackend, error: String },
    ShutdownError { backend: ApiBackend, error: String },
}

/// `e` is a `SetPropertyError` carrying exactly these texts.
pub open spec fn is_set_property_error(
    e: NokhwaError,
    property: Seq<char>,
    value: Seq<char>,
    error: Seq<char>,
) -> bool {
    e matches NokhwaError::SetPropertyError { property: p, value: v, error: x } && p@ == property
        && v@ == value && x@ == error
}

/// `e` is a `GetPropertyError` carrying exactly these texts.
pub open spec fn is_get_property_error(e: NokhwaError, property: Seq<char>, error: Seq<char>) -> bool {
    e matches NokhwaError::GetPropertyError { property: p, error: x } && p@ == property && x@ == error
}

/// `e` is a `StructureError` carrying exactly these texts.
pub open spec fn is_structure_error(e: NokhwaError, structure: Seq<char>, error: Seq<char>) -> bool {
    e matches NokhwaError::StructureError { structure: s, error: x } && s@ == structure && x@
        == error
}

/// `e` is an `OpenDeviceError` carrying exactly these texts.
pub open spec fn is_open_device_error(e: NokhwaError, device: Seq<char>, error: Seq<char>) -> bool {
    e matches NokhwaError::OpenDeviceError { device: d, error: x } && d@ == device && x@ == error
}

/// `e` is an `OpenStreamError` with this message and backend tag.
pub open spec fn is_open_stream_error(
    e: NokhwaError,
    message: Seq<char>,
    backend: Option<ApiBackend>,
) -> bool {
    e matches NokhwaError::OpenStreamError { message: m, backend: b } && m@ == message && b
        == backend
}

/// `e` is a `ReadFrameError` with this message and format tag.
pub open spec fn is_read_frame_error(
    e: NokhwaError,
    message: Seq<char>,
    format: Option<FrameFormat>,
) -> bool {
    e matches NokhwaError::ReadFrameError { message: m, format: f } && m@ == message && f == format
}

/// `e` is a `NotImplementedError` with this payload.
pub open spec fn is_not_implemented_error(e: NokhwaError, message: Seq<char>) -> bool {
    e matches NokhwaError::NotImplementedError(m) && m@ == message
}

/// `e` is a `GeneralError` with this message and backend tag.
pub open spec fn is_general_error(
    e: NokhwaError,
    message: Seq<char>,
    backend: Option<ApiBackend>,
) -> bool {
    e matches NokhwaError::GeneralError { message: m, backend: b } && m@ == message && b == backend
}

/// `e` is an `InitializeError` of this backend with this text.
pub open spec fn is_initialize_error(e: NokhwaError, backend: ApiBackend, error: Seq<char>) -> bool {
    e matches NokhwaError::InitializeError { backend: b, error: x } && b == backend && x@ == error
}

/// Position `i` holds the first control of `s` that is `control`.
pub open spec fn first_control_at(s: Seq<CameraControl>, control: KnownCameraControl, i: int) -> bool {
    &&& 0 <= i < s.len()
    &&& s[i].control == control
    &&& forall|j: int| 0 <= j < i ==> (#[trigger] s[j]).control != control
}

/// The first control of `controls` that is `control`, or a property error
/// naming the control, with message `missing`, when there is none.
pub fn find_control(controls: Vec<CameraControl>, control: KnownCameraControl, missing: &str) -> (r: Result<
    CameraControl,
    NokhwaError,
>)
    ensures
        match r {
            Ok(c) => exists|i: int| #[trigger] first_control_at(controls@, control, i) && controls@[i] == c,
            Err(e) => (forall|i: int| 0 <= i < controls@.len() ==> (#[trigger] controls@[i]).control
                != control) && is_get_property_error(
                e,
                spec_control_name(control),
                missing@,
            ),
        },
{
    let ghost all = controls@;
    let mut i: usize = 0;
    while i < controls.len()
        invariant
            controls@ == all,
            i <= all.len(),
            forall|j: int| 0 <= j < i ==> (#[trigger] all[j]).control != control,
        decreases all.len() - i,
    {
        if controls[i].control == control {
            let mut rest = controls;
            let c = rest.remove(i);
            proof {
                let ii = i as int;
                assert(all[ii] == c);
                assert(first_control_at(all, control, ii));
            }
            return Ok(c);
        }
        i = i + 1;
    }
    Err(
        NokhwaError::GetPropertyError {
            property: control.name(),
            error: missing.to_string(),
        },
    )
}


/// The setter that reproduces a description's current value: an integer
/// range gives its integer, a menu its entry, the floating-point kinds
/// their value (a range its value), a point its coordinates, a colour its
/// components, booleans and strings themselves.
pub open spec fn spec_description_value(d: ControlValueDescription) -> ControlValueSetter {
    match d {
        ControlValueDescription::IntegerRange { value, .. } => ControlValueSetter::Integer(value),
        ControlValueDescription::Boolean { value, .. } => ControlValueSetter::Boolean(value),
        ControlValueDescription::String { value, .. } => ControlValueSetter::String(value),
        ControlValueDescription::Enum { value, .. } => ControlValueSetter::EnumValue(value),
        ControlValueDescription::Float { value, .. } => ControlValueSetter::Float(value),
        ControlValueDescription::FloatRange { value, .. } => ControlValueSetter::Float(value),
        ControlValueDescription::Point { x, y, .. } => ControlValueSetter::Point(x, y),
        ControlValueDescription::RGB { red, green, blue, .. } => ControlValueSetter::RGB(
            red,
            green,
            blue,
        ),
    }
}

/// Two setters carry the same value (strings and byte arrays by content).
pub open spec fn setter_eq(a: ControlValueSetter, b: ControlValueSetter) -> bool {
    match (a, b) {
        (ControlValueSetter::String(x), ControlValueSetter::String(y)) => x@ == y@,
        (ControlValueSetter::Bytes(x), ControlValueSetter::Bytes(y)) => x@ == y@,
        (ControlValueSetter::String(_), _) => false,
        (_, ControlValueSetter::String(_)) => false,
        (ControlValueSetter::Bytes(_), _) => false,
        (_, ControlValueSetter::Bytes(_)) => false,
        _ => a == b,
    }
}

fn bytes_equal(a: &Vec<u8>, b: &Vec<u8>) -> (r: bool)
    ensures
        r == (a@ == b@),
{
    if a.len() != b.len() {
        return false;
    }
    let mut i: usize = 0;
    while i < a.len()
        invariant
            i <= a@.len(),
            a@.len() == b@.len(),
            forall|k: int| 0 <= k < i ==> a@[k] == b@[k],
        decreases a@.len() - i,
    {
        if a[i] != b[i] {
            return false;
        }
        i = i + 1;
    }
    assert(a@ =~= b@);
    true
}

/// Whether two setters carry the same value.
pub fn setters_equal(a: &ControlValueSetter, b: &ControlValueSetter) -> (r: bool)
    ensures
        r == setter_eq(*a, *b),
{
    match (a, b) {
        (ControlValueSetter::String(x), ControlValueSetter::String(y)) => crate::text::str_equal(
            x.as_str(),
            y.as_str(),
        ),
        (ControlValueSetter::Bytes(x), ControlValueSetter::Bytes(y)) => bytes_equal(x, y),
        (ControlValueSetter::NoValue, ControlValueSetter::NoValue) => true,
        (ControlValueSetter::Integer(x), ControlValueSetter::Integer(y)) => *x == *y,
        (ControlValueSetter::Float(x), ControlValueSetter::Float(y)) => *x == *y,
        (ControlValueSetter::Boolean(x), ControlValueSetter::Boolean(y)) => *x == *y,
        (ControlValueSetter::KeyValue(x1, x2), ControlValueSetter::KeyValue(y1, y2)) => *x1 == *y1
            && *x2 == *y2,
        (ControlValueSetter::Point(x1, x2), ControlValueSetter::Point(y1, y2)) => *x1 == *y1 && *x2
            == *y2,
        (ControlValueSetter::EnumValue(x), ControlValueSetter::EnumValue(y)) => *x == *y,
        (ControlValueSetter::RGB(x1, x2, x3), ControlValueSetter::RGB(y1, y2, y3)) => *x1 == *y1
            && *x2 == *y2 && *x3 == *y3,
        _ => false,
    }
}

impl CameraControl {
    /// The control's current value as a setter.
    pub fn value(&self) -> (r: ControlValueSetter)
        ensures
            setter_eq(r, spec_description_value(self.description)),
    {
        match &self.description {
            ControlValueDescription::IntegerRange { value, .. } => ControlValueSetter::Integer(*value),
            ControlValueDescription::Boolean { value, .. } => ControlValueSetter::Boolean(*value),
            ControlValueDescription::String { value, .. } => ControlValueSetter::String(value.clone()),
            ControlValueDescription::Enum { value, .. } => ControlValueSetter::EnumValue(*value),
            ControlValueDescription::Float { value, .. } => ControlValueSetter::Float(*value),
            ControlValueDescription::FloatRange { value, .. } => ControlValueSetter::Float(*value),
            ControlValueDescription::Point { x, y, .. } => ControlValueSetter::Point(*x, *y),
            ControlValueDescription::RGB { red, green, blue, .. } => ControlValueSetter::RGB(
                *red,
                *green,
                *blue,
            ),
        }
    }
}


/// The `f64` with bit pattern `bits` is a NaN: all exponent bits set and a
/// non-zero fraction.
pub open spec fn f64_bits_nan(bits: u64) -> bool {
    (bits / 0x10_0000_0000_0000) % 0x800 == 0x7FF && bits % 0x10_0000_0000_0000 != 0
}

/// The position of a non-NaN `f64` in the numeric order: its magnitude bits,
/// negated when the sign bit is set (so both zeros sit at 0).
pub open spec fn f64_bits_key(bits: u64) -> int {
    if bits >= 0x8000_0000_0000_0000 {
        -((bits - 0x8000_0000_0000_0000) as int)
    } else {
        bits as int
    }
}

/// `a <= b` for the `f64` values with these bit patterns.
pub open spec fn f64_bits_le(a: u64, b: u64) -> bool {
    !f64_bits_nan(a) && !f64_bits_nan(b) && f64_bits_key(a) <= f64_bits_key(b)
}

fn f64_bits_is_nan(bits: u64) -> (r: bool)
    ensures
        r == f64_bits_nan(bits),
{
    (bits / 0x10_0000_0000_0000) % 0x800 == 0x7FF && bits % 0x10_0000_0000_0000 != 0
}

fn f64_bits_key_of(bits: u64) -> (k: i128)
    ensures
        k == f64_bits_key(bits),
{
    if bits >= 0x8000_0000_0000_0000 {
        -((bits - 0x8000_0000_0000_0000) as i128)
    } else {
        bits as i128
    }
}

/// `a <= b` as `f64` values given by their bit patterns.
fn f64_bits_at_most(a: u64, b: u64) -> (r: bool)
    ensures
        r == f64_bits_le(a, b),
{
    !f64_bits_is_nan(a) && !f64_bits_is_nan(b) && f64_bits_key_of(a) <= f64_bits_key_of(b)
}

/// Whether a control described by `desc` accepts `value`. The value must be
/// of the description's kind; an integer must lie in the range and, for a
/// positive step, on the grid from the minimum; an enum value must be one
/// of the possible ones; a floating-point value must lie in its range (the
/// step of a floating-point range is not checked) and no floating-point
/// component may be NaN; colour gains may not exceed their maxima.
pub open spec fn value_accepted(desc: ControlValueDescription, value: ControlValueSetter) -> bool {
    match desc {
        ControlValueDescription::IntegerRange { min, max, step, .. } => match value {
            ControlValueSetter::Integer(i) => min <= i <= max && (step > 0 ==> (i - min) % (
            step as int) == 0),
            _ => false,
        },
        ControlValueDescription::Boolean { .. } => value is Boolean,
        ControlValueDescription::String { .. } => value is String,
        ControlValueDescription::Enum { possible, .. } => match value {
            ControlValueSetter::EnumValue(e) => possible@.contains(e),
            _ => false,
        },
        ControlValueDescription::Float { .. } => match value {
            ControlValueSetter::Float(f) => !f64_bits_nan(f),
            _ => false,
        },
        ControlValueDescription::FloatRange { min, max, .. } => match value {
            ControlValueSetter::Float(f) => f64_bits_le(min, f) && f64_bits_le(f, max),
            _ => false,
        },
        ControlValueDescription::Point { .. } => match value {
            ControlValueSetter::Point(x, y) => !f64_bits_nan(x) && !f64_bits_nan(y),
            _ => false,
        },
        ControlValueDescription::RGB { max_red, max_green, max_blue, .. } => match value {
            ControlValueSetter::RGB(r, g, b) => f64_bits_le(r, max_red) && f64_bits_le(
                g,
                max_green,
            ) && f64_bits_le(b, max_blue),
            _ => false,
        },
    }
}

impl ControlValueDescription {
    /// Whether a control with this description accepts `value`.
    pub fn verify_setter(&self, value: &ControlValueSetter) -> (r: bool)
        ensures
            r == value_accepted(*self, *value),
    {
        match self {
            ControlValueDescription::IntegerRange { min, max, step, .. } => match value {
                ControlValueSetter::Integer(i) => {
                    if *i < *min || *i > *max {
                        false
                    } else if *step > 0 {
                        let d: u128 = (*i as i128 - *min as i128) as u128;
                        d % (*step as u128) == 0
                    } else {
                        true
                    }
                },
                _ => false,
            },
            ControlValueDescription::Boolean { .. } => match value {
                ControlValueSetter::Boolean(_) => true,
                _ => false,
            },
            ControlValueDescription::String { .. } => match value {
                ControlValueSetter::String(_) => true,
                _ => false,
            },
            ControlValueDescription::Enum { possible, .. } => match value {
                ControlValueSetter::EnumValue(e) => {
                    let mut i: usize = 0;
                    while i < possible.len()
                        invariant
                            i <= possible@.len(),
                            value_accepted(*self, *value) <==> possible@.contains(*e),
                            forall|k: int| 0 <= k < i ==> possible@[k] != *e,
                        decreases possible@.len() - i,
                    {
                        if possible[i] == *e {
                            assert(possible@[i as int] == *e);
                            return true;
                        }
                        i = i + 1;
                    }
                    false
                },
                _ => false,
            },
            ControlValueDescription::Float { .. } => match value {
                ControlValueSetter::Float(f) => !f64_bits_is_nan(*f),
                _ => false,
            },
            ControlValueDescription::FloatRange { min, max, .. } => match value {
                ControlValueSetter::Float(f) => f64_bits_at_most(*min, *f) && f64_bits_at_most(
                    *f,
                    *max,
                ),
                _ => false,
            },
            ControlValueDescription::Point { .. } => match value {
                ControlValueSetter::Point(x, y) => !f64_bits_is_nan(*x) && !f64_bits_is_nan(*y),
                _ => false,
            },
            ControlValueDescription::RGB { max_red, max_green, max_blue, .. } => match value {
                ControlValueSetter::RGB(r, g, b) => f64_bits_at_most(*r, *max_red)
                    && f64_bits_at_most(*g, *max_green) && f64_bits_at_most(*b, *max_blue),
                _ => false,
            },
        }
    }
}

} // verus!
