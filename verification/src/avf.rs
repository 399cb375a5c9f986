//! AVFoundation: the control set a device reports, what a control write
//! turns into, pixel-format codes, configuration locking and device-index
//! routing. Floating-point readings travel as IEEE-754 bit patterns.
use vstd::prelude::*;

use crate::formats::{camera_format_debug, camera_format_debug_text};
use crate::text::{parse_u32, spec_parse_u32, u32_text};
use crate::types::{
    is_get_property_error, spec_control_name, spec_setter_text, value_accepted, ApiBackend,
    CameraControl, CameraFormat, CameraIndex, CameraInfo, ControlValueDescription,
    ControlValueSetter, FrameFormat, KnownCameraControl, KnownCameraControlFlag, NokhwaError,
};

verus! {

/// Core Media pixel-format code for 4:2:2 `yuvs`.
pub const CM_PIXEL_FORMAT_YUVS: u32 = 0x7975_7673;

/// Core Media codec code for JPEG (`jpeg`).
pub const CM_VIDEO_CODEC_JPEG: u32 = 0x6A70_6567;

/// Core Media pixel-format code for 8-bit indexed gray, white is zero.
pub const CM_PIXEL_FORMAT_GRAY8: u32 = 0x0000_0028;

/// Core Video pixel-format code for bi-planar 4:2:0 video range (`420v`).
pub const CV_PIXEL_FORMAT_NV12: u32 = 0x3432_3076;

/// Core Media pixel-format code for packed 24-bit RGB.
pub const CM_PIXEL_FORMAT_RGB24: u32 = 0x0000_0018;

/// The pixel-format code an output is asked for; BGR has none.
pub open spec fn spec_cm_pixel_format(format: FrameFormat) -> Option<u32> {
    match format {
        FrameFormat::YUYV => Some(CM_PIXEL_FORMAT_YUVS),
        FrameFormat::MJPEG => Some(CM_VIDEO_CODEC_JPEG),
        FrameFormat::GRAY => Some(CM_PIXEL_FORMAT_GRAY8),
        FrameFormat::NV12 => Some(CV_PIXEL_FORMAT_NV12),
        FrameFormat::RAWRGB => Some(CM_PIXEL_FORMAT_RGB24),
        FrameFormat::RAWBGR => None,
    }
}

/// A `SetPropertyError` with these three fields.
pub open spec fn is_set_error(e: NokhwaError, property: Seq<char>, value: Seq<char>, error: Seq<
    char,
>) -> bool {
    e matches NokhwaError::SetPropertyError { property: p, value: v, error: r } && p@ == property
        && v@ == value && r@ == error
}

fn set_error(property: String, value: String, error: &str) -> (e: NokhwaError)
    ensures
        is_set_error(e, property@, value@, error@),
{
    NokhwaError::SetPropertyError { property, value, error: error.to_string() }
}

/// The pixel-format code for a frame format; BGR output is refused.
pub fn frame_format_to_cm_pixel_format(format: FrameFormat) -> (r: Result<u32, NokhwaError>)
    ensures
        match spec_cm_pixel_format(format) {
            Some(code) => r == Ok::<u32, NokhwaError>(code),
            None => r matches Err(e) && is_set_error(
                e,
                "setVideoSettings"@,
                "set frame format"@,
                "Unsupported frame format BGR"@,
            ),
        },
{
    match format {
        FrameFormat::YUYV => Ok(CM_PIXEL_FORMAT_YUVS),
        FrameFormat::MJPEG => Ok(CM_VIDEO_CODEC_JPEG),
        FrameFormat::GRAY => Ok(CM_PIXEL_FORMAT_GRAY8),
        FrameFormat::NV12 => Ok(CV_PIXEL_FORMAT_NV12),
        FrameFormat::RAWRGB => Ok(CM_PIXEL_FORMAT_RGB24),
        FrameFormat::RAWBGR => Err(
            set_error(
                String::from_str("setVideoSettings"),
                String::from_str("set frame format"),
                "Unsupported frame format BGR",
            ),
        ),
    }
}

/// The flags of a control the device may not support: none when it does,
/// else disabled and read-only.
pub open spec fn spec_disabled_if_unsupported(supported: bool) -> Seq<KnownCameraControlFlag> {
    if supported {
        Seq::empty()
    } else {
        seq![KnownCameraControlFlag::Disabled, KnownCameraControlFlag::ReadOnly]
    }
}

/// Build the flags of a control the device may not support.
pub fn disabled_if_unsupported(supported: bool) -> (r: Vec<KnownCameraControlFlag>)
    ensures
        r@ == spec_disabled_if_unsupported(supported),
{
    let mut r: Vec<KnownCameraControlFlag> = Vec::new();
    if !supported {
        r.push(KnownCameraControlFlag::Disabled);
        r.push(KnownCameraControlFlag::ReadOnly);
    }
    assert(r@ =~= spec_disabled_if_unsupported(supported));
    r
}

fn flags_contain(flags: &Vec<KnownCameraControlFlag>, f: KnownCameraControlFlag) -> (r: bool)
    ensures
        r == flags@.contains(f),
{
    let mut i: usize = 0;
    while i < flags.len()
        invariant
            i <= flags@.len(),
            forall|k: int| 0 <= k < i ==> flags@[k] != f,
        decreases flags@.len() - i,
    {
        if flags[i] == f {
            assert(flags@[i as int] == f);
            return true;
        }
        i = i + 1;
    }
    false
}

/// A control can be written unless it is read-only or, failing that,
/// disabled.
pub open spec fn spec_check_control_flags(
    c: CameraControl,
    id: KnownCameraControl,
    value: ControlValueSetter,
    r: Result<(), NokhwaError>,
) -> bool {
    if c.flag@.contains(KnownCameraControlFlag::ReadOnly) {
        r matches Err(e) && is_set_error(
            e,
            spec_control_name(id),
            spec_setter_text(value),
            "Read Only"@,
        )
    } else if c.flag@.contains(KnownCameraControlFlag::Disabled) {
        r matches Err(e) && is_set_error(
            e,
            spec_control_name(id),
            spec_setter_text(value),
            "Disabled"@,
        )
    } else {
        r is Ok
    }
}

/// Refuse a write to a read-only or disabled control.
pub fn check_control_flags(c: &CameraControl, id: KnownCameraControl, value: &ControlValueSetter) -> (r:
    Result<(), NokhwaError>)
    ensures
        spec_check_control_flags(*c, id, *value, r),
{
    if flags_contain(&c.flag, KnownCameraControlFlag::ReadOnly) {
        return Err(set_error(id.name(), value.text(), "Read Only"));
    }
    if flags_contain(&c.flag, KnownCameraControlFlag::Disabled) {
        return Err(set_error(id.name(), value.text(), "Disabled"));
    }
    Ok(())
}

/// Position `i` holds the last control of `s` that is `id`.
pub open spec fn last_control_at(s: Seq<CameraControl>, id: KnownCameraControl, i: int) -> bool {
    &&& 0 <= i < s.len()
    &&& s[i].control == id
    &&& forall|j: int| i < j < s.len() ==> (#[trigger] s[j]).control != id
}

/// Some control of `s` is `id`.
pub open spec fn has_control(s: Seq<CameraControl>, id: KnownCameraControl) -> bool {
    exists|i: int| 0 <= i < s.len() && (#[trigger] s[i]).control == id
}

/// The control a write to `id` goes through, looked up by control as a
/// map keyed by control would (the last of several with the same control
/// wins) and checked writable.
pub open spec fn spec_get_and_check(
    controls: Seq<CameraControl>,
    id: KnownCameraControl,
    value: ControlValueSetter,
    r: Result<usize, NokhwaError>,
) -> bool {
    if !has_control(controls, id) {
        r matches Err(e) && is_set_error(
            e,
            spec_control_name(id),
            spec_setter_text(value),
            "Control does not exist"@,
        )
    } else {
        exists|i: int|
            #[trigger] last_control_at(controls, id, i) && match r {
                Ok(k) => k == i && spec_check_control_flags(
                    controls[i],
                    id,
                    value,
                    Ok::<(), NokhwaError>(()),
                ),
                Err(e) => spec_check_control_flags(
                    controls[i],
                    id,
                    value,
                    Err::<(), NokhwaError>(e),
                ),
            }
    }
}

/// Find the control a write to `id` goes through.
pub fn get_and_check_control(
    controls: &Vec<CameraControl>,
    id: KnownCameraControl,
    value: &ControlValueSetter,
) -> (r: Result<usize, NokhwaError>)
    ensures
        spec_get_and_check(controls@, id, *value, r),
{
    let mut i: usize = controls.len();
    while i > 0
        invariant
            i <= controls@.len(),
            forall|j: int| i <= j < controls@.len() ==> (#[trigger] controls@[j]).control != id,
        decreases i,
    {
        let k = i - 1;
        if controls[k].control == id {
            proof {
                assert(last_control_at(controls@, id, k as int));
            }
            return match check_control_flags(&controls[k], id, value) {
                Ok(()) => Ok(k),
                Err(e) => Err(e),
            };
        }
        i = k;
    }
    proof {
        if has_control(controls@, id) {
            let j = choose|j: int| 0 <= j < controls@.len() && (#[trigger] controls@[j]).control
                == id;
            assert(controls@[j].control != id);
        }
    }
    Err(set_error(id.name(), value.text(), "Control does not exist"))
}

/// A write the device is asked to make once the control accepted the value.
/// Floating-point payloads are bit patterns.
#[derive(Clone, Copy, Debug, PartialEq, Eq, Structural)]
pub enum AvfControlWrite {
    /// Custom exposure at the current duration with this ISO.
    ExposureIso(u64),
    /// Custom exposure with this duration value (in the current timescale)
    /// at the current ISO.
    ExposureDuration(i64),
    WhiteBalanceMode(i64),
    LowLightBoost(bool),
    WhiteBalanceGains(u64, u64, u64),
    /// Ramp the zoom factor to this value.
    Zoom(u64),
    ExposureMode(i64),
    FocusMode(i64),
    FocusPointOfInterest(u64, u64),
    LensPosition(u64),
    ExposurePointOfInterest(u64, u64),
    FaceDrivenExposure(bool),
    ExposureTargetBias(u64),
    TorchMode(i64),
    DistortionCorrection(bool),
}

/// The payload kind each control takes.
#[derive(Clone, Copy, Debug, PartialEq, Eq, Structural)]
pub enum SetterKind {
    Float,
    Integer,
    Enum,
    Boolean,
    Rgb,
    Point,
}

/// How a write to a control is carried out: the payload kind it takes and
/// the write it becomes; `None` for a control the device has no write for.
pub open spec fn avf_control_kind(id: KnownCameraControl) -> Option<SetterKind> {
    match id {
        KnownCameraControl::Brightness => Some(SetterKind::Float),
        KnownCameraControl::Gamma => Some(SetterKind::Integer),
        KnownCameraControl::WhiteBalance => Some(SetterKind::Enum),
        KnownCameraControl::BacklightComp => Some(SetterKind::Boolean),
        KnownCameraControl::Gain => Some(SetterKind::Rgb),
        KnownCameraControl::Zoom => Some(SetterKind::Float),
        KnownCameraControl::Exposure => Some(SetterKind::Enum),
        KnownCameraControl::Focus => Some(SetterKind::Enum),
        KnownCameraControl::Other(i) => if i == 0 || i == 2 {
            Some(SetterKind::Point)
        } else if i == 1 || i == 4 {
            Some(SetterKind::Float)
        } else if i == 3 || i == 6 {
            Some(SetterKind::Boolean)
        } else if i == 5 {
            Some(SetterKind::Enum)
        } else {
            None
        },
        _ => None,
    }
}

/// The message a payload of the wrong kind is refused with.
pub open spec fn kind_message(k: SetterKind) -> Seq<char> {
    match k {
        SetterKind::Float => "Expected float"@,
        SetterKind::Integer => "Expected i64"@,
        SetterKind::Enum => "Expected Enum"@,
        SetterKind::Boolean => "Expected bool"@,
        SetterKind::Rgb => "Expected RGB"@,
        SetterKind::Point => "Expected Point"@,
    }
}

/// The write a payload becomes for a control, when it is of the right
/// kind.
pub open spec fn spec_avf_write(id: KnownCameraControl, value: ControlValueSetter) -> Option<
    AvfControlWrite,
> {
    match (id, value) {
        (KnownCameraControl::Brightness, ControlValueSetter::Float(f)) => Some(
            AvfControlWrite::ExposureIso(f),
        ),
        (KnownCameraControl::Gamma, ControlValueSetter::Integer(i)) => Some(
            AvfControlWrite::ExposureDuration(i),
        ),
        (KnownCameraControl::WhiteBalance, ControlValueSetter::EnumValue(e)) => Some(
            AvfControlWrite::WhiteBalanceMode(e),
        ),
        (KnownCameraControl::BacklightComp, ControlValueSetter::Boolean(b)) => Some(
            AvfControlWrite::LowLightBoost(b),
        ),
        (KnownCameraControl::Gain, ControlValueSetter::RGB(r, g, b)) => Some(
            AvfControlWrite::WhiteBalanceGains(r, g, b),
        ),
        (KnownCameraControl::Zoom, ControlValueSetter::Float(f)) => Some(AvfControlWrite::Zoom(f)),
        (KnownCameraControl::Exposure, ControlValueSetter::EnumValue(e)) => Some(
            AvfControlWrite::ExposureMode(e),
        ),
        (KnownCameraControl::Focus, ControlValueSetter::EnumValue(e)) => Some(
            AvfControlWrite::FocusMode(e),
        ),
        (KnownCameraControl::Other(i), ControlValueSetter::Point(x, y)) => if i == 0 {
            Some(AvfControlWrite::FocusPointOfInterest(x, y))
        } else if i == 2 {
            Some(AvfControlWrite::ExposurePointOfInterest(x, y))
        } else {
            None
        },
        (KnownCameraControl::Other(i), ControlValueSetter::Float(f)) => if i == 1 {
            Some(AvfControlWrite::LensPosition(f))
        } else if i == 4 {
            Some(AvfControlWrite::ExposureTargetBias(f))
        } else {
            None
        },
        (KnownCameraControl::Other(i), ControlValueSetter::Boolean(b)) => if i == 3 {
            Some(AvfControlWrite::FaceDrivenExposure(b))
        } else if i == 6 {
            Some(AvfControlWrite::DistortionCorrection(b))
        } else {
            None
        },
        (KnownCameraControl::Other(i), ControlValueSetter::EnumValue(e)) => if i == 5 {
            Some(AvfControlWrite::TorchMode(e))
        } else {
            None
        },
        _ => None,
    }
}

/// What a write request comes to, before the control's own description
/// checks the value: the iris is read-only and controls without a write are
/// unknown; otherwise the control must exist and be writable, the payload
/// must be of the control's kind, and the control's description must accept
/// the value.
pub open spec fn spec_plan_avf_write(
    controls: Seq<CameraControl>,
    id: KnownCameraControl,
    value: ControlValueSetter,
    r: Result<(usize, AvfControlWrite), NokhwaError>,
) -> bool {
    if id == KnownCameraControl::Iris {
        r matches Err(e) && is_set_error(
            e,
            spec_control_name(id),
            spec_setter_text(value),
            "Read Only"@,
        )
    } else if avf_control_kind(id) is None {
        r matches Err(e) && is_set_error(
            e,
            spec_control_name(id),
            spec_setter_text(value),
            "Unknown Control"@,
        )
    } else {
        match r {
            Ok((k, w)) => spec_get_and_check(controls, id, value, Ok::<usize, NokhwaError>(k))
                && spec_avf_write(id, value) == Some(w) && value_accepted(
                controls[k as int].description,
                value,
            ),
            Err(e) => spec_get_and_check(controls, id, value, Err::<usize, NokhwaError>(e)) || (
            exists|k: usize|
                #[trigger] spec_get_and_check(controls, id, value, Ok::<usize, NokhwaError>(k))
                    && if spec_avf_write(id, value) is None {
                    is_set_error(
                        e,
                        spec_control_name(id),
                        spec_setter_text(value),
                        kind_message(avf_control_kind(id).unwrap()),
                    )
                } else {
                    !value_accepted(controls[k as int].description, value) && is_set_error(
                        e,
                        spec_control_name(id),
                        spec_setter_text(value),
                        "Failed to verify value"@,
                    )
                }),
        }
    }
}

fn avf_write_of(id: KnownCameraControl, value: &ControlValueSetter) -> (w: Option<AvfControlWrite>)
    ensures
        w == spec_avf_write(id, *value),
{
    match (id, value) {
        (KnownCameraControl::Brightness, ControlValueSetter::Float(f)) => Some(
            AvfControlWrite::ExposureIso(*f),
        ),
        (KnownCameraControl::Gamma, ControlValueSetter::Integer(i)) => Some(
            AvfControlWrite::ExposureDuration(*i),
        ),
        (KnownCameraControl::WhiteBalance, ControlValueSetter::EnumValue(e)) => Some(
            AvfControlWrite::WhiteBalanceMode(*e),
        ),
        (KnownCameraControl::BacklightComp, ControlValueSetter::Boolean(b)) => Some(
            AvfControlWrite::LowLightBoost(*b),
        ),
        (KnownCameraControl::Gain, ControlValueSetter::RGB(r, g, b)) => Some(
            AvfControlWrite::WhiteBalanceGains(*r, *g, *b),
        ),
        (KnownCameraControl::Zoom, ControlValueSetter::Float(f)) => Some(
            AvfControlWrite::Zoom(*f),
        ),
        (KnownCameraControl::Exposure, ControlValueSetter::EnumValue(e)) => Some(
            AvfControlWrite::ExposureMode(*e),
        ),
        (KnownCameraControl::Focus, ControlValueSetter::EnumValue(e)) => Some(
            AvfControlWrite::FocusMode(*e),
        ),
        (KnownCameraControl::Other(i), ControlValueSetter::Point(x, y)) => {
            if i == 0 {
                Some(AvfControlWrite::FocusPointOfInterest(*x, *y))
            } else if i == 2 {
                Some(AvfControlWrite::ExposurePointOfInterest(*x, *y))
            } else {
                None
            }
        },
        (KnownCameraControl::Other(i), ControlValueSetter::Float(f)) => {
            if i == 1 {
                Some(AvfControlWrite::LensPosition(*f))
            } else if i == 4 {
                Some(AvfControlWrite::ExposureTargetBias(*f))
            } else {
                None
            }
        },
        (KnownCameraControl::Other(i), ControlValueSetter::Boolean(b)) => {
            if i == 3 {
                Some(AvfControlWrite::FaceDrivenExposure(*b))
            } else if i == 6 {
                Some(AvfControlWrite::DistortionCorrection(*b))
            } else {
                None
            }
        },
        (KnownCameraControl::Other(i), ControlValueSetter::EnumValue(e)) => {
            if i == 5 {
                Some(AvfControlWrite::TorchMode(*e))
            } else {
                None
            }
        },
        _ => None,
    }
}

fn kind_message_text(id: KnownCameraControl) -> (s: &'static str)
    requires
        avf_control_kind(id) is Some,
    ensures
        s@ == kind_message(avf_control_kind(id).unwrap()),
{
    proof {
        reveal_strlit("Expected float");
        reveal_strlit("Expected i64");
        reveal_strlit("Expected Enum");
        reveal_strlit("Expected bool");
        reveal_strlit("Expected RGB");
        reveal_strlit("Expected Point");
    }
    match id {
        KnownCameraControl::Brightness | KnownCameraControl::Zoom => "Expected float",
        KnownCameraControl::Gamma => "Expected i64",
        KnownCameraControl::WhiteBalance | KnownCameraControl::Exposure
        | KnownCameraControl::Focus => "Expected Enum",
        KnownCameraControl::BacklightComp => "Expected bool",
        KnownCameraControl::Gain => "Expected RGB",
        KnownCameraControl::Other(i) => {
            if i == 0 || i == 2 {
                "Expected Point"
            } else if i == 1 || i == 4 {
                "Expected float"
            } else if i == 5 {
                "Expected Enum"
            } else {
                "Expected bool"
            }
        },
        _ => "Expected float",
    }
}

/// Turn a write request into the device write it makes and the position of
/// the control it goes through, refusing a value the control's description
/// does not accept.
pub fn plan_avf_write(controls: &Vec<CameraControl>, id: KnownCameraControl, value: &ControlValueSetter) -> (r:
    Result<(usize, AvfControlWrite), NokhwaError>)
    ensures
        spec_plan_avf_write(controls@, id, *value, r),
{
    if id == KnownCameraControl::Iris {
        return Err(set_error(id.name(), value.text(), "Read Only"));
    }
    let kind_known = match id {
        KnownCameraControl::Brightness | KnownCameraControl::Gamma
        | KnownCameraControl::WhiteBalance | KnownCameraControl::BacklightComp
        | KnownCameraControl::Gain | KnownCameraControl::Zoom | KnownCameraControl::Exposure
        | KnownCameraControl::Focus => true,
        KnownCameraControl::Other(i) => i <= 6,
        _ => false,
    };
    if !kind_known {
        return Err(set_error(id.name(), value.text(), "Unknown Control"));
    }
    let k = match get_and_check_control(controls, id, value) {
        Ok(k) => k,
        Err(e) => {
            return Err(e);
        },
    };
    match avf_write_of(id, value) {
        Some(w) => {
            if controls[k].description.verify_setter(value) {
                Ok((k, w))
            } else {
                Err(set_error(id.name(), value.text(), "Failed to verify value"))
            }
        },
        None => Err(set_error(id.name(), value.text(), kind_message_text(id))),
    }
}


/// Bit pattern of the `f64` value one half.
pub const F64_HALF_BITS: u64 = 0x3FE0_0000_0000_0000;

/// Bit pattern of the `f64` value one.
pub const F64_ONE_BITS: u64 = 0x3FF0_0000_0000_0000;

/// Bit pattern of the smallest positive normal `f64`.
pub const F64_MIN_POSITIVE_BITS: u64 = 0x0010_0000_0000_0000;

/// Bit pattern of the smallest positive normal `f32`, widened to `f64`.
pub const F32_MIN_POSITIVE_AS_F64_BITS: u64 = 0x3810_0000_0000_0000;

/// The raw value of the custom exposure mode.
pub const EXPOSURE_MODE_CUSTOM: i64 = 3;

/// Everything `get_controls` reads from a device, as plain values:
/// mode numbers, which modes are supported, and floating-point readings
/// as `f64` bit patterns.
#[derive(Clone, Copy, Debug)]
pub struct AvfReadout {
    pub focus_mode: i64,
    pub focus_locked_supported: bool,
    pub focus_auto_supported: bool,
    pub focus_continuous_supported: bool,
    pub focus_poi_supported: bool,
    pub focus_poi_x: u64,
    pub focus_poi_y: u64,
    pub focus_lens_position_supported: bool,
    pub lens_position: u64,
    pub exposure_mode: i64,
    pub exposure_locked_supported: bool,
    pub exposure_auto_supported: bool,
    pub exposure_continuous_supported: bool,
    pub exposure_custom_supported: bool,
    pub exposure_poi_supported: bool,
    pub exposure_poi_x: u64,
    pub exposure_poi_y: u64,
    pub face_driven_supported: bool,
    pub face_driven: bool,
    pub bias: u64,
    pub bias_min: u64,
    pub bias_max: u64,
    pub bias_current: u64,
    pub duration: i64,
    pub duration_min: i64,
    pub duration_max: i64,
    pub duration_current: i64,
    pub iso: u64,
    pub iso_min: u64,
    pub iso_max: u64,
    pub iso_current: u64,
    pub lens_aperture: u64,
    pub white_balance_mode: i64,
    pub white_balance_locked_supported: bool,
    pub white_balance_auto_supported: bool,
    pub white_balance_continuous_supported: bool,
    pub gains: (u64, u64, u64),
    pub gray_world_gains: (u64, u64, u64),
    pub max_gain: u64,
    pub custom_gains_supported: bool,
    pub has_torch: bool,
    pub torch_off_supported: bool,
    pub torch_on_supported: bool,
    pub torch_auto_supported: bool,
    pub torch_mode: i64,
    pub low_light_boost_supported: bool,
    pub low_light_boost_enabled: bool,
    pub zoom: u64,
    pub zoom_min: u64,
    pub zoom_max: u64,
    pub distortion_correction_supported: bool,
    pub distortion_correction_enabled: bool,
}

/// The mode numbers 0, 1, 2 (and 3) whose support flag is set, in order.
pub open spec fn supported_modes(m0: bool, m1: bool, m2: bool, m3: bool) -> Seq<i64> {
    (if m0 {
        seq![0i64]
    } else {
        Seq::empty()
    }) + (if m1 {
        seq![1i64]
    } else {
        Seq::empty()
    }) + (if m2 {
        seq![2i64]
    } else {
        Seq::empty()
    }) + (if m3 {
        seq![3i64]
    } else {
        Seq::empty()
    })
}

fn supported_modes_vec(m0: bool, m1: bool, m2: bool, m3: bool) -> (v: Vec<i64>)
    ensures
        v@ == supported_modes(m0, m1, m2, m3),
{
    let mut v: Vec<i64> = Vec::new();
    if m0 {
        v.push(0);
    }
    if m1 {
        v.push(1);
    }
    if m2 {
        v.push(2);
    }
    if m3 {
        v.push(3);
    }
    assert(v@ =~= supported_modes(m0, m1, m2, m3));
    v
}

/// The flags of the exposure duration and ISO: writable (and volatile)
/// only in custom exposure mode, read-only otherwise.
pub open spec fn custom_exposure_flags(custom: bool) -> Seq<KnownCameraControlFlag> {
    if custom {
        seq![KnownCameraControlFlag::Volatile]
    } else {
        seq![KnownCameraControlFlag::ReadOnly, KnownCameraControlFlag::Volatile]
    }
}

fn custom_exposure_flags_vec(custom: bool) -> (v: Vec<KnownCameraControlFlag>)
    ensures
        v@ == custom_exposure_flags(custom),
{
    let mut v: Vec<KnownCameraControlFlag> = Vec::new();
    if !custom {
        v.push(KnownCameraControlFlag::ReadOnly);
    }
    v.push(KnownCameraControlFlag::Volatile);
    assert(v@ =~= custom_exposure_flags(custom));
    v
}

/// `c` has these control, name, flags and activity.
pub open spec fn control_shape(
    c: CameraControl,
    control: KnownCameraControl,
    name: Seq<char>,
    flags: Seq<KnownCameraControlFlag>,
    active: bool,
) -> bool {
    &&& c.control == control
    &&& c.name@ == name
    &&& c.flag@ == flags
    &&& c.active == active
}

/// `d` is a mode list with this value, these possible modes and this
/// default.
pub open spec fn is_enum(d: ControlValueDescription, value: i64, possible: Seq<i64>, default: i64) -> bool {
    d matches ControlValueDescription::Enum { value: v, possible: p, default: f } && v == value
        && p@ == possible && f == default
}

/// `c` is control number `k` of the set a device with readout `r` reports.
pub open spec fn is_avf_control(c: CameraControl, r: AvfReadout, k: int) -> bool {
    let custom = r.exposure_mode == EXPOSURE_MODE_CUSTOM;
    if k == 0 {
        control_shape(c, KnownCameraControl::Focus, "FocusMode"@, Seq::empty(), true) && is_enum(
            c.description,
            r.focus_mode,
            supported_modes(
                r.focus_locked_supported,
                r.focus_auto_supported,
                r.focus_continuous_supported,
                false,
            ),
            r.focus_mode,
        )
    } else if k == 1 {
        control_shape(
            c,
            KnownCameraControl::Other(0),
            "FocusPointOfInterest"@,
            spec_disabled_if_unsupported(r.focus_poi_supported),
            r.focus_auto_supported || r.focus_continuous_supported,
        ) && c.description == ControlValueDescription::Point {
            x: r.focus_poi_x,
            y: r.focus_poi_y,
            default_x: F64_HALF_BITS,
            default_y: F64_HALF_BITS,
        }
    } else if k == 2 {
        control_shape(
            c,
            KnownCameraControl::Other(1),
            "FocusManualLensPosition"@,
            spec_disabled_if_unsupported(r.focus_lens_position_supported),
            r.focus_lens_position_supported,
        ) && c.description == ControlValueDescription::FloatRange {
            min: 0,
            max: F64_ONE_BITS,
            value: r.lens_position,
            step: F64_MIN_POSITIVE_BITS,
            default: F64_ONE_BITS,
        }
    } else if k == 3 {
        control_shape(c, KnownCameraControl::Exposure, "ExposureMode"@, Seq::empty(), true)
            && is_enum(
            c.description,
            r.exposure_mode,
            supported_modes(
                r.exposure_locked_supported,
                r.exposure_auto_supported,
                r.exposure_continuous_supported,
                r.exposure_custom_supported,
            ),
            r.exposure_mode,
        )
    } else if k == 4 {
        control_shape(
            c,
            KnownCameraControl::Other(2),
            "ExposurePointOfInterest"@,
            spec_disabled_if_unsupported(r.exposure_poi_supported),
            r.exposure_auto_supported || r.exposure_continuous_supported,
        ) && c.description == ControlValueDescription::Point {
            x: r.exposure_poi_x,
            y: r.exposure_poi_y,
            default_x: F64_HALF_BITS,
            default_y: F64_HALF_BITS,
        }
    } else if k == 5 {
        control_shape(
            c,
            KnownCameraControl::Other(3),
            "ExposureFaceDriven"@,
            spec_disabled_if_unsupported(r.face_driven_supported),
            r.exposure_poi_supported,
        ) && c.description == ControlValueDescription::Boolean {
            value: r.face_driven,
            default: false,
        }
    } else if k == 6 {
        control_shape(c, KnownCameraControl::Other(4), "ExposureBiasTarget"@, Seq::empty(), true)
            && c.description == ControlValueDescription::FloatRange {
            min: r.bias_min,
            max: r.bias_max,
            value: r.bias,
            step: F32_MIN_POSITIVE_AS_F64_BITS,
            default: r.bias_current,
        }
    } else if k == 7 {
        control_shape(
            c,
            KnownCameraControl::Gamma,
            "ExposureDuration"@,
            custom_exposure_flags(custom),
            custom,
        ) && c.description == ControlValueDescription::IntegerRange {
            min: r.duration_min,
            max: r.duration_max,
            value: r.duration,
            step: 1,
            default: r.duration_current,
        }
    } else if k == 8 {
        control_shape(
            c,
            KnownCameraControl::Brightness,
            "ExposureISO"@,
            custom_exposure_flags(custom),
            custom,
        ) && c.description == ControlValueDescription::FloatRange {
            min: r.iso_min,
            max: r.iso_max,
            value: r.iso,
            step: F32_MIN_POSITIVE_AS_F64_BITS,
            default: r.iso_current,
        }
    } else if k == 9 {
        control_shape(
            c,
            KnownCameraControl::Iris,
            "LensAperture"@,
            seq![KnownCameraControlFlag::ReadOnly],
            false,
        ) && c.description == ControlValueDescription::Float {
            value: r.lens_aperture,
            default: r.lens_aperture,
            step: r.lens_aperture,
        }
    } else if k == 10 {
        control_shape(c, KnownCameraControl::WhiteBalance, "WhiteBalanceMode"@, Seq::empty(), true)
            && is_enum(
            c.description,
            r.white_balance_mode,
            supported_modes(
                r.white_balance_locked_supported,
                r.white_balance_auto_supported,
                r.white_balance_continuous_supported,
                false,
            ),
            0,
        )
    } else if k == 11 {
        control_shape(
            c,
            KnownCameraControl::Gain,
            "WhiteBalanceGain"@,
            spec_disabled_if_unsupported(r.custom_gains_supported),
            r.custom_gains_supported,
        ) && c.description == ControlValueDescription::RGB {
            red: r.gains.0,
            green: r.gains.1,
            blue: r.gains.2,
            max_red: r.max_gain,
            max_green: r.max_gain,
            max_blue: r.max_gain,
            default_red: r.gray_world_gains.0,
            default_green: r.gray_world_gains.1,
            default_blue: r.gray_world_gains.2,
        }
    } else if k == 12 {
        control_shape(
            c,
            KnownCameraControl::Other(5),
            "TorchMode"@,
            spec_disabled_if_unsupported(r.has_torch),
            r.has_torch,
        ) && is_enum(
            c.description,
            r.torch_mode,
            supported_modes(
                r.torch_off_supported,
                r.torch_on_supported,
                r.torch_auto_supported,
                false,
            ),
            0,
        )
    } else if k == 13 {
        control_shape(
            c,
            KnownCameraControl::BacklightComp,
            "LowLightCompensation"@,
            spec_disabled_if_unsupported(r.low_light_boost_supported),
            r.low_light_boost_supported,
        ) && c.description == ControlValueDescription::Boolean {
            value: r.low_light_boost_enabled,
            default: false,
        }
    } else if k == 14 {
        control_shape(c, KnownCameraControl::Zoom, "Zoom"@, Seq::empty(), true) && c.description
            == ControlValueDescription::FloatRange {
            min: r.zoom_min,
            max: r.zoom_max,
            value: r.zoom,
            step: F32_MIN_POSITIVE_AS_F64_BITS,
            default: F64_ONE_BITS,
        }
    } else {
        control_shape(
            c,
            KnownCameraControl::Other(6),
            "DistortionCorrection"@,
            spec_disabled_if_unsupported(r.distortion_correction_supported),
            r.distortion_correction_supported,
        ) && c.description == ControlValueDescription::Boolean {
            value: r.distortion_correction_enabled,
            default: false,
        }
    }
}

fn new_control(
    control: KnownCameraControl,
    name: &str,
    description: ControlValueDescription,
    flag: Vec<KnownCameraControlFlag>,
    active: bool,
) -> (c: CameraControl)
    ensures
        c.control == control,
        c.name@ == name@,
        c.description == description,
        c.flag@ == flag@,
        c.active == active,
{
    CameraControl { control, name: name.to_string(), description, flag, active }
}

/// The controls a device reports, built from what was read from it: the
/// focus, exposure, white-balance, torch, low-light, zoom and distortion
/// groups in that order, each flagged and activated by what the device
/// supports.
pub fn avf_controls(r: &AvfReadout) -> (v: Vec<CameraControl>)
    ensures
        v@.len() == 16,
        forall|k: int| 0 <= k < 16 ==> is_avf_control(#[trigger] v@[k], *r, k),
{
    let custom = r.exposure_mode == EXPOSURE_MODE_CUSTOM;
    let mut v: Vec<CameraControl> = Vec::new();
    v.push(
        new_control(
            KnownCameraControl::Focus,
            "FocusMode",
            ControlValueDescription::Enum {
                value: r.focus_mode,
                possible: supported_modes_vec(
                    r.focus_locked_supported,
                    r.focus_auto_supported,
                    r.focus_continuous_supported,
                    false,
                ),
                default: r.focus_mode,
            },
            Vec::new(),
            true,
        ),
    );
    v.push(
        new_control(
            KnownCameraControl::Other(0),
            "FocusPointOfInterest",
            ControlValueDescription::Point {
                x: r.focus_poi_x,
                y: r.focus_poi_y,
                default_x: F64_HALF_BITS,
                default_y: F64_HALF_BITS,
            },
            disabled_if_unsupported(r.focus_poi_supported),
            r.focus_auto_supported || r.focus_continuous_supported,
        ),
    );
    v.push(
        new_control(
            KnownCameraControl::Other(1),
            "FocusManualLensPosition",
            ControlValueDescription::FloatRange {
                min: 0,
                max: F64_ONE_BITS,
                value: r.lens_position,
                step: F64_MIN_POSITIVE_BITS,
                default: F64_ONE_BITS,
            },
            disabled_if_unsupported(r.focus_lens_position_supported),
            r.focus_lens_position_supported,
        ),
    );
    v.push(
        new_control(
            KnownCameraControl::Exposure,
            "ExposureMode",
            ControlValueDescription::Enum {
                value: r.exposure_mode,
                possible: supported_modes_vec(
                    r.exposure_locked_supported,
                    r.exposure_auto_supported,
                    r.exposure_continuous_supported,
                    r.exposure_custom_supported,
                ),
                default: r.exposure_mode,
            },
            Vec::new(),
            true,
        ),
    );
    v.push(
        new_control(
            KnownCameraControl::Other(2),
            "ExposurePointOfInterest",
            ControlValueDescription::Point {
                x: r.exposure_poi_x,
                y: r.exposure_poi_y,
                default_x: F64_HALF_BITS,
                default_y: F64_HALF_BITS,
            },
            disabled_if_unsupported(r.exposure_poi_supported),
            r.exposure_auto_supported || r.exposure_continuous_supported,
        ),
    );
    v.push(
        new_control(
            KnownCameraControl::Other(3),
            "ExposureFaceDriven",
            ControlValueDescription::Boolean { value: r.face_driven, default: false },
            disabled_if_unsupported(r.face_driven_supported),
            r.exposure_poi_supported,
        ),
    );
    v.push(
        new_control(
            KnownCameraControl::Other(4),
            "ExposureBiasTarget",
            ControlValueDescription::FloatRange {
                min: r.bias_min,
                max: r.bias_max,
                value: r.bias,
                step: F32_MIN_POSITIVE_AS_F64_BITS,
                default: r.bias_current,
            },
            Vec::new(),
            true,
        ),
    );
    v.push(
        new_control(
            KnownCameraControl::Gamma,
            "ExposureDuration",
            ControlValueDescription::IntegerRange {
                min: r.duration_min,
                max: r.duration_max,
                value: r.duration,
                step: 1,
                default: r.duration_current,
            },
            custom_exposure_flags_vec(custom),
            custom,
        ),
    );
    v.push(
        new_control(
            KnownCameraControl::Brightness,
            "ExposureISO",
            ControlValueDescription::FloatRange {
                min: r.iso_min,
                max: r.iso_max,
                value: r.iso,
                step: F32_MIN_POSITIVE_AS_F64_BITS,
                default: r.iso_current,
            },
            custom_exposure_flags_vec(custom),
            custom,
        ),
    );
    let mut read_only: Vec<KnownCameraControlFlag> = Vec::new();
    read_only.push(KnownCameraControlFlag::ReadOnly);
    assert(read_only@ =~= seq![KnownCameraControlFlag::ReadOnly]);
    v.push(
        new_control(
            KnownCameraControl::Iris,
            "LensAperture",
            ControlValueDescription::Float {
                value: r.lens_aperture,
                default: r.lens_aperture,
                step: r.lens_aperture,
            },
            read_only,
            false,
        ),
    );
    v.push(
        new_control(
            KnownCameraControl::WhiteBalance,
            "WhiteBalanceMode",
            ControlValueDescription::Enum {
                value: r.white_balance_mode,
                possible: supported_modes_vec(
                    r.white_balance_locked_supported,
                    r.white_balance_auto_supported,
                    r.white_balance_continuous_supported,
                    false,
                ),
                default: 0,
            },
            Vec::new(),
            true,
        ),
    );
    v.push(
        new_control(
            KnownCameraControl::Gain,
            "WhiteBalanceGain",
            ControlValueDescription::RGB {
                red: r.gains.0,
                green: r.gains.1,
                blue: r.gains.2,
                max_red: r.max_gain,
                max_green: r.max_gain,
                max_blue: r.max_gain,
                default_red: r.gray_world_gains.0,
                default_green: r.gray_world_gains.1,
                default_blue: r.gray_world_gains.2,
            },
            disabled_if_unsupported(r.custom_gains_supported),
            r.custom_gains_supported,
        ),
    );
    v.push(
        new_control(
            KnownCameraControl::Other(5),
            "TorchMode",
            ControlValueDescription::Enum {
                value: r.torch_mode,
                possible: supported_modes_vec(
                    r.torch_off_supported,
                    r.torch_on_supported,
                    r.torch_auto_supported,
                    false,
                ),
                default: 0,
            },
            disabled_if_unsupported(r.has_torch),
            r.has_torch,
        ),
    );
    v.push(
        new_control(
            KnownCameraControl::BacklightComp,
            "LowLightCompensation",
            ControlValueDescription::Boolean { value: r.low_light_boost_enabled, default: false },
            disabled_if_unsupported(r.low_light_boost_supported),
            r.low_light_boost_supported,
        ),
    );
    v.push(
        new_control(
            KnownCameraControl::Zoom,
            "Zoom",
            ControlValueDescription::FloatRange {
                min: r.zoom_min,
                max: r.zoom_max,
                value: r.zoom,
                step: F32_MIN_POSITIVE_AS_F64_BITS,
                default: F64_ONE_BITS,
            },
            Vec::new(),
            true,
        ),
    );
    v.push(
        new_control(
            KnownCameraControl::Other(6),
            "DistortionCorrection",
            ControlValueDescription::Boolean {
                value: r.distortion_correction_enabled,
                default: false,
            },
            disabled_if_unsupported(r.distortion_correction_supported),
            r.distortion_correction_supported,
        ),
    );
    proof {
        reveal_strlit("FocusMode");
        reveal_strlit("FocusPointOfInterest");
        reveal_strlit("FocusManualLensPosition");
        reveal_strlit("ExposureMode");
        reveal_strlit("ExposurePointOfInterest");
        reveal_strlit("ExposureFaceDriven");
        reveal_strlit("ExposureBiasTarget");
        reveal_strlit("ExposureDuration");
        reveal_strlit("ExposureISO");
        reveal_strlit("LensAperture");
        reveal_strlit("WhiteBalanceMode");
        reveal_strlit("WhiteBalanceGain");
        reveal_strlit("TorchMode");
        reveal_strlit("LowLightCompensation");
        reveal_strlit("Zoom");
        reveal_strlit("DistortionCorrection");
        assert forall|k: int| 0 <= k < 16 implies is_avf_control(#[trigger] v@[k], *r, k) by {}
    }
    v
}


/// How a device index finds an AVFoundation device: by position in the
/// enumeration, or by unique id. A string that spells a number is a
/// position, so `"0"` and `0` reach the same device.
#[derive(Debug)]
pub enum AvfRoute {
    ByPosition(u32),
    ById(String),
}

/// Route a device index.
pub fn route_avf_index(index: &CameraIndex) -> (r: AvfRoute)
    ensures
        match *index {
            CameraIndex::Index(i) => r == AvfRoute::ByPosition(i),
            CameraIndex::String(s) => match spec_parse_u32(s@) {
                Some(n) => r == AvfRoute::ByPosition(n),
                None => r matches AvfRoute::ById(id) && id@ == s@,
            },
        },
{
    match index {
        CameraIndex::Index(i) => AvfRoute::ByPosition(*i),
        CameraIndex::String(s) => match parse_u32(s.as_str()) {
            Some(n) => AvfRoute::ByPosition(n),
            None => AvfRoute::ById(s.clone()),
        },
    }
}

/// The unique id (kept in `misc`) of the device at `position` of an
/// enumeration, or an open error naming the position.
pub fn device_id_at(devices: &Vec<CameraInfo>, position: u32) -> (r: Result<String, NokhwaError>)
    ensures
        (position as int) < devices@.len() ==> (r matches Ok(id) && id@ == devices@[position as int].misc@),
        (position as int) >= devices@.len() ==> (r matches Err(e) && e matches NokhwaError::OpenDeviceError {
            device,
            error,
        } && device@ == crate::text::decimal(position as nat) && error@ == "device not found"@),
{
    if (position as usize) < devices.len() {
        Ok(devices[position as usize].misc.clone())
    } else {
        Err(
            NokhwaError::OpenDeviceError {
                device: u32_text(position),
                error: String::from_str("device not found"),
            },
        )
    }
}

/// Whether the device is locked for configuration by this handle.
pub struct ConfigLock {
    locked: bool,
}

impl View for ConfigLock {
    type V = bool;

    closed spec fn view(&self) -> bool {
        self.locked
    }
}

impl ConfigLock {
    pub fn new() -> (l: ConfigLock)
        ensures
            !l@,
    {
        ConfigLock { locked: false }
    }

    /// Whether the device must be asked for the lock: not when this handle
    /// holds it already; a device another application uses is refused.
    pub fn needs_lock(&self, in_use_elsewhere: bool) -> (r: Result<bool, NokhwaError>)
        ensures
            self@ ==> r == Ok::<bool, NokhwaError>(false),
            !self@ && in_use_elsewhere ==> (r matches Err(e) && e matches NokhwaError::InitializeError {
                backend,
                error,
            } && backend == ApiBackend::AVFoundation && error@ == "Already in use"@),
            !self@ && !in_use_elsewhere ==> r == Ok::<bool, NokhwaError>(true),
    {
        if self.locked {
            return Ok(false);
        }
        if in_use_elsewhere {
            return Err(
                NokhwaError::InitializeError {
                    backend: ApiBackend::AVFoundation,
                    error: String::from_str("Already in use"),
                },
            );
        }
        Ok(true)
    }

    /// The device granted the lock.
    pub fn mark_locked(&mut self)
        ensures
            final(self)@,
    {
        self.locked = true;
    }

    /// Release the lock; true when the device must be told.
    pub fn unlock(&mut self) -> (must_release: bool)
        ensures
            must_release == old(self)@,
            !final(self)@,
    {
        let was = self.locked;
        self.locked = false;
        was
    }
}

/// The error for a refused configuration lock.
pub fn lock_refused(description: String) -> (e: NokhwaError)
    ensures
        is_set_error(e, "lockForConfiguration"@, "Locked"@, description@),
{
    set_error(String::from_str("lockForConfiguration"), String::from_str("Locked"), description.as_str())
}


/// One device format as a format switch sees it: its dimensions and, for
/// each of its frame-rate ranges in order, whether the range's maximum rate
/// lies within one frame per second of the requested rate. That comparison
/// is made on the device's floating-point rates by the caller.
pub struct AvfFormatCandidate {
    pub width: i32,
    pub height: i32,
    pub rate_matches: Vec<bool>,
}

/// The candidate has the requested dimensions (the requested sizes are
/// taken as `i32`, as the device reports them).
pub open spec fn dims_match(c: AvfFormatCandidate, requested: CameraFormat) -> bool {
    c.width == requested.resolution.width_x as i32 && c.height == requested.resolution.height_y
        as i32
}

/// Some entry of `s` is true.
pub open spec fn any_true(s: Seq<bool>) -> bool {
    exists|j: int| 0 <= j < s.len() && #[trigger] s[j]
}

/// The candidate can serve the request: right dimensions and a matching
/// frame-rate range.
pub open spec fn candidate_serves(c: AvfFormatCandidate, requested: CameraFormat) -> bool {
    dims_match(c, requested) && any_true(c.rate_matches@)
}

/// The format and frame-rate range a format switch activates: the first
/// format, in device order, with the requested dimensions and a matching
/// range, and its first matching range. With none, the request is refused
/// as not found.
pub fn select_active_format(candidates: &Vec<AvfFormatCandidate>, requested: CameraFormat) -> (r:
    Result<(usize, usize), NokhwaError>)
    ensures
        match r {
            Ok((i, j)) => {
                &&& i < candidates@.len()
                &&& dims_match(candidates@[i as int], requested)
                &&& j < candidates@[i as int].rate_matches@.len()
                &&& candidates@[i as int].rate_matches@[j as int]
                &&& forall|k: int| 0 <= k < j ==> !#[trigger] candidates@[i as int].rate_matches@[k]
                &&& forall|k: int|
                    0 <= k < i ==> !candidate_serves(#[trigger] candidates@[k], requested)
            },
            Err(e) => {
                &&& forall|k: int|
                    0 <= k < candidates@.len() ==> !candidate_serves(
                        #[trigger] candidates@[k],
                        requested,
                    )
                &&& is_set_error(
                    e,
                    "CameraFormat"@,
                    camera_format_debug(requested),
                    "Not Found/Rejected/Unsupported"@,
                )
            },
        },
{
    let w = requested.resolution.width_x as i32;
    let h = requested.resolution.height_y as i32;
    let mut i: usize = 0;
    while i < candidates.len()
        invariant
            i <= candidates@.len(),
            w == requested.resolution.width_x as i32,
            h == requested.resolution.height_y as i32,
            forall|k: int| 0 <= k < i ==> !candidate_serves(#[trigger] candidates@[k], requested),
        decreases candidates@.len() - i,
    {
        let c = &candidates[i];
        if c.width == w && c.height == h {
            let mut j: usize = 0;
            while j < c.rate_matches.len()
                invariant
                    i < candidates@.len(),
                    *c == candidates@[i as int],
                    dims_match(*c, requested),
                    j <= c.rate_matches@.len(),
                    forall|k: int| 0 <= k < j ==> !#[trigger] c.rate_matches@[k],
                    forall|k: int|
                        0 <= k < i ==> !candidate_serves(#[trigger] candidates@[k], requested),
                decreases c.rate_matches@.len() - j,
            {
                if c.rate_matches[j] {
                    return Ok((i, j));
                }
                j = j + 1;
            }
            assert(!any_true(c.rate_matches@));
        }
        i = i + 1;
    }
    Err(
        set_error(
            String::from_str("CameraFormat"),
            camera_format_debug_text(&requested),
            "Not Found/Rejected/Unsupported",
        ),
    )
}


/// Every control of the set reports the device's current reading as its
/// value: the focus, exposure, white-balance and torch modes; the focus and
/// exposure points of interest; the lens position, exposure bias, exposure
/// duration, ISO, aperture and zoom; the white-balance gains; and the
/// face-driven exposure, low-light boost and distortion-correction states.
/// Writes go through the mode and range controls only while they are
/// writable.
pub proof fn lemma_avf_controls_report_readings(c: CameraControl, r: AvfReadout, k: int)
    requires
        0 <= k < 16,
        is_avf_control(c, r, k),
    ensures
        k == 0 ==> c.control == KnownCameraControl::Focus && c.description is Enum
            && c.description->Enum_value == r.focus_mode,
        k == 1 ==> c.control == KnownCameraControl::Other(0) && c.description is Point
            && c.description->Point_x == r.focus_poi_x && c.description->Point_y == r.focus_poi_y,
        k == 2 ==> c.control == KnownCameraControl::Other(1) && c.description is FloatRange
            && c.description->FloatRange_value == r.lens_position,
        k == 3 ==> c.control == KnownCameraControl::Exposure && c.description is Enum
            && c.description->Enum_value == r.exposure_mode,
        k == 4 ==> c.control == KnownCameraControl::Other(2) && c.description is Point
            && c.description->Point_x == r.exposure_poi_x && c.description->Point_y
            == r.exposure_poi_y,
        k == 5 ==> c.control == KnownCameraControl::Other(3) && c.description is Boolean
            && c.description->Boolean_value == r.face_driven,
        k == 6 ==> c.control == KnownCameraControl::Other(4) && c.description is FloatRange
            && c.description->FloatRange_value == r.bias && c.description->FloatRange_min
            == r.bias_min && c.description->FloatRange_max == r.bias_max,
        k == 7 ==> c.control == KnownCameraControl::Gamma && c.description is IntegerRange
            && c.description->IntegerRange_value == r.duration && c.description->IntegerRange_min
            == r.duration_min && c.description->IntegerRange_max == r.duration_max,
        k == 8 ==> c.control == KnownCameraControl::Brightness && c.description is FloatRange
            && c.description->FloatRange_value == r.iso && c.description->FloatRange_min
            == r.iso_min && c.description->FloatRange_max == r.iso_max,
        k == 9 ==> c.control == KnownCameraControl::Iris && c.description is Float
            && c.description->Float_value == r.lens_aperture,
        k == 10 ==> c.control == KnownCameraControl::WhiteBalance && c.description is Enum
            && c.description->Enum_value == r.white_balance_mode,
        k == 11 ==> c.control == KnownCameraControl::Gain && c.description is RGB
            && c.description->red == r.gains.0 && c.description->green == r.gains.1
            && c.description->blue == r.gains.2,
        k == 12 ==> c.control == KnownCameraControl::Other(5) && c.description is Enum
            && c.description->Enum_value == r.torch_mode,
        k == 13 ==> c.control == KnownCameraControl::BacklightComp && c.description is Boolean
            && c.description->Boolean_value == r.low_light_boost_enabled,
        k == 14 ==> c.control == KnownCameraControl::Zoom && c.description is FloatRange
            && c.description->FloatRange_value == r.zoom && c.description->FloatRange_min
            == r.zoom_min && c.description->FloatRange_max == r.zoom_max,
        k == 15 ==> c.control == KnownCameraControl::Other(6) && c.description is Boolean
            && c.description->Boolean_value == r.distortion_correction_enabled,
        (k == 7 || k == 8) ==> (c.flag@.contains(KnownCameraControlFlag::ReadOnly) <==> r.exposure_mode
            != EXPOSURE_MODE_CUSTOM),
{
    if k == 7 || k == 8 {
        if r.exposure_mode == EXPOSURE_MODE_CUSTOM {
            assert(c.flag@ == seq![KnownCameraControlFlag::Volatile]);
            assert(!c.flag@.contains(KnownCameraControlFlag::ReadOnly)) by {
                if c.flag@.contains(KnownCameraControlFlag::ReadOnly) {
                    let i = choose|i: int| 0 <= i < c.flag@.len() && c.flag@[i]
                        == KnownCameraControlFlag::ReadOnly;
                }
            }
        } else {
            assert(c.flag@[0] == KnownCameraControlFlag::ReadOnly);
        }
    }
}
} // verus!
