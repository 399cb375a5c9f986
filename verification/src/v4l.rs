//! Video4Linux: control ids, pixel-format tokens, frame-interval and
//! frame-size expansion, and the decisions the capture device takes on the
//! values the driver reports.
use vstd::prelude::*;

use crate::formats::{camera_format_debug, camera_format_debug_text, spec_fulfill, RequestedFormat};
use crate::sorted::{frame_formats_sorted, sorted_distinct_frame_formats};
use crate::text::{decimal, u32_text};
use crate::types::{
    is_get_property_error, is_set_property_error, setter_eq, setters_equal,
    spec_control_from_index, spec_control_index, spec_control_name, spec_description_value,
    spec_setter_text, CameraControl, CameraFormat, CameraIndex, CameraInfo,
    ControlValueDescription, ControlValueSetter, FrameFormat, KnownCameraControl,
    KnownCameraControlFlag, NokhwaError, Resolution,
};

verus! {

/// First id of the user control class (`V4L2_CID_BASE`).
pub const V4L2_CID_BASE: u32 = 0x0098_0900;

/// First id of the camera control class (`V4L2_CID_CAMERA_CLASS_BASE`).
pub const V4L2_CID_CAMERA_CLASS_BASE: u32 = 0x009a_0900;

/// The V4L2 control id of each standard control, in canonical control
/// order: brightness, contrast, hue, saturation, sharpness, gamma,
/// white-balance temperature, backlight compensation, gain, relative pan,
/// relative tilt, relative zoom, exposure, relative iris, relative focus.
pub open spec fn v4l2_control_id(i: nat) -> u32 {
    if i == 0 {
        (V4L2_CID_BASE + 0) as u32
    } else if i == 1 {
        (V4L2_CID_BASE + 1) as u32
    } else if i == 2 {
        (V4L2_CID_BASE + 3) as u32
    } else if i == 3 {
        (V4L2_CID_BASE + 2) as u32
    } else if i == 4 {
        (V4L2_CID_BASE + 27) as u32
    } else if i == 5 {
        (V4L2_CID_BASE + 16) as u32
    } else if i == 6 {
        (V4L2_CID_BASE + 26) as u32
    } else if i == 7 {
        (V4L2_CID_BASE + 28) as u32
    } else if i == 8 {
        (V4L2_CID_BASE + 19) as u32
    } else if i == 9 {
        (V4L2_CID_CAMERA_CLASS_BASE + 4) as u32
    } else if i == 10 {
        (V4L2_CID_CAMERA_CLASS_BASE + 5) as u32
    } else if i == 11 {
        (V4L2_CID_CAMERA_CLASS_BASE + 14) as u32
    } else if i == 12 {
        (V4L2_CID_BASE + 17) as u32
    } else if i == 13 {
        (V4L2_CID_CAMERA_CLASS_BASE + 18) as u32
    } else {
        (V4L2_CID_CAMERA_CLASS_BASE + 11) as u32
    }
}

/// The id a control is set and read under: the table entry of a standard
/// control, the low 32 bits of an `Other` id.
pub open spec fn spec_known_to_id(c: KnownCameraControl) -> u32 {
    match c {
        KnownCameraControl::Other(v) => v as u32,
        _ => v4l2_control_id(spec_control_index(c).unwrap()),
    }
}

/// The first table position holding `id` at or after `from`, if any.
pub open spec fn table_position(id: u32, from: nat) -> Option<nat>
    decreases 15 - from,
{
    if from >= 15 {
        None
    } else if v4l2_control_id(from) == id {
        Some(from)
    } else {
        table_position(id, from + 1)
    }
}

/// The control an id designates: the standard control whose table entry it
/// is, else `Other(id)`.
pub open spec fn spec_id_to_known(id: u32) -> KnownCameraControl {
    match table_position(id, 0) {
        Some(i) => spec_control_from_index(i).unwrap(),
        None => KnownCameraControl::Other(id as u128),
    }
}

/// The table entry at canonical position `i`.
pub fn control_id_at(i: u8) -> (id: u32)
    requires
        i < 15,
    ensures
        id == v4l2_control_id(i as nat),
{
    match i {
        0 => V4L2_CID_BASE,
        1 => V4L2_CID_BASE + 1,
        2 => V4L2_CID_BASE + 3,
        3 => V4L2_CID_BASE + 2,
        4 => V4L2_CID_BASE + 27,
        5 => V4L2_CID_BASE + 16,
        6 => V4L2_CID_BASE + 26,
        7 => V4L2_CID_BASE + 28,
        8 => V4L2_CID_BASE + 19,
        9 => V4L2_CID_CAMERA_CLASS_BASE + 4,
        10 => V4L2_CID_CAMERA_CLASS_BASE + 5,
        11 => V4L2_CID_CAMERA_CLASS_BASE + 14,
        12 => V4L2_CID_BASE + 17,
        13 => V4L2_CID_CAMERA_CLASS_BASE + 18,
        _ => V4L2_CID_CAMERA_CLASS_BASE + 11,
    }
}

/// Converts a control into its V4L2 control id; an `Other` id is
/// truncated to 32 bits.
pub fn known_camera_control_to_id(ctrl: KnownCameraControl) -> (id: u32)
    ensures
        id == spec_known_to_id(ctrl),
{
    match ctrl.as_index() {
        Some(i) => control_id_at(i),
        None => match ctrl {
            KnownCameraControl::Other(v) => v as u32,
            _ => 0,
        },
    }
}

/// Converts a V4L2 control id into a control; ids outside the table come
/// back as `Other(id)`.
pub fn id_to_known_camera_control(id: u32) -> (c: KnownCameraControl)
    ensures
        c == spec_id_to_known(id),
{
    let mut i: u8 = 0;
    while i < 15
        invariant
            i <= 15,
            table_position(id, 0) == table_position(id, i as nat),
        decreases 15 - i,
    {
        if control_id_at(i) == id {
            return KnownCameraControl::from_index(i).unwrap();
        }
        i = i + 1;
    }
    KnownCameraControl::Other(id as u128)
}

/// Every standard control survives the trip to its V4L2 id and back, and
/// an `Other` id that fits in 32 bits and names no standard control
/// survives it too.
pub proof fn lemma_control_id_round_trip(c: KnownCameraControl)
    ensures
        spec_control_index(c) is Some ==> spec_id_to_known(spec_known_to_id(c)) == c,
        c matches KnownCameraControl::Other(v) ==> (v < 0x1_0000_0000 && table_position(
            v as u32,
            0,
        ) is None ==> spec_id_to_known(spec_known_to_id(c)) == c),
{
    reveal_with_fuel(table_position, 16);
}

/// The kernel's four-byte token of a pixel format.
pub open spec fn spec_fourcc(f: FrameFormat) -> Seq<u8> {
    match f {
        FrameFormat::MJPEG => seq![0x4Du8, 0x4Au8, 0x50u8, 0x47u8],
        FrameFormat::YUYV => seq![0x59u8, 0x55u8, 0x59u8, 0x56u8],
        FrameFormat::NV12 => seq![0x4Eu8, 0x56u8, 0x31u8, 0x32u8],
        FrameFormat::GRAY => seq![0x47u8, 0x52u8, 0x45u8, 0x59u8],
        FrameFormat::RAWRGB => seq![0x52u8, 0x47u8, 0x42u8, 0x33u8],
        FrameFormat::RAWBGR => seq![0x42u8, 0x47u8, 0x52u8, 0x33u8],
    }
}

/// The format a four-byte token names: `MJPG`, `YUYV`, `NV12`, `RGB3`,
/// `BGR3`, and grayscale under both the kernel's `GREY` and the canonical
/// `GRAY`; any other token names none.
pub open spec fn spec_fourcc_to_frameformat(b: Seq<u8>) -> Option<FrameFormat> {
    if b == spec_fourcc(FrameFormat::MJPEG) {
        Some(FrameFormat::MJPEG)
    } else if b == spec_fourcc(FrameFormat::YUYV) {
        Some(FrameFormat::YUYV)
    } else if b == spec_fourcc(FrameFormat::NV12) {
        Some(FrameFormat::NV12)
    } else if b == spec_fourcc(FrameFormat::GRAY) || b == seq![0x47u8, 0x52u8, 0x41u8, 0x59u8] {
        Some(FrameFormat::GRAY)
    } else if b == spec_fourcc(FrameFormat::RAWRGB) {
        Some(FrameFormat::RAWRGB)
    } else if b == spec_fourcc(FrameFormat::RAWBGR) {
        Some(FrameFormat::RAWBGR)
    } else {
        None
    }
}

fn same_token(a: &[u8; 4], b0: u8, b1: u8, b2: u8, b3: u8) -> (r: bool)
    ensures
        r == (a@ == seq![b0, b1, b2, b3]),
{
    let r = a[0] == b0 && a[1] == b1 && a[2] == b2 && a[3] == b3;
    proof {
        if r {
            assert(a@ =~= seq![b0, b1, b2, b3]);
        } else if a@ == seq![b0, b1, b2, b3] {
            assert(a@[0] == b0 && a@[1] == b1 && a@[2] == b2 && a@[3] == b3);
        }
    }
    r
}

/// The format a V4L2 pixel-format token names.
pub fn fourcc_to_frameformat(fourcc: [u8; 4]) -> (f: Option<FrameFormat>)
    ensures
        f == spec_fourcc_to_frameformat(fourcc@),
{
    if same_token(&fourcc, 0x4D, 0x4A, 0x50, 0x47) {
        Some(FrameFormat::MJPEG)
    } else if same_token(&fourcc, 0x59, 0x55, 0x59, 0x56) {
        Some(FrameFormat::YUYV)
    } else if same_token(&fourcc, 0x4E, 0x56, 0x31, 0x32) {
        Some(FrameFormat::NV12)
    } else if same_token(&fourcc, 0x47, 0x52, 0x45, 0x59) || same_token(
        &fourcc,
        0x47,
        0x52,
        0x41,
        0x59,
    ) {
        Some(FrameFormat::GRAY)
    } else if same_token(&fourcc, 0x52, 0x47, 0x42, 0x33) {
        Some(FrameFormat::RAWRGB)
    } else if same_token(&fourcc, 0x42, 0x47, 0x52, 0x33) {
        Some(FrameFormat::RAWBGR)
    } else {
        None
    }
}

/// The token a format is submitted to the driver under; grayscale goes as
/// the kernel's `GREY`.
pub fn frameformat_to_fourcc(format: FrameFormat) -> (b: [u8; 4])
    ensures
        b@ == spec_fourcc(format),
{
    let b: [u8; 4] = match format {
        FrameFormat::MJPEG => [0x4D, 0x4A, 0x50, 0x47],
        FrameFormat::YUYV => [0x59, 0x55, 0x59, 0x56],
        FrameFormat::NV12 => [0x4E, 0x56, 0x31, 0x32],
        FrameFormat::GRAY => [0x47, 0x52, 0x45, 0x59],
        FrameFormat::RAWRGB => [0x52, 0x47, 0x42, 0x33],
        FrameFormat::RAWBGR => [0x42, 0x47, 0x52, 0x33],
    };
    assert(b@ =~= spec_fourcc(format));
    b
}

/// Every format survives the trip to its token and back.
pub proof fn lemma_fourcc_round_trip(f: FrameFormat)
    ensures
        spec_fourcc_to_frameformat(spec_fourcc(f)) == Some(f),
{
    let m = spec_fourcc(FrameFormat::MJPEG);
    let y = spec_fourcc(FrameFormat::YUYV);
    let n = spec_fourcc(FrameFormat::NV12);
    let g = spec_fourcc(FrameFormat::GRAY);
    let r = spec_fourcc(FrameFormat::RAWRGB);
    let b = spec_fourcc(FrameFormat::RAWBGR);
    let ga = seq![0x47u8, 0x52u8, 0x41u8, 0x59u8];
    assert(m[0] != y[0] && m[0] != n[0] && m[1] != g[1] && m[0] != r[0] && m[0] != b[0]);
    assert(y[0] != n[0] && y[0] != g[0] && y[0] != r[0] && y[0] != b[0]);
    assert(n[0] != g[0] && n[0] != r[0] && n[0] != b[0]);
    assert(g[0] != r[0] && g[0] != b[0] && ga[0] != r[0] && ga[0] != b[0]);
    assert(r[0] != b[0]);
    assert(m[1] != ga[1]);
    assert(y[0] != ga[0] && n[0] != ga[0]);
}

/// A V4L2 fraction.
#[derive(Clone, Copy, Debug, PartialEq, Eq, Structural)]
pub struct Fraction {
    pub numerator: u32,
    pub denominator: u32,
}

/// A frame interval as the driver advertises it for one frame size.
#[derive(Clone, Copy, Debug, PartialEq, Eq, Structural)]
pub enum FrameInterval {
    Discrete(Fraction),
    Stepwise { min: Fraction, max: Fraction, step: Fraction },
}

/// The frame rates `first, first + step, ...` up to `last` inclusive.
pub open spec fn rate_ladder(first: u32, last: u32, step: u32) -> Seq<u32> {
    if first > last || step == 0 {
        Seq::empty()
    } else {
        Seq::new(
            ((last - first) / (step as int) + 1) as nat,
            |k: int| (first + k * step) as u32,
        )
    }
}

/// The camera formats an advertised interval yields at one resolution: a
/// discrete `1/d` interval yields `d` frames per second and any other
/// discrete interval nothing; a stepwise interval whose bounds both have
/// denominator one, or whose step numerator is zero, yields nothing, and
/// otherwise one format per rate of the ladder from the lower bound's
/// numerator to the upper bound's numerator by the step's numerator.
pub open spec fn spec_expand_frame_interval(
    interval: FrameInterval,
    resolution: Resolution,
    fmt: FrameFormat,
) -> Seq<CameraFormat> {
    match interval {
        FrameInterval::Discrete(d) => if d.numerator == 1 {
            seq![CameraFormat { resolution, format: fmt, frame_rate: d.denominator }]
        } else {
            Seq::empty()
        },
        FrameInterval::Stepwise { min, max, step } => if max.denominator == 1 && min.denominator
            == 1 {
            Seq::empty()
        } else {
            rate_ladder(min.numerator, max.numerator, step.numerator).map_values(
                |fps: u32| CameraFormat { resolution, format: fmt, frame_rate: fps },
            )
        },
    }
}

/// Expand an advertised frame interval into the camera formats it
/// represents at `resolution` in `fmt`.
pub fn expand_frame_interval(interval: FrameInterval, resolution: Resolution, fmt: FrameFormat) -> (r:
    Vec<CameraFormat>)
    ensures
        r@ == spec_expand_frame_interval(interval, resolution, fmt),
{
    match interval {
        FrameInterval::Discrete(d) => {
            if d.numerator == 1 {
                let r = vec![CameraFormat::new(resolution, fmt, d.denominator)];
                assert(r@ =~= spec_expand_frame_interval(interval, resolution, fmt));
                r
            } else {
                Vec::new()
            }
        },
        FrameInterval::Stepwise { min, max, step } => {
            let mut r: Vec<CameraFormat> = Vec::new();
            if max.denominator == 1 && min.denominator == 1 {
                return r;
            }
            if step.numerator == 0 || min.numerator > max.numerator {
                assert(r@ =~= spec_expand_frame_interval(interval, resolution, fmt));
                return r;
            }
            let first = min.numerator;
            let last = max.numerator;
            let st = step.numerator;
            let ghost ladder = rate_ladder(first, last, st);
            let mut fps: u64 = first as u64;
            while fps <= last as u64
                invariant
                    first <= last,
                    st > 0,
                    ladder == rate_ladder(first, last, st),
                    fps == first + r@.len() * st,
                    r@.len() <= ladder.len(),
                    fps <= last ==> r@.len() < ladder.len(),
                    fps > last ==> r@.len() == ladder.len(),
                    forall|k: int|
                        0 <= k < r@.len() ==> #[trigger] r@[k] == (CameraFormat {
                            resolution,
                            format: fmt,
                            frame_rate: ladder[k],
                        }),
                decreases ladder.len() - r@.len(),
            {
                let ghost k = r@.len() as int;
                r.push(CameraFormat::new(resolution, fmt, fps as u32));
                proof {
                    assert(ladder[k] == (first + k * st) as u32);
                }
                fps = fps + st as u64;
                proof {
                    let len = ladder.len() as int;
                    assert(len == (last - first) / (st as int) + 1);
                    assert((k + 1) * st == k * st + st) by (nonlinear_arith);
                    if fps <= last {
                        assert(k + 1 < len) by (nonlinear_arith)
                            requires
                                fps == first + (k + 1) * st,
                                fps <= last,
                                len == (last - first) / (st as int) + 1,
                                st > 0,
                                first <= last,
                        ;
                    } else {
                        assert(k + 1 >= len) by (nonlinear_arith)
                            requires
                                fps == first + (k + 1) * st,
                                fps > last,
                                first + k * st <= last,
                                len == (last - first) / (st as int) + 1,
                                st > 0,
                                first <= last,
                        ;
                    }
                }
            }
            assert(r@ =~= spec_expand_frame_interval(interval, resolution, fmt));
            r
        },
    }
}

/// Seconds per frame `1/d` is `d` frames per second; any other fraction is
/// refused as not a whole rate.
pub open spec fn spec_interval_to_fps(interval: Fraction, r: Result<u32, NokhwaError>) -> bool {
    if interval.numerator == 1 {
        r == Ok::<u32, NokhwaError>(interval.denominator)
    } else {
        r matches Err(e) && is_fps_error(e, interval)
    }
}

/// The error for a frame interval that is not a whole rate.
pub open spec fn is_fps_error(e: NokhwaError, interval: Fraction) -> bool {
    is_get_property_error(
        e,
        "V4L2 FrameRate"@,
        "Framerate not whole number: "@ + decimal(interval.denominator as nat) + " / "@ + decimal(
            interval.numerator as nat,
        ),
    )
}

/// Decode a V4L2 frame interval (seconds per frame) into whole frames per
/// second.
pub fn interval_to_fps(interval: Fraction) -> (r: Result<u32, NokhwaError>)
    ensures
        spec_interval_to_fps(interval, r),
{
    if interval.numerator != 1 {
        let error = String::from_str("Framerate not whole number: ").concat(
            u32_text(interval.denominator).as_str(),
        ).concat(" / ").concat(u32_text(interval.numerator).as_str());
        return Err(
            NokhwaError::GetPropertyError { property: String::from_str("V4L2 FrameRate"), error },
        );
    }
    Ok(interval.denominator)
}


/// The common presets offered inside a stepwise frame-size range, in
/// ascending area order.
pub open spec fn common_resolutions() -> Seq<Resolution> {
    seq![
        Resolution { width_x: 320, height_y: 240 },
        Resolution { width_x: 640, height_y: 480 },
        Resolution { width_x: 800, height_y: 600 },
        Resolution { width_x: 1024, height_y: 768 },
        Resolution { width_x: 1280, height_y: 720 },
        Resolution { width_x: 1280, height_y: 960 },
        Resolution { width_x: 1920, height_y: 1080 },
        Resolution { width_x: 2560, height_y: 1440 },
        Resolution { width_x: 3840, height_y: 2160 },
    ]
}

fn common_resolution_at(i: usize) -> (r: Resolution)
    requires
        i < 9,
    ensures
        r == common_resolutions()[i as int],
{
    match i {
        0 => Resolution::new(320, 240),
        1 => Resolution::new(640, 480),
        2 => Resolution::new(800, 600),
        3 => Resolution::new(1024, 768),
        4 => Resolution::new(1280, 720),
        5 => Resolution::new(1280, 960),
        6 => Resolution::new(1920, 1080),
        7 => Resolution::new(2560, 1440),
        _ => Resolution::new(3840, 2160),
    }
}

/// `v` lies on the grid `base, base + step, ...`; a zero step accepts
/// every value.
pub open spec fn aligns(v: u32, base: u32, step: u32) -> bool {
    step == 0 || (v - base) % (step as int) == 0
}

/// A preset is offered when it fits the range on both axes and lies on
/// both step grids.
pub open spec fn preset_fits(
    r: Resolution,
    min_w: u32,
    max_w: u32,
    step_w: u32,
    min_h: u32,
    max_h: u32,
    step_h: u32,
) -> bool {
    &&& min_w <= r.width_x <= max_w
    &&& min_h <= r.height_y <= max_h
    &&& aligns(r.width_x, min_w, step_w)
    &&& aligns(r.height_y, min_h, step_h)
}

/// The resolutions a stepwise advertisement contributes, before duplicates
/// are dropped: the lower corner, the fitting presets in order, the upper
/// corner.
pub open spec fn stepwise_candidates(
    min_w: u32,
    max_w: u32,
    step_w: u32,
    min_h: u32,
    max_h: u32,
    step_h: u32,
) -> Seq<Resolution> {
    seq![Resolution { width_x: min_w, height_y: min_h }] + common_resolutions().filter(
        |r: Resolution| preset_fits(r, min_w, max_w, step_w, min_h, max_h, step_h),
    ) + seq![Resolution { width_x: max_w, height_y: max_h }]
}

/// `s` with each item of `items` appended in order unless already present.
pub open spec fn push_all_unique(s: Seq<Resolution>, items: Seq<Resolution>) -> Seq<Resolution>
    decreases items.len(),
{
    if items.len() == 0 {
        s
    } else {
        let t = push_all_unique(s, items.drop_last());
        if t.contains(items.last()) {
            t
        } else {
            t.push(items.last())
        }
    }
}

fn push_unique(v: &mut Vec<Resolution>, r: Resolution)
    ensures
        final(v)@ == (if old(v)@.contains(r) {
            old(v)@
        } else {
            old(v)@.push(r)
        }),
{
    let mut i: usize = 0;
    while i < v.len()
        invariant
            i <= v@.len(),
            *v == *old(v),
            forall|k: int| 0 <= k < i ==> v@[k] != r,
        decreases v@.len() - i,
    {
        if v[i].width_x == r.width_x && v[i].height_y == r.height_y {
            assert(v@[i as int] == r);
            return;
        }
        i = i + 1;
    }
    v.push(r);
}

proof fn lemma_push_all_unique_step(s: Seq<Resolution>, items: Seq<Resolution>, x: Resolution)
    ensures
        push_all_unique(s, items.push(x)) == (if push_all_unique(s, items).contains(x) {
            push_all_unique(s, items)
        } else {
            push_all_unique(s, items).push(x)
        }),
{
    assert(items.push(x).drop_last() =~= items);
}

/// Append what a stepwise frame-size advertisement offers to `out`: the
/// lower corner, every common preset that fits the range on both axes and
/// lies on both step grids, and the upper corner, each unless `out`
/// already holds it.
pub fn expand_stepwise_resolutions(
    min_w: u32,
    max_w: u32,
    step_w: u32,
    min_h: u32,
    max_h: u32,
    step_h: u32,
    out: &mut Vec<Resolution>,
)
    ensures
        final(out)@ == push_all_unique(
            old(out)@,
            stepwise_candidates(min_w, max_w, step_w, min_h, max_h, step_h),
        ),
{
    let ghost presets = common_resolutions();
    let ghost fits = |r: Resolution| preset_fits(r, min_w, max_w, step_w, min_h, max_h, step_h);
    let ghost low = seq![Resolution { width_x: min_w, height_y: min_h }];
    let ghost start = old(out)@;
    push_unique(out, Resolution::new(min_w, min_h));
    proof {
        lemma_push_all_unique_step(start, Seq::empty(), low[0]);
        assert(Seq::<Resolution>::empty().push(low[0]) =~= low);
        assert(presets.take(0).filter(fits) =~= Seq::<Resolution>::empty());
        assert(low + presets.take(0).filter(fits) =~= low);
    }
    let mut i: usize = 0;
    while i < 9
        invariant
            i <= 9,
            presets == common_resolutions(),
            fits == (|r: Resolution| preset_fits(r, min_w, max_w, step_w, min_h, max_h, step_h)),
            low == seq![Resolution { width_x: min_w, height_y: min_h }],
            out@ == push_all_unique(start, low + presets.take(i as int).filter(fits)),
        decreases 9 - i,
    {
        let r = common_resolution_at(i);
        let w = r.width_x;
        let h = r.height_y;
        let fit = w >= min_w && w <= max_w && h >= min_h && h <= max_h && (step_w == 0 || (w
            - min_w) % step_w == 0) && (step_h == 0 || (h - min_h) % step_h == 0);
        proof {
            assert(presets.take(i + 1) =~= presets.take(i as int).push(r));
            presets.take(i as int).lemma_filter_push(r, fits);
        }
        if fit {
            proof {
                assert(fits(r));
                assert(low + presets.take(i + 1).filter(fits) =~= (low + presets.take(
                    i as int,
                ).filter(fits)).push(r));
                lemma_push_all_unique_step(start, low + presets.take(i as int).filter(fits), r);
            }
            push_unique(out, r);
        } else {
            proof {
                assert(!fits(r));
                assert(low + presets.take(i + 1).filter(fits) =~= low + presets.take(
                    i as int,
                ).filter(fits));
            }
        }
        i = i + 1;
    }
    let ghost mid = low + presets.take(9).filter(fits);
    proof {
        assert(presets.take(9) =~= presets);
        lemma_push_all_unique_step(start, mid, Resolution { width_x: max_w, height_y: max_h });
        assert(mid.push(Resolution { width_x: max_w, height_y: max_h }) =~= stepwise_candidates(
            min_w,
            max_w,
            step_w,
            min_h,
            max_h,
            step_h,
        ));
    }
    push_unique(out, Resolution::new(max_w, max_h));
}


/// Data type of a V4L2 control.
#[derive(Clone, Copy, Debug, PartialEq, Eq, Structural)]
pub enum ControlType {
    Integer,
    Boolean,
    Menu,
    Button,
    Integer64,
    CtrlClass,
    String,
    Bitmask,
    IntegerMenu,
    U8,
    U16,
    U32,
    Area,
}

/// A control value as the driver reads or writes it.
#[derive(Clone, Debug)]
pub enum ControlValue {
    NoValue,
    Integer(i64),
    Boolean(bool),
    String(String),
    CompoundU8(Vec<u8>),
    CompoundU16(Vec<u16>),
    CompoundU32(Vec<u32>),
    CompoundPtr(Vec<u8>),
}

/// What the driver reports of one control.
#[derive(Clone, Debug)]
pub struct ControlDescriptor {
    pub id: u32,
    pub typ: ControlType,
    pub name: String,
    pub minimum: i64,
    pub maximum: i64,
    pub step: u64,
    pub default: i64,
    pub flags: u32,
}

/// Control flag bits (`V4L2_CTRL_FLAG_*`).
pub const FLAG_DISABLED: u32 = 0x0001;

pub const FLAG_READ_ONLY: u32 = 0x0004;

pub const FLAG_INACTIVE: u32 = 0x0010;

pub const FLAG_WRITE_ONLY: u32 = 0x0040;

pub const FLAG_VOLATILE: u32 = 0x0080;

/// The flags a control is reported with: read-only, write-only, volatile,
/// then disabled, which stands both for a permanently disabled control and
/// for one another control currently gates; each at most once.
pub open spec fn spec_control_flags(flags: u32) -> Seq<KnownCameraControlFlag> {
    (if flags & FLAG_READ_ONLY != 0 {
        seq![KnownCameraControlFlag::ReadOnly]
    } else {
        Seq::empty()
    }) + (if flags & FLAG_WRITE_ONLY != 0 {
        seq![KnownCameraControlFlag::WriteOnly]
    } else {
        Seq::empty()
    }) + (if flags & FLAG_VOLATILE != 0 {
        seq![KnownCameraControlFlag::Volatile]
    } else {
        Seq::empty()
    }) + (if flags & (FLAG_DISABLED | FLAG_INACTIVE) != 0 {
        seq![KnownCameraControlFlag::Disabled]
    } else {
        Seq::empty()
    })
}

/// The description of a control whose reported type matches its current
/// value: integer-like types with an integer give the range (a step beyond
/// `i64` saturates), a boolean gives the boolean with a nonzero default
/// read as true, a string gives the string with no default. Any other pair
/// gives none.
pub open spec fn spec_value_description(d: ControlDescriptor, v: ControlValue) -> Option<
    ControlValueDescription,
> {
    match v {
        ControlValue::Integer(current) => match d.typ {
            ControlType::Integer | ControlType::Integer64 | ControlType::Menu | ControlType::U8
            | ControlType::U16 | ControlType::U32 | ControlType::IntegerMenu => Some(
                ControlValueDescription::IntegerRange {
                    min: d.minimum,
                    max: d.maximum,
                    value: current,
                    step: if d.step <= i64::MAX {
                        d.step as i64
                    } else {
                        i64::MAX
                    },
                    default: d.default,
                },
            ),
            _ => None,
        },
        ControlValue::Boolean(current) => if d.typ == ControlType::Boolean {
            Some(ControlValueDescription::Boolean { value: current, default: d.default != 0 })
        } else {
            None
        },
        ControlValue::String(current) => if d.typ == ControlType::String {
            Some(ControlValueDescription::String { value: current, default: None })
        } else {
            None
        },
        _ => None,
    }
}

/// `c` is the control that descriptor `d` with current value `v` yields.
pub open spec fn is_control_of(c: CameraControl, d: ControlDescriptor, v: ControlValue) -> bool {
    &&& spec_value_description(d, v) == Some(c.description)
    &&& c.control == spec_id_to_known(d.id)
    &&& c.name@ == d.name@
    &&& c.flag@ == spec_control_flags(d.flags)
    &&& c.active == (d.flags & FLAG_INACTIVE == 0)
}

fn flag_list(flags: u32) -> (r: Vec<KnownCameraControlFlag>)
    ensures
        r@ == spec_control_flags(flags),
{
    let mut r: Vec<KnownCameraControlFlag> = Vec::new();
    if flags & FLAG_READ_ONLY != 0 {
        r.push(KnownCameraControlFlag::ReadOnly);
    }
    if flags & FLAG_WRITE_ONLY != 0 {
        r.push(KnownCameraControlFlag::WriteOnly);
    }
    if flags & FLAG_VOLATILE != 0 {
        r.push(KnownCameraControlFlag::Volatile);
    }
    if flags & (FLAG_DISABLED | FLAG_INACTIVE) != 0 {
        r.push(KnownCameraControlFlag::Disabled);
    }
    assert(r@ =~= spec_control_flags(flags));
    r
}

/// The control a descriptor and its current value describe, or `None` when
/// the reported type and the value disagree.
pub fn control_from_descriptor(d: &ControlDescriptor, current: &ControlValue) -> (r: Option<
    CameraControl,
>)
    ensures
        r is None <==> spec_value_description(*d, *current) is None,
        r matches Some(c) ==> is_control_of(c, *d, *current),
{
    let description = match current {
        ControlValue::Integer(v) => match d.typ {
            ControlType::Integer | ControlType::Integer64 | ControlType::Menu | ControlType::U8
            | ControlType::U16 | ControlType::U32 | ControlType::IntegerMenu => {
                ControlValueDescription::IntegerRange {
                    min: d.minimum,
                    max: d.maximum,
                    value: *v,
                    step: if d.step <= i64::MAX as u64 {
                        d.step as i64
                    } else {
                        i64::MAX
                    },
                    default: d.default,
                }
            },
            _ => {
                return None;
            },
        },
        ControlValue::Boolean(v) => {
            if d.typ == ControlType::Boolean {
                ControlValueDescription::Boolean { value: *v, default: d.default != 0 }
            } else {
                return None;
            }
        },
        ControlValue::String(v) => {
            if d.typ == ControlType::String {
                ControlValueDescription::String { value: v.clone(), default: None }
            } else {
                return None;
            }
        },
        _ => {
            return None;
        },
    };
    Some(
        CameraControl {
            control: id_to_known_camera_control(d.id),
            name: d.name.clone(),
            description,
            flag: flag_list(d.flags),
            active: d.flags & FLAG_INACTIVE == 0,
        },
    )
}

/// A descriptor whose current value could be read and agrees with its
/// type.
pub open spec fn readout_usable(r: (ControlDescriptor, Option<ControlValue>)) -> bool {
    r.1 matches Some(v) && spec_value_description(r.0, v) is Some
}

/// The controls of a device: one per descriptor whose value could be read
/// and agrees with its type, in descriptor order; the others are skipped.
pub fn collect_controls(readouts: &Vec<(ControlDescriptor, Option<ControlValue>)>) -> (r: Vec<
    CameraControl,
>)
    ensures
        r@.len() == readouts@.filter(|x| readout_usable(x)).len(),
        forall|k: int|
            0 <= k < r@.len() ==> is_control_of(
                #[trigger] r@[k],
                readouts@.filter(|x| readout_usable(x))[k].0,
                readouts@.filter(|x| readout_usable(x))[k].1.unwrap(),
            ),
{
    let ghost usable = |x: (ControlDescriptor, Option<ControlValue>)| readout_usable(x);
    let mut r: Vec<CameraControl> = Vec::new();
    let mut i: usize = 0;
    while i < readouts.len()
        invariant
            i <= readouts@.len(),
            usable == (|x: (ControlDescriptor, Option<ControlValue>)| readout_usable(x)),
            r@.len() == readouts@.take(i as int).filter(usable).len(),
            forall|k: int|
                0 <= k < r@.len() ==> is_control_of(
                    #[trigger] r@[k],
                    readouts@.take(i as int).filter(usable)[k].0,
                    readouts@.take(i as int).filter(usable)[k].1.unwrap(),
                ),
        decreases readouts@.len() - i,
    {
        let ghost pre = readouts@.take(i as int);
        proof {
            assert(readouts@.take(i + 1) =~= pre.push(readouts@[i as int]));
            pre.lemma_filter_push(readouts@[i as int], usable);
        }
        let (d, v) = &readouts[i];
        match v {
            Some(value) => {
                match control_from_descriptor(d, value) {
                    Some(c) => {
                        r.push(c);
                    },
                    None => {},
                }
            },
            None => {},
        }
        i = i + 1;
    }
    assert(readouts@.take(readouts@.len() as int) =~= readouts@);
    r
}

/// The value the driver is given for a setter: none, integers, booleans,
/// strings and byte arrays pass; any other setter is refused.
pub open spec fn spec_setter_value(
    id: KnownCameraControl,
    value: ControlValueSetter,
    r: Result<ControlValue, NokhwaError>,
) -> bool {
    match value {
        ControlValueSetter::NoValue => r matches Ok(v) && v is NoValue,
        ControlValueSetter::Integer(i) => r matches Ok(v) && v == ControlValue::Integer(i),
        ControlValueSetter::Boolean(b) => r matches Ok(v) && v == ControlValue::Boolean(b),
        ControlValueSetter::String(s) => r matches Ok(v) && v matches ControlValue::String(t) && t@
            == s@,
        ControlValueSetter::Bytes(b) => r matches Ok(v) && v matches ControlValue::CompoundU8(c)
            && c@ == b@,
        _ => r matches Err(e) && e matches NokhwaError::SetPropertyError {
            property,
            value: shown,
            error,
        } && property@ == spec_control_name(id) && shown@ == spec_setter_text(value) && error@
            == "not supported"@,
    }
}

/// Convert a setter into the value written to the driver.
pub fn setter_to_value(id: KnownCameraControl, value: &ControlValueSetter) -> (r: Result<
    ControlValue,
    NokhwaError,
>)
    ensures
        spec_setter_value(id, *value, r),
{
    match value {
        ControlValueSetter::NoValue => Ok(ControlValue::NoValue),
        ControlValueSetter::Integer(i) => Ok(ControlValue::Integer(*i)),
        ControlValueSetter::Boolean(b) => Ok(ControlValue::Boolean(*b)),
        ControlValueSetter::String(s) => Ok(ControlValue::String(s.clone())),
        ControlValueSetter::Bytes(b) => {
            let c = b.clone();
            proof {
                assert forall|k: int| 0 <= k < b@.len() implies c@[k] == b@[k] by {
                    assert(cloned::<u8>(b[k], c[k]));
                }
                assert(c@ =~= b@);
            }
            Ok(ControlValue::CompoundU8(c))
        },
        _ => Err(
            NokhwaError::SetPropertyError {
                property: id.name(),
                value: value.text(),
                error: String::from_str("not supported"),
            },
        ),
    }
}

/// Position `i` holds the first descriptor of `s` with id `id`.
pub open spec fn first_descriptor_at(s: Seq<ControlDescriptor>, id: u32, i: int) -> bool {
    &&& 0 <= i < s.len()
    &&& s[i].id == id
    &&& forall|j: int| 0 <= j < i ==> (#[trigger] s[j]).id != id
}

/// Whether a write to control `id` is exempt from read-back verification:
/// the first descriptor with that id is write-only or volatile. Without
/// descriptors, or without one for `id`, the write is verified.
pub open spec fn spec_skip_read_back(descs: Option<Seq<ControlDescriptor>>, id: u32) -> bool {
    match descs {
        None => false,
        Some(s) => exists|i: int| #[trigger] first_descriptor_at(s, id, i) && s[i].flags & (
        FLAG_WRITE_ONLY | FLAG_VOLATILE) != 0,
    }
}

/// Decide whether a write must be read back.
pub fn skip_read_back(descs: &Option<Vec<ControlDescriptor>>, id: u32) -> (skip: bool)
    ensures
        skip == spec_skip_read_back(
            match descs {
                Some(v) => Some(v@),
                None => None,
            },
            id,
        ),
{
    match descs {
        None => false,
        Some(v) => {
            let mut i: usize = 0;
            while i < v.len()
                invariant
                    i <= v@.len(),
                    descs matches Some(w) && w@ == v@,
                    forall|j: int| 0 <= j < i ==> (#[trigger] v@[j]).id != id,
                decreases v@.len() - i,
            {
                if v[i].id == id {
                    let skip = v[i].flags & (FLAG_WRITE_ONLY | FLAG_VOLATILE) != 0;
                    proof {
                        if skip {
                            let ii = i as int;
                            assert(first_descriptor_at(v@, id, ii));
                        } else {
                            assert forall|k: int| #[trigger]
                                first_descriptor_at(v@, id, k) implies v@[k].flags & (
                            FLAG_WRITE_ONLY | FLAG_VOLATILE) == 0 by {
                                if k > i {
                                    assert(v@[i as int].id == id);
                                }
                            }
                        }
                    }
                    return skip;
                }
                i = i + 1;
            }
            false
        },
    }
}


/// The descriptor of the device node `/dev/video<index>`: named by the
/// driver when it gives a name, else by its path; described by its path.
pub fn device_info(name: Option<String>, path: String, index: usize) -> (info: CameraInfo)
    ensures
        info.human_name@ == (match name {
            Some(n) => n@,
            None => path@,
        }),
        info.description@ == "Video4Linux Device @ "@ + path@,
        info.misc@ == Seq::<char>::empty(),
        info.index == CameraIndex::Index(index as u32),
{
    let description = String::from_str("Video4Linux Device @ ").concat(path.as_str());
    let human_name = match name {
        Some(n) => n,
        None => path,
    };
    CameraInfo::new(human_name, description, String::new(), CameraIndex::Index(index as u32))
}

/// The format a device is running, from its pixel-format token, its frame
/// size and its frame-interval parameters (or the error reading them
/// gave): an unknown token is refused first, then a failed parameter read,
/// then a frame interval that is not a whole rate.
pub open spec fn spec_device_format(
    fourcc: Seq<u8>,
    width: u32,
    height: u32,
    params: Result<Fraction, String>,
    r: Result<CameraFormat, NokhwaError>,
) -> bool {
    match spec_fourcc_to_frameformat(fourcc) {
        None => r matches Err(e) && is_get_property_error(e, "FrameFormat"@, "unsupported"@),
        Some(f) => match params {
            Err(why) => r matches Err(e) && is_get_property_error(e, "V4L2 FrameRate"@, why@),
            Ok(interval) => if interval.numerator == 1 {
                r == Ok::<CameraFormat, NokhwaError>(
                    CameraFormat {
                        resolution: Resolution { width_x: width, height_y: height },
                        format: f,
                        frame_rate: interval.denominator,
                    },
                )
            } else {
                r matches Err(e) && is_fps_error(e, interval)
            },
        },
    }
}

/// Read the running format out of what the driver reported.
pub fn device_format(fourcc: [u8; 4], width: u32, height: u32, params: Result<Fraction, String>) -> (r:
    Result<CameraFormat, NokhwaError>)
    ensures
        spec_device_format(fourcc@, width, height, params, r),
{
    let f = match fourcc_to_frameformat(fourcc) {
        Some(f) => f,
        None => {
            return Err(
                NokhwaError::GetPropertyError {
                    property: String::from_str("FrameFormat"),
                    error: String::from_str("unsupported"),
                },
            );
        },
    };
    let interval = match params {
        Ok(i) => i,
        Err(why) => {
            return Err(
                NokhwaError::GetPropertyError {
                    property: String::from_str("V4L2 FrameRate"),
                    error: why,
                },
            );
        },
    };
    match interval_to_fps(interval) {
        Ok(fps) => Ok(CameraFormat::new(Resolution::new(width, height), f, fps)),
        Err(e) => Err(e),
    }
}

/// A frame size as the driver advertises it for one pixel format.
#[derive(Clone, Copy, Debug, PartialEq, Eq, Structural)]
pub enum FrameSize {
    Discrete(Resolution),
    Stepwise {
        min_width: u32,
        max_width: u32,
        step_width: u32,
        min_height: u32,
        max_height: u32,
        step_height: u32,
    },
}

/// The resolution list of one pixel format, grown size by size into one
/// list: a discrete size is appended as it is, a stepwise size adds its
/// corners and fitting presets that the list does not hold yet.
pub open spec fn resolution_list_of(sizes: Seq<FrameSize>) -> Seq<Resolution>
    decreases sizes.len(),
{
    if sizes.len() == 0 {
        Seq::empty()
    } else {
        let prev = resolution_list_of(sizes.drop_last());
        match sizes.last() {
            FrameSize::Discrete(r) => prev.push(r),
            FrameSize::Stepwise {
                min_width,
                max_width,
                step_width,
                min_height,
                max_height,
                step_height,
            } => push_all_unique(
                prev,
                stepwise_candidates(
                    min_width,
                    max_width,
                    step_width,
                    min_height,
                    max_height,
                    step_height,
                ),
            ),
        }
    }
}

/// The resolutions of a pixel format when each size is expanded on its
/// own: a discrete size gives itself, a stepwise size its corners and
/// fitting presets without repeats among them.
pub open spec fn resolutions_per_size(sizes: Seq<FrameSize>) -> Seq<Resolution>
    decreases sizes.len(),
{
    if sizes.len() == 0 {
        Seq::empty()
    } else {
        resolutions_per_size(sizes.drop_last()) + match sizes.last() {
            FrameSize::Discrete(r) => seq![r],
            FrameSize::Stepwise {
                min_width,
                max_width,
                step_width,
                min_height,
                max_height,
                step_height,
            } => push_all_unique(
                Seq::empty(),
                stepwise_candidates(
                    min_width,
                    max_width,
                    step_width,
                    min_height,
                    max_height,
                    step_height,
                ),
            ),
        }
    }
}

fn expand_size(size: FrameSize, out: &mut Vec<Resolution>)
    ensures
        final(out)@ == match size {
            FrameSize::Discrete(r) => old(out)@.push(r),
            FrameSize::Stepwise {
                min_width,
                max_width,
                step_width,
                min_height,
                max_height,
                step_height,
            } => push_all_unique(
                old(out)@,
                stepwise_candidates(
                    min_width,
                    max_width,
                    step_width,
                    min_height,
                    max_height,
                    step_height,
                ),
            ),
        },
{
    match size {
        FrameSize::Discrete(r) => out.push(r),
        FrameSize::Stepwise {
            min_width,
            max_width,
            step_width,
            min_height,
            max_height,
            step_height,
        } => expand_stepwise_resolutions(
            min_width,
            max_width,
            step_width,
            min_height,
            max_height,
            step_height,
            out,
        ),
    }
}

/// The resolution list a device reports for one pixel format.
pub fn resolution_list(sizes: &Vec<FrameSize>) -> (r: Vec<Resolution>)
    ensures
        r@ == resolution_list_of(sizes@),
{
    let mut r: Vec<Resolution> = Vec::new();
    let mut i: usize = 0;
    while i < sizes.len()
        invariant
            i <= sizes@.len(),
            r@ == resolution_list_of(sizes@.take(i as int)),
        decreases sizes@.len() - i,
    {
        expand_size(sizes[i], &mut r);
        proof {
            assert(sizes@.take(i + 1).drop_last() =~= sizes@.take(i as int));
        }
        i = i + 1;
    }
    assert(sizes@.take(sizes@.len() as int) =~= sizes@);
    r
}

/// The resolutions of a pixel format with each size expanded on its own.
pub fn resolutions_of_sizes(sizes: &Vec<FrameSize>) -> (r: Vec<Resolution>)
    ensures
        r@ == resolutions_per_size(sizes@),
{
    let mut r: Vec<Resolution> = Vec::new();
    let mut i: usize = 0;
    while i < sizes.len()
        invariant
            i <= sizes@.len(),
            r@ == resolutions_per_size(sizes@.take(i as int)),
        decreases sizes@.len() - i,
    {
        let mut part: Vec<Resolution> = Vec::new();
        expand_size(sizes[i], &mut part);
        let ghost before = r@;
        r.append(&mut part);
        proof {
            assert(sizes@.take(i + 1).drop_last() =~= sizes@.take(i as int));
            assert(Seq::<Resolution>::empty().push(sizes@[i as int]->Discrete_0) =~= seq![
                sizes@[i as int]->Discrete_0,
            ]);
        }
        i = i + 1;
    }
    assert(sizes@.take(sizes@.len() as int) =~= sizes@);
    r
}

/// One advertised frame interval, with the frame size it was given for.
#[derive(Clone, Copy, Debug, PartialEq, Eq, Structural)]
pub struct IntervalEntry {
    pub width: u32,
    pub height: u32,
    pub interval: FrameInterval,
}

/// The camera formats a list of advertised intervals yields in `fmt`, in
/// order.
pub open spec fn formats_of_intervals(entries: Seq<IntervalEntry>, fmt: FrameFormat) -> Seq<
    CameraFormat,
>
    decreases entries.len(),
{
    if entries.len() == 0 {
        Seq::empty()
    } else {
        formats_of_intervals(entries.drop_last(), fmt) + spec_expand_frame_interval(
            entries.last().interval,
            Resolution { width_x: entries.last().width, height_y: entries.last().height },
            fmt,
        )
    }
}

/// Expand every advertised interval of a pixel format into camera formats.
pub fn formats_from_intervals(entries: &Vec<IntervalEntry>, fmt: FrameFormat) -> (r: Vec<
    CameraFormat,
>)
    ensures
        r@ == formats_of_intervals(entries@, fmt),
{
    let mut r: Vec<CameraFormat> = Vec::new();
    let mut i: usize = 0;
    while i < entries.len()
        invariant
            i <= entries@.len(),
            r@ == formats_of_intervals(entries@.take(i as int), fmt),
        decreases entries@.len() - i,
    {
        let e = entries[i];
        let mut part = expand_frame_interval(e.interval, Resolution::new(e.width, e.height), fmt);
        r.append(&mut part);
        proof {
            assert(entries@.take(i + 1).drop_last() =~= entries@.take(i as int));
        }
        i = i + 1;
    }
    assert(entries@.take(entries@.len() as int) =~= entries@);
    r
}

/// `s` with each run of equal neighbours kept once.
pub open spec fn dedup_adjacent(s: Seq<Seq<u8>>) -> Seq<Seq<u8>>
    decreases s.len(),
{
    if s.len() == 0 {
        s
    } else {
        let prev = dedup_adjacent(s.drop_last());
        if prev.len() > 0 && prev.last() == s.last() {
            prev
        } else {
            prev.push(s.last())
        }
    }
}

/// The pixel-format tokens of a device with neighbouring repeats dropped.
pub fn dedup_fourccs(tokens: &Vec<[u8; 4]>) -> (r: Vec<[u8; 4]>)
    ensures
        r@.map_values(|t: [u8; 4]| t@) == dedup_adjacent(tokens@.map_values(|t: [u8; 4]| t@)),
{
    let ghost view_of = |t: [u8; 4]| t@;
    let mut r: Vec<[u8; 4]> = Vec::new();
    let mut i: usize = 0;
    while i < tokens.len()
        invariant
            i <= tokens@.len(),
            view_of == (|t: [u8; 4]| t@),
            r@.map_values(view_of) == dedup_adjacent(tokens@.take(i as int).map_values(view_of)),
        decreases tokens@.len() - i,
    {
        let t = tokens[i];
        let ghost pre = tokens@.take(i as int).map_values(view_of);
        proof {
            assert(tokens@.take(i + 1).map_values(view_of).drop_last() =~= pre);
        }
        let n = r.len();
        let repeat = n > 0 && same_token(&r[n - 1], t[0], t[1], t[2], t[3]);
        proof {
            if n > 0 {
                assert(t@ =~= seq![t[0], t[1], t[2], t[3]]);
                assert(r@.map_values(view_of).last() == r@[n - 1]@);
            }
        }
        let ghost before_r = r@.map_values(view_of);
        if !repeat {
            r.push(t);
            proof {
                assert(r@.map_values(view_of) =~= before_r.push(t@));
            }
        }
        i = i + 1;
    }
    assert(tokens@.take(tokens@.len() as int) =~= tokens@);
    r
}

/// The frame formats a device supports, from its pixel-format tokens:
/// unknown tokens are dropped, the rest sorted in canonical order without
/// repeats.
pub fn compatible_frame_formats(tokens: &Vec<[u8; 4]>) -> (r: Vec<FrameFormat>)
    ensures
        frame_formats_sorted(r@),
        forall|f: FrameFormat|
            r@.contains(f) <==> exists|i: int|
                0 <= i < tokens@.len() && spec_fourcc_to_frameformat((#[trigger] tokens@[i])@)
                    == Some(f),
{
    let mut known: Vec<FrameFormat> = Vec::new();
    let mut i: usize = 0;
    while i < tokens.len()
        invariant
            i <= tokens@.len(),
            forall|f: FrameFormat|
                known@.contains(f) <==> exists|k: int|
                    0 <= k < i && spec_fourcc_to_frameformat((#[trigger] tokens@[k])@) == Some(f),
        decreases tokens@.len() - i,
    {
        let m = fourcc_to_frameformat(tokens[i]);
        let ghost before = known@;
        match m {
            Some(f) => {
                known.push(f);
            },
            None => {},
        }
        proof {
            assert forall|f: FrameFormat|
                known@.contains(f) <==> exists|k: int|
                    0 <= k < i + 1 && spec_fourcc_to_frameformat((#[trigger] tokens@[k])@) == Some(
                        f,
                    ) by {
                if known@.contains(f) && !before.contains(f) {
                    assert(known@.last() == f);
                    assert(spec_fourcc_to_frameformat(tokens@[i as int]@) == Some(f));
                }
                if before.contains(f) {
                    let k = choose|k: int| 0 <= k < before.len() && before[k] == f;
                    assert(known@[k] == f);
                }
                if exists|k: int|
                    0 <= k < i + 1 && spec_fourcc_to_frameformat((#[trigger] tokens@[k])@) == Some(
                        f,
                    ) {
                    let k = choose|k: int|
                        0 <= k < i + 1 && spec_fourcc_to_frameformat((#[trigger] tokens@[k])@)
                            == Some(f);
                    if k == i {
                        assert(known@[known@.len() - 1] == f);
                    }
                }
            }
        }
        i = i + 1;
    }
    sorted_distinct_frame_formats(&known)
}

/// Pick the format a request asks for among what a device offers; no
/// fitting format is a property error.
pub fn pick_format(req: &RequestedFormat, formats: &Vec<CameraFormat>) -> (r: Result<
    CameraFormat,
    NokhwaError,
>)
    ensures
        match r {
            Ok(c) => spec_fulfill(*req, formats@, Some(c)),
            Err(e) => spec_fulfill(*req, formats@, None) && is_get_property_error(
                e,
                "CameraFormat"@,
                "Failed to fulfill requested CameraFormat"@,
            ),
        },
{
    match req.fulfill(formats) {
        Some(c) => Ok(c),
        None => Err(
            NokhwaError::GetPropertyError {
                property: String::from_str("CameraFormat"),
                error: String::from_str("Failed to fulfill requested CameraFormat"),
            },
        ),
    }
}

/// Which driver settings a switch from `current` to `target` touches: the
/// frame size and pixel format are set when either differs, the frame rate
/// when it differs.
pub fn format_changes(current: CameraFormat, target: CameraFormat) -> (r: (bool, bool))
    ensures
        r.0 == (current.resolution != target.resolution || current.format != target.format),
        r.1 == (current.frame_rate != target.frame_rate),
{
    let size_or_format = current.resolution.width_x != target.resolution.width_x
        || current.resolution.height_y != target.resolution.height_y || current.format
        != target.format;
    (size_or_format, current.frame_rate != target.frame_rate)
}

/// After opening, the device must run the format that was picked; any
/// other format is a refusal.
pub fn check_opened_format(negotiated: CameraFormat, picked: CameraFormat) -> (r: Result<
    (),
    NokhwaError,
>)
    ensures
        r is Ok <==> negotiated == picked,
        r matches Err(e) ==> e matches NokhwaError::SetPropertyError { property, value, error }
            && property@ == "CameraFormat"@ && value@ == Seq::<char>::empty() && error@
            == "Not same/Rejected"@,
{
    if negotiated == picked {
        Ok(())
    } else {
        Err(
            NokhwaError::SetPropertyError {
                property: String::from_str("CameraFormat"),
                value: String::new(),
                error: String::from_str("Not same/Rejected"),
            },
        )
    }
}

/// After a format change the device is read back: it must run exactly the
/// requested format, else the change was rejected and the error names the
/// requested format.
pub fn confirm_format_change(negotiated: CameraFormat, requested: CameraFormat) -> (r: Result<
    (),
    NokhwaError,
>)
    ensures
        r is Ok <==> negotiated == requested,
        r matches Err(e) ==> is_set_property_error(
            e,
            "CameraFormat"@,
            camera_format_debug(requested),
            "Rejected"@,
        ),
{
    if negotiated == requested {
        Ok(())
    } else {
        Err(
            NokhwaError::SetPropertyError {
                property: String::from_str("CameraFormat"),
                value: camera_format_debug_text(&requested),
                error: String::from_str("Rejected"),
            },
        )
    }
}

/// Where a format change of a capture device stands.
#[derive(Debug)]
pub enum SetFormatState {
    /// Nothing done yet.
    Start,
    /// A running stream is being stopped.
    Closing,
    /// The new format and frame rate are being written; `reopen` when a
    /// stream ran before and must run again.
    Applying { reopen: bool },
    /// The stream is being started again at the new format.
    Reopening,
    /// Starting the stream failed with `open_error`: the previous format and
    /// frame rate are being written back.
    Restoring { open_error: NokhwaError },
    /// The previous format is back: the stream is started once more, and the
    /// first failure is reported whatever this attempt gives.
    Retrying { open_error: NokhwaError },
    /// The device's format is being read back.
    Confirming,
    /// The change is over.
    Finished,
}

/// What the device reported for the last action.
#[derive(Debug)]
pub enum SetFormatEvent {
    /// The change begins; `was_streaming` when a stream runs.
    Started { was_streaming: bool },
    /// The stream was stopped, or stopping it failed.
    Closed(Result<(), NokhwaError>),
    /// The format and frame rate were written, or a write failed.
    Applied(Result<(), NokhwaError>),
    /// The stream was started, or starting it failed.
    Opened(Result<(), NokhwaError>),
    /// The previous format and frame rate were written back, or that failed.
    Restored(Result<(), NokhwaError>),
    /// The last start attempt is over, whatever it gave.
    Retried,
    /// The format the device runs now, or the error reading it.
    Refreshed(Result<CameraFormat, NokhwaError>),
}

/// What the caller does next.
#[derive(Debug)]
pub enum SetFormatAction {
    /// Stop the running stream.
    CloseStream,
    /// Write the requested format and its frame rate.
    ApplyFormat,
    /// Start the stream.
    OpenStream,
    /// Write the previous format and frame rate back.
    RestoreFormat,
    /// Start the stream once more.
    RetryOpen,
    /// Record the requested format and read back what the device runs.
    Refresh,
    /// The change ends with this result.
    Finish(Result<(), NokhwaError>),
}

/// `event` answers the action that led to `state`.
pub open spec fn step_fits(state: SetFormatState, event: SetFormatEvent) -> bool {
    match event {
        SetFormatEvent::Started { .. } => state is Start,
        SetFormatEvent::Closed(_) => state is Closing,
        SetFormatEvent::Applied(_) => state is Applying,
        SetFormatEvent::Opened(_) => state is Reopening,
        SetFormatEvent::Restored(_) => state is Restoring,
        SetFormatEvent::Retried => state is Retrying,
        SetFormatEvent::Refreshed(_) => state is Confirming,
    }
}

/// One step of a format change to `requested`. A running stream is stopped
/// first; then the format is written; a stream that ran is started again,
/// and when that fails the previous format is written back, the stream is
/// started once more and the first failure is reported. Finally the
/// device's format is read back and must be `requested`. Any failure of a
/// stop, a write, a write-back or the read-back ends the change with that
/// failure.
pub fn set_format_step(state: SetFormatState, event: SetFormatEvent, requested: CameraFormat) -> (r:
    (SetFormatState, SetFormatAction))
    requires
        step_fits(state, event),
    ensures
        match event {
            SetFormatEvent::Started { was_streaming } => if was_streaming {
                r == (SetFormatState::Closing, SetFormatAction::CloseStream)
            } else {
                r == (SetFormatState::Applying { reopen: false }, SetFormatAction::ApplyFormat)
            },
            SetFormatEvent::Closed(Ok(())) => r == (
                SetFormatState::Applying { reopen: true },
                SetFormatAction::ApplyFormat,
            ),
            SetFormatEvent::Applied(Ok(())) => if state->reopen {
                r == (SetFormatState::Reopening, SetFormatAction::OpenStream)
            } else {
                r == (SetFormatState::Confirming, SetFormatAction::Refresh)
            },
            SetFormatEvent::Opened(Ok(())) => r == (
                SetFormatState::Confirming,
                SetFormatAction::Refresh,
            ),
            SetFormatEvent::Opened(Err(e)) => r == (
                SetFormatState::Restoring { open_error: e },
                SetFormatAction::RestoreFormat,
            ),
            SetFormatEvent::Restored(Ok(())) => r == (
                SetFormatState::Retrying { open_error: state->Restoring_open_error },
                SetFormatAction::RetryOpen,
            ),
            SetFormatEvent::Retried => r == (
                SetFormatState::Finished,
                SetFormatAction::Finish(Err(state->Retrying_open_error)),
            ),
            SetFormatEvent::Refreshed(Ok(f)) => r.0 == SetFormatState::Finished && (r.1 matches SetFormatAction::Finish(res) && (res is Ok <==> f == requested) && (res matches Err(e) ==> is_set_property_error(
                e,
                "CameraFormat"@,
                camera_format_debug(requested),
                "Rejected"@,
            ))),
            SetFormatEvent::Closed(Err(e)) | SetFormatEvent::Applied(Err(e)) | SetFormatEvent::Restored(
                Err(e),
            ) | SetFormatEvent::Refreshed(Err(e)) => r == (
                SetFormatState::Finished,
                SetFormatAction::Finish(Err(e)),
            ),
        },
{
    match event {
        SetFormatEvent::Started { was_streaming } => {
            if was_streaming {
                (SetFormatState::Closing, SetFormatAction::CloseStream)
            } else {
                (SetFormatState::Applying { reopen: false }, SetFormatAction::ApplyFormat)
            }
        },
        SetFormatEvent::Closed(Ok(())) => (
            SetFormatState::Applying { reopen: true },
            SetFormatAction::ApplyFormat,
        ),
        SetFormatEvent::Applied(Ok(())) => {
            let reopen = match state {
                SetFormatState::Applying { reopen } => reopen,
                _ => false,
            };
            if reopen {
                (SetFormatState::Reopening, SetFormatAction::OpenStream)
            } else {
                (SetFormatState::Confirming, SetFormatAction::Refresh)
            }
        },
        SetFormatEvent::Opened(Ok(())) => (SetFormatState::Confirming, SetFormatAction::Refresh),
        SetFormatEvent::Opened(Err(e)) => (
            SetFormatState::Restoring { open_error: e },
            SetFormatAction::RestoreFormat,
        ),
        SetFormatEvent::Restored(Ok(())) => match state {
            SetFormatState::Restoring { open_error } => (
                SetFormatState::Retrying { open_error },
                SetFormatAction::RetryOpen,
            ),
            _ => (SetFormatState::Finished, SetFormatAction::Finish(Ok(()))),
        },
        SetFormatEvent::Retried => match state {
            SetFormatState::Retrying { open_error } => (
                SetFormatState::Finished,
                SetFormatAction::Finish(Err(open_error)),
            ),
            _ => (SetFormatState::Finished, SetFormatAction::Finish(Ok(()))),
        },
        SetFormatEvent::Refreshed(Ok(f)) => (
            SetFormatState::Finished,
            SetFormatAction::Finish(confirm_format_change(f, requested)),
        ),
        SetFormatEvent::Closed(Err(e)) => (SetFormatState::Finished, SetFormatAction::Finish(Err(e))),
        SetFormatEvent::Applied(Err(e)) => (SetFormatState::Finished, SetFormatAction::Finish(Err(e))),
        SetFormatEvent::Restored(Err(e)) => (
            SetFormatState::Finished,
            SetFormatAction::Finish(Err(e)),
        ),
        SetFormatEvent::Refreshed(Err(e)) => (
            SetFormatState::Finished,
            SetFormatAction::Finish(Err(e)),
        ),
    }
}

/// The bytes of a dequeued buffer that hold the frame: the driver's count
/// of used bytes, clamped to the buffer's length.
pub fn used_bytes(bytesused: u32, len: usize) -> (n: usize)
    ensures
        n as int == if bytesused as int <= len as int {
            bytesused as int
        } else {
            len as int
        },
{
    if (bytesused as u64) <= (len as u64) {
        bytesused as usize
    } else {
        len
    }
}


/// Nanoseconds a kernel timestamp stands for, read as a duration: the
/// seconds taken as unsigned, the microseconds scaled to nanoseconds and
/// taken as 32-bit unsigned.
pub open spec fn timestamp_nanos(sec: i64, usec: i64) -> int {
    (sec as u64) as int * 1_000_000_000 + ((usec * 1000) as u32) as int
}

/// The wall-clock time a frame was captured at, from its monotonic
/// timestamp and one reading of each clock, all in nanoseconds: the
/// current wall time minus the frame's age. A zero timestamp (the driver
/// gave none), a timestamp ahead of the monotonic clock, or an age beyond
/// the wall time give `None`.
pub open spec fn spec_monotonic_to_wallclock(
    sec: i64,
    usec: i64,
    mono_now_nanos: u128,
    wall_now_nanos: u128,
) -> Option<int> {
    let frame = timestamp_nanos(sec, usec);
    if frame == 0 || frame > mono_now_nanos {
        None
    } else if mono_now_nanos - frame > wall_now_nanos {
        None
    } else {
        Some(wall_now_nanos - (mono_now_nanos - frame))
    }
}

/// Convert a monotonic frame timestamp to wall-clock nanoseconds since the
/// epoch, given the two clocks read now.
pub fn monotonic_to_wallclock(sec: i64, usec: i64, mono_now_nanos: u128, wall_now_nanos: u128) -> (r:
    Option<u128>)
    requires
        i64::MIN <= usec * 1000 <= i64::MAX,
        (sec as u64) + ((usec * 1000) as u32) / 1_000_000_000 <= u64::MAX,
    ensures
        match spec_monotonic_to_wallclock(sec, usec, mono_now_nanos, wall_now_nanos) {
            None => r is None,
            Some(n) => r matches Some(m) && m == n,
        },
{
    let secs = sec as u64;
    let nanos = (usec * 1000) as u32;
    let frame: u128 = secs as u128 * 1_000_000_000 + nanos as u128;
    if frame == 0 {
        return None;
    }
    if frame > mono_now_nanos {
        return None;
    }
    let age = mono_now_nanos - frame;
    if age > wall_now_nanos {
        return None;
    }
    Some(wall_now_nanos - age)
}


proof fn lemma_push_all_unique_props(s: Seq<Resolution>, items: Seq<Resolution>)
    ensures
        forall|x: Resolution|
            #![trigger push_all_unique(s, items).contains(x)]
            push_all_unique(s, items).contains(x) <==> (s.contains(x) || items.contains(x)),
        s.no_duplicates() ==> push_all_unique(s, items).no_duplicates(),
        push_all_unique(s, items).len() >= s.len(),
        push_all_unique(s, items).take(s.len() as int) == s,
    decreases items.len(),
{
    if items.len() == 0 {
        assert(s.take(s.len() as int) =~= s);
    } else {
        let t = items.drop_last();
        lemma_push_all_unique_props(s, t);
        let p = push_all_unique(s, t);
        let x = items.last();
        assert forall|y: Resolution| #![trigger push_all_unique(s, items).contains(y)]
            push_all_unique(s, items).contains(y) <==> (s.contains(y) || items.contains(y)) by {
            if t.contains(y) {
                let k = choose|k: int| 0 <= k < t.len() && t[k] == y;
                assert(items[k] == y);
            }
            if items.contains(y) {
                let k = choose|k: int| 0 <= k < items.len() && items[k] == y;
                if k < t.len() {
                    assert(t[k] == y);
                }
            }
            if !p.contains(x) {
                assert(p.push(x)[p.len() as int] == x);
                if p.push(x).contains(y) {
                    let k = choose|k: int| 0 <= k < p.push(x).len() && p.push(x)[k] == y;
                    if k < p.len() {
                        assert(p[k] == y);
                    }
                }
                if p.contains(y) {
                    let k = choose|k: int| 0 <= k < p.len() && p[k] == y;
                    assert(p.push(x)[k] == y);
                }
            }
        }
        if !p.contains(x) {
            assert(p.push(x).take(s.len() as int) =~= p.take(s.len() as int));
        }
    }
}

/// A stepwise advertisement always contributes both of its corners, and
/// adds nothing that the list already holds: a list without repeats stays
/// without repeats, and what it held stays in front.
pub proof fn lemma_stepwise_keeps_corners(
    s: Seq<Resolution>,
    min_w: u32,
    max_w: u32,
    step_w: u32,
    min_h: u32,
    max_h: u32,
    step_h: u32,
)
    ensures
        push_all_unique(s, stepwise_candidates(min_w, max_w, step_w, min_h, max_h, step_h)).contains(
            Resolution { width_x: min_w, height_y: min_h },
        ),
        push_all_unique(s, stepwise_candidates(min_w, max_w, step_w, min_h, max_h, step_h)).contains(
            Resolution { width_x: max_w, height_y: max_h },
        ),
        s.no_duplicates() ==> push_all_unique(
            s,
            stepwise_candidates(min_w, max_w, step_w, min_h, max_h, step_h),
        ).no_duplicates(),
        push_all_unique(s, stepwise_candidates(min_w, max_w, step_w, min_h, max_h, step_h)).take(
            s.len() as int,
        ) == s,
{
    let c = stepwise_candidates(min_w, max_w, step_w, min_h, max_h, step_h);
    lemma_push_all_unique_props(s, c);
    assert(c[0] == Resolution { width_x: min_w, height_y: min_h });
    assert(c[c.len() - 1] == Resolution { width_x: max_w, height_y: max_h });
}


/// The area of a resolution.
pub open spec fn area(r: Resolution) -> int {
    r.width_x * r.height_y
}

/// Areas never decrease along `s`.
pub open spec fn area_ascending(s: Seq<Resolution>) -> bool {
    forall|i: int, j: int| 0 <= i < j < s.len() ==> area(#[trigger] s[i]) <= area(#[trigger] s[j])
}

proof fn lemma_area_mono(a: Resolution, b: Resolution)
    requires
        a.width_x <= b.width_x,
        a.height_y <= b.height_y,
    ensures
        area(a) <= area(b),
{
    let (aw, ah, bw, bh) = (a.width_x as int, a.height_y as int, b.width_x as int, b.height_y as int);
    assert(aw * ah <= bw * bh) by (nonlinear_arith)
        requires
            0 <= aw <= bw,
            0 <= ah <= bh,
    ;
}

proof fn lemma_filter_keeps(s: Seq<Resolution>, pred: spec_fn(Resolution) -> bool)
    ensures
        area_ascending(s) ==> area_ascending(s.filter(pred)),
        forall|x: Resolution| #[trigger] s.filter(pred).contains(x) ==> s.contains(x) && pred(x),
    decreases s.len(),
{
    if s.len() > 0 {
        let t = s.drop_last();
        lemma_filter_keeps(t, pred);
        let f = t.filter(pred);
        let last = s.last();
        reveal(Seq::filter);
        assert(s.filter(pred) == if pred(last) {
            f.push(last)
        } else {
            f
        });
        assert forall|x: Resolution| #[trigger] s.filter(pred).contains(x) implies s.contains(x)
            && pred(x) by {
            let k = choose|k: int| 0 <= k < s.filter(pred).len() && s.filter(pred)[k] == x;
            if pred(last) && k == f.len() {
                assert(s[s.len() - 1] == x);
            } else {
                assert(f[k] == x);
                assert(f.contains(x));
                let m = choose|m: int| 0 <= m < t.len() && t[m] == x;
                assert(s[m] == x);
            }
        }
        if area_ascending(s) {
            assert(area_ascending(t)) by {
                assert forall|i: int, j: int| 0 <= i < j < t.len() implies area(#[trigger] t[i])
                    <= area(#[trigger] t[j]) by {
                    assert(t[i] == s[i] && t[j] == s[j]);
                }
            }
            if pred(last) {
                let g = f.push(last);
                assert forall|i: int, j: int| 0 <= i < j < g.len() implies area(#[trigger] g[i])
                    <= area(#[trigger] g[j]) by {
                    if j == f.len() {
                        assert(g[i] == f[i]);
                        assert(f.contains(f[i]));
                        let m = choose|m: int| 0 <= m < t.len() && t[m] == f[i];
                        assert(s[m] == t[m]);
                        assert(area(s[m]) <= area(s[s.len() - 1]));
                    } else {
                        assert(g[i] == f[i] && g[j] == f[j]);
                    }
                }
            }
        }
    }
}

proof fn lemma_push_all_unique_ascending(s: Seq<Resolution>, items: Seq<Resolution>)
    requires
        area_ascending(s),
        area_ascending(items),
        forall|i: int, j: int|
            0 <= i < s.len() && 0 <= j < items.len() ==> area(#[trigger] s[i]) <= area(
                #[trigger] items[j],
            ),
    ensures
        area_ascending(push_all_unique(s, items)),
    decreases items.len(),
{
    if items.len() > 0 {
        let t = items.drop_last();
        assert forall|i: int, j: int| 0 <= i < j < t.len() implies area(#[trigger] t[i]) <= area(
            #[trigger] t[j],
        ) by {
            assert(t[i] == items[i] && t[j] == items[j]);
        }
        assert forall|i: int, j: int| 0 <= i < s.len() && 0 <= j < t.len() implies area(
            #[trigger] s[i],
        ) <= area(#[trigger] t[j]) by {
            assert(t[j] == items[j]);
        }
        lemma_push_all_unique_ascending(s, t);
        lemma_push_all_unique_props(s, t);
        let p = push_all_unique(s, t);
        let x = items.last();
        if !p.contains(x) {
            let g = p.push(x);
            assert forall|i: int, j: int| 0 <= i < j < g.len() implies area(#[trigger] g[i])
                <= area(#[trigger] g[j]) by {
                if j == p.len() {
                    assert(g[i] == p[i]);
                    assert(p.contains(p[i]));
                    if s.contains(p[i]) {
                        let m = choose|m: int| 0 <= m < s.len() && s[m] == p[i];
                        assert(area(s[m]) <= area(items[items.len() - 1]));
                    } else {
                        let m = choose|m: int| 0 <= m < t.len() && t[m] == p[i];
                        assert(t[m] == items[m]);
                        assert(area(items[m]) <= area(items[items.len() - 1]));
                    }
                } else {
                    assert(g[i] == p[i] && g[j] == p[j]);
                }
            }
        }
    }
}

/// A stepwise advertisement whose lower corner does not exceed its upper
/// corner, expanded into an empty list, comes out in ascending area order.
pub proof fn lemma_stepwise_ascending_area(
    min_w: u32,
    max_w: u32,
    step_w: u32,
    min_h: u32,
    max_h: u32,
    step_h: u32,
)
    requires
        min_w <= max_w,
        min_h <= max_h,
    ensures
        area_ascending(
            push_all_unique(
                Seq::<Resolution>::empty(),
                stepwise_candidates(min_w, max_w, step_w, min_h, max_h, step_h),
            ),
        ),
{
    let presets = common_resolutions();
    let pred = |r: Resolution| preset_fits(r, min_w, max_w, step_w, min_h, max_h, step_h);
    assert(presets[0].width_x == 320 && presets[0].height_y == 240 && area(presets[0]) == 76800);
    assert(presets[1].width_x == 640 && presets[1].height_y == 480 && area(presets[1]) == 307200);
    assert(presets[2].width_x == 800 && presets[2].height_y == 600 && area(presets[2]) == 480000);
    assert(presets[3].width_x == 1024 && presets[3].height_y == 768 && area(presets[3]) == 786432);
    assert(presets[4].width_x == 1280 && presets[4].height_y == 720 && area(presets[4]) == 921600);
    assert(presets[5].width_x == 1280 && presets[5].height_y == 960 && area(presets[5]) == 1228800);
    assert(presets[6].width_x == 1920 && presets[6].height_y == 1080 && area(presets[6]) == 2073600);
    assert(presets[7].width_x == 2560 && presets[7].height_y == 1440 && area(presets[7]) == 3686400);
    assert(presets[8].width_x == 3840 && presets[8].height_y == 2160 && area(presets[8]) == 8294400);
    assert(area_ascending(presets));
    lemma_filter_keeps(presets, pred);
    let f = presets.filter(pred);
    let lo = Resolution { width_x: min_w, height_y: min_h };
    let hi = Resolution { width_x: max_w, height_y: max_h };
    let c = stepwise_candidates(min_w, max_w, step_w, min_h, max_h, step_h);
    assert(c == seq![lo] + f + seq![hi]);
    assert forall|k: int| 0 <= k < f.len() implies area(lo) <= area(#[trigger] f[k]) && area(f[k])
        <= area(hi) by {
        assert(f.contains(f[k]));
        assert(pred(f[k]));
        lemma_area_mono(lo, f[k]);
        lemma_area_mono(f[k], hi);
    }
    lemma_area_mono(lo, hi);
    assert forall|i: int, j: int| 0 <= i < j < c.len() implies area(#[trigger] c[i]) <= area(
        #[trigger] c[j],
    ) by {
        if i == 0 {
            if j < c.len() - 1 {
                assert(c[j] == f[j - 1]);
            }
        } else if j == c.len() - 1 {
            assert(c[i] == f[i - 1]);
        } else {
            assert(c[i] == f[i - 1] && c[j] == f[j - 1]);
        }
    }
    lemma_push_all_unique_ascending(Seq::empty(), c);
}

/// A write is confirmed when the control read back afterwards reports the
/// value that was written.
pub fn read_back_matches(written: &ControlValueSetter, read: &CameraControl) -> (ok: bool)
    ensures
        ok == setter_eq(spec_description_value(read.description), *written),
{
    let current = read.value();
    setters_equal(&current, written)
}


/// A frame interval of `n/d` seconds per frame is a whole rate exactly when
/// `n` is 1, and then the rate is `d` frames per second: rate times interval
/// is one second.
pub proof fn lemma_fps_is_inverse_interval(interval: Fraction, r: Result<u32, NokhwaError>)
    requires
        spec_interval_to_fps(interval, r),
    ensures
        r is Ok <==> interval.numerator == 1,
        r is Ok ==> r.unwrap() * interval.numerator == interval.denominator,
{
}

/// Every format an advertised interval yields is at the given resolution and
/// in the given encoding. A discrete `1/d` interval yields exactly `d` fps.
/// A stepwise interval yields the rates from its lower bound's numerator
/// upwards, each one step above the previous, none past the upper bound's
/// numerator and the last within one step of it.
pub proof fn lemma_expanded_rates(interval: FrameInterval, resolution: Resolution, fmt: FrameFormat)
    ensures
        forall|k: int|
            0 <= k < spec_expand_frame_interval(interval, resolution, fmt).len() ==> (
            #[trigger] spec_expand_frame_interval(interval, resolution, fmt)[k]).resolution
                == resolution && spec_expand_frame_interval(interval, resolution, fmt)[k].format
                == fmt,
        interval matches FrameInterval::Discrete(d) ==> (d.numerator == 1 ==> spec_expand_frame_interval(
            interval,
            resolution,
            fmt,
        ).len() == 1 && spec_expand_frame_interval(interval, resolution, fmt)[0].frame_rate
            == d.denominator),
        interval matches FrameInterval::Stepwise { min, max, step } ==> {
            let s = spec_expand_frame_interval(interval, resolution, fmt);
            &&& s.len() > 0 ==> s[0].frame_rate == min.numerator
            &&& forall|k: int|
                0 < k < s.len() ==> #[trigger] s[k].frame_rate == s[k - 1].frame_rate
                    + step.numerator
            &&& forall|k: int| 0 <= k < s.len() ==> #[trigger] s[k].frame_rate <= max.numerator
            &&& s.len() > 0 ==> max.numerator < s[s.len() - 1].frame_rate + step.numerator
        },
{
    if let FrameInterval::Stepwise { min, max, step } = interval {
        let s = spec_expand_frame_interval(interval, resolution, fmt);
        if s.len() > 0 {
            let a = min.numerator as int;
            let b = max.numerator as int;
            let st = step.numerator as int;
            let n = (b - a) / st + 1;
            assert(s.len() == n);
            assert forall|k: int| 0 <= k < s.len() implies #[trigger] s[k].frame_rate
                <= max.numerator && s[k].frame_rate == a + k * st by {
                assert(k * st <= (n - 1) * st) by (nonlinear_arith)
                    requires
                        0 <= k < n,
                        st > 0,
                ;
                assert((n - 1) * st <= b - a) by (nonlinear_arith)
                    requires
                        n - 1 == (b - a) / st,
                        st > 0,
                        b - a >= 0,
                ;
            }
            assert forall|k: int| 0 < k < s.len() implies #[trigger] s[k].frame_rate
                == s[k - 1].frame_rate + step.numerator by {
                assert(s[k].frame_rate == a + k * st);
                assert(s[k - 1].frame_rate == a + (k - 1) * st);
                assert(a + k * st == a + (k - 1) * st + st) by (nonlinear_arith);
            }
            assert(s[n - 1].frame_rate == a + (n - 1) * st);
            assert(b - a < (n - 1) * st + st) by (nonlinear_arith)
                requires
                    n - 1 == (b - a) / st,
                    st > 0,
                    b - a >= 0,
            ;
        }
    }
}

/// The running format is read in the driver's terms: its resolution is the
/// reported width and height in that order, its rate the denominator of a
/// `1/d` frame interval, and its encoding the one the reported token names.
pub proof fn lemma_device_format_reads_driver(
    fourcc: Seq<u8>,
    width: u32,
    height: u32,
    params: Result<Fraction, String>,
    r: Result<CameraFormat, NokhwaError>,
)
    requires
        spec_device_format(fourcc, width, height, params, r),
        r is Ok,
    ensures
        r.unwrap().resolution.width_x == width,
        r.unwrap().resolution.height_y == height,
        params is Ok && params.unwrap().numerator == 1 && r.unwrap().frame_rate
            == params.unwrap().denominator,
        spec_fourcc_to_frameformat(fourcc) == Some(r.unwrap().format),
{
}

/// An integer control reports the driver's current value as its value and
/// the driver's default as its default, within the driver's range; a
/// boolean control reports its current state and is on by default exactly
/// when the driver's default is nonzero.
pub proof fn lemma_descriptor_reports_current_value(d: ControlDescriptor, v: ControlValue)
    ensures
        (v matches ControlValue::Integer(cur) && spec_value_description(d, v) is Some) ==> (
        spec_value_description(d, v).unwrap() is IntegerRange && spec_value_description(
            d,
            v,
        ).unwrap()->IntegerRange_value == v->Integer_0 && spec_value_description(
            d,
            v,
        ).unwrap()->IntegerRange_default == d.default && spec_value_description(
            d,
            v,
        ).unwrap()->IntegerRange_min == d.minimum && spec_value_description(
            d,
            v,
        ).unwrap()->IntegerRange_max == d.maximum),
        (v matches ControlValue::Boolean(cur) && spec_value_description(d, v) is Some) ==> (
        spec_value_description(d, v).unwrap() is Boolean && spec_value_description(
            d,
            v,
        ).unwrap()->Boolean_value == v->Boolean_0 && spec_value_description(
            d,
            v,
        ).unwrap()->Boolean_default == (d.default != 0)),
{
}

/// A kernel timestamp of whole seconds and microseconds in range stands for
/// that many nanoseconds. A frame's wall-clock time lies behind the wall
/// clock by exactly the frame's age on the monotonic clock, so of two frames
/// converted against the same clock readings the later one is later by
/// exactly the difference of their timestamps.
pub proof fn lemma_wallclock_keeps_age(
    sec1: i64,
    usec1: i64,
    sec2: i64,
    usec2: i64,
    mono: u128,
    wall: u128,
)
    ensures
        0 <= sec1 && 0 <= usec1 < 1_000_000 ==> timestamp_nanos(sec1, usec1) == sec1
            * 1_000_000_000 + usec1 * 1000,
        spec_monotonic_to_wallclock(sec1, usec1, mono, wall) is Some ==> wall
            - spec_monotonic_to_wallclock(sec1, usec1, mono, wall).unwrap() == mono
            - timestamp_nanos(sec1, usec1),
        (spec_monotonic_to_wallclock(sec1, usec1, mono, wall) is Some
            && spec_monotonic_to_wallclock(sec2, usec2, mono, wall) is Some)
            ==> spec_monotonic_to_wallclock(sec2, usec2, mono, wall).unwrap()
            - spec_monotonic_to_wallclock(sec1, usec1, mono, wall).unwrap() == timestamp_nanos(
            sec2,
            usec2,
        ) - timestamp_nanos(sec1, usec1),
{
    if 0 <= sec1 && 0 <= usec1 < 1_000_000 {
        assert(0 <= usec1 * 1000 < 1_000_000_000) by (nonlinear_arith)
            requires
                0 <= usec1 < 1_000_000,
        ;
        assert(((usec1 * 1000) as u32) as int == usec1 * 1000);
        assert((sec1 as u64) as int == sec1);
    }
}

/// Every format a list of advertised intervals yields is in the given
/// encoding and at the width and height of one of the entries, in that
/// order.
pub proof fn lemma_interval_formats_keep_sizes(entries: Seq<IntervalEntry>, fmt: FrameFormat)
    ensures
        forall|k: int|
            0 <= k < formats_of_intervals(entries, fmt).len() ==> (#[trigger] formats_of_intervals(
                entries,
                fmt,
            )[k]).format == fmt && exists|i: int|
                0 <= i < entries.len() && formats_of_intervals(entries, fmt)[k].resolution
                    == (Resolution {
                    width_x: (#[trigger] entries[i]).width,
                    height_y: entries[i].height,
                }),
    decreases entries.len(),
{
    if entries.len() > 0 {
        let prev = entries.drop_last();
        lemma_interval_formats_keep_sizes(prev, fmt);
        let last = entries.last();
        let res = Resolution { width_x: last.width, height_y: last.height };
        lemma_expanded_rates(last.interval, res, fmt);
        let a = formats_of_intervals(prev, fmt);
        let b = spec_expand_frame_interval(last.interval, res, fmt);
        let all = formats_of_intervals(entries, fmt);
        assert(all == a + b);
        assert forall|k: int| 0 <= k < all.len() implies (#[trigger] all[k]).format == fmt
            && exists|i: int|
            0 <= i < entries.len() && all[k].resolution == (Resolution {
                width_x: (#[trigger] entries[i]).width,
                height_y: entries[i].height,
            }) by {
            if k < a.len() {
                assert(all[k] == a[k]);
                let i = choose|i: int|
                    0 <= i < prev.len() && a[k].resolution == (Resolution {
                        width_x: (#[trigger] prev[i]).width,
                        height_y: prev[i].height,
                    });
                assert(entries[i] == prev[i]);
            } else {
                assert(all[k] == b[k - a.len()]);
                assert(entries[entries.len() - 1] == last);
            }
        }
    }
}

/// Every discrete frame size a driver advertises is in the resolution list,
/// with its width and height as advertised.
pub proof fn lemma_discrete_sizes_listed(sizes: Seq<FrameSize>)
    ensures
        forall|i: int|
            0 <= i < sizes.len() && (#[trigger] sizes[i]) is Discrete ==> resolution_list_of(
                sizes,
            ).contains(sizes[i]->Discrete_0),
    decreases sizes.len(),
{
    if sizes.len() > 0 {
        let prev = sizes.drop_last();
        lemma_discrete_sizes_listed(prev);
        let p = resolution_list_of(prev);
        let all = resolution_list_of(sizes);
        assert forall|x: Resolution| p.contains(x) implies all.contains(x) by {
            match sizes.last() {
                FrameSize::Discrete(r) => {
                    let j = choose|j: int| 0 <= j < p.len() && p[j] == x;
                    assert(p.push(r)[j] == x);
                },
                FrameSize::Stepwise {
                    min_width,
                    max_width,
                    step_width,
                    min_height,
                    max_height,
                    step_height,
                } => {
                    lemma_push_all_unique_props(
                        p,
                        stepwise_candidates(
                            min_width,
                            max_width,
                            step_width,
                            min_height,
                            max_height,
                            step_height,
                        ),
                    );
                },
            }
        }
        assert forall|i: int| 0 <= i < sizes.len() && (#[trigger] sizes[i]) is Discrete implies all.contains(
            sizes[i]->Discrete_0,
        ) by {
            if i < prev.len() {
                assert(prev[i] == sizes[i]);
                assert(p.contains(prev[i]->Discrete_0));
            } else {
                let r = sizes[i]->Discrete_0;
                assert(all == p.push(r));
                assert(all[p.len() as int] == r);
            }
        }
    }
}

/// Dropping neighbouring repeats leaves no two equal neighbours and keeps
/// every token: a token is in the result exactly when it was reported.
pub proof fn lemma_dedup_keeps_tokens(s: Seq<Seq<u8>>)
    ensures
        forall|i: int|
            0 < i < dedup_adjacent(s).len() ==> #[trigger] dedup_adjacent(s)[i] != dedup_adjacent(
                s,
            )[i - 1],
        forall|x: Seq<u8>| #[trigger] dedup_adjacent(s).contains(x) <==> s.contains(x),
        dedup_adjacent(s).len() > 0 ==> dedup_adjacent(s).last() == s.last(),
    decreases s.len(),
{
    if s.len() > 0 {
        let t = s.drop_last();
        lemma_dedup_keeps_tokens(t);
        let p = dedup_adjacent(t);
        let d = dedup_adjacent(s);
        assert forall|x: Seq<u8>| #[trigger] d.contains(x) <==> s.contains(x) by {
            if t.contains(x) {
                let m = choose|m: int| 0 <= m < t.len() && t[m] == x;
                assert(s[m] == x);
            }
            if s.contains(x) {
                let m = choose|m: int| 0 <= m < s.len() && s[m] == x;
                if m < t.len() {
                    assert(t[m] == x);
                } else {
                    assert(x == s.last());
                    if !(p.len() > 0 && p.last() == s.last()) {
                        assert(d[d.len() - 1] == x);
                    } else {
                        assert(p[p.len() - 1] == x);
                    }
                }
            }
            if d.contains(x) {
                let m = choose|m: int| 0 <= m < d.len() && d[m] == x;
                if m < p.len() {
                    assert(d[m] == p[m]);
                    assert(p.contains(x));
                } else {
                    assert(x == s.last());
                    assert(s[s.len() - 1] == x);
                }
            }
            if p.contains(x) {
                let m = choose|m: int| 0 <= m < p.len() && p[m] == x;
                if !(p.len() > 0 && p.last() == s.last()) {
                    assert(d[m] == x);
                }
            }
        }
        assert forall|i: int| 0 < i < d.len() implies #[trigger] d[i] != d[i - 1] by {
            if i < p.len() {
                assert(d[i] == p[i] && d[i - 1] == p[i - 1]);
            } else {
                assert(d[i - 1] == p.last());
            }
        }
    }
}
} // verus!
