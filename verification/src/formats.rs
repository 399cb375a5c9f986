//! Format negotiation: which of a device's advertised formats satisfies a
//! request, and the distinct encodings a device offers.
use vstd::prelude::*;

use crate::sorted::{frame_formats_sorted, sorted_distinct_frame_formats};
use crate::text::{decimal, u32_text};
use crate::types::{
    is_open_device_error, CameraFormat, FrameFormat, NokhwaError, Resolution,
};

verus! {

/// What a caller asks of format negotiation.
#[derive(Clone, Copy, Debug, PartialEq, Eq, Structural)]
pub enum RequestedFormatType {
    /// The largest resolution, then the highest frame rate at it.
    AbsoluteHighestResolution,
    /// The highest frame rate, then the largest resolution at it.
    AbsoluteHighestFrameRate,
    /// Exactly this resolution, at the highest frame rate it is offered at.
    HighestResolution(Resolution),
    /// Exactly this frame rate, at the largest resolution it is offered at.
    HighestFrameRate(u32),
    /// Exactly this format.
    Exact(CameraFormat),
    /// The first acceptable format the device lists.
    AnyFormat,
}

/// A format request: the selection rule, and the encodings the caller can
/// decode (formats in other encodings are never chosen).
#[derive(Clone, Debug)]
pub struct RequestedFormat {
    pub requested_format: RequestedFormatType,
    pub wanted_decoder: Vec<FrameFormat>,
}

/// `c` is acceptable for `req`: its encoding is wanted, and it has the
/// resolution, frame rate or identity the request pins, if any.
pub open spec fn eligible(req: RequestedFormat, c: CameraFormat) -> bool {
    req.wanted_decoder@.contains(c.format) && match req.requested_format {
        RequestedFormatType::HighestResolution(r) => c.resolution == r,
        RequestedFormatType::HighestFrameRate(f) => c.frame_rate == f,
        RequestedFormatType::Exact(f) => c == f,
        _ => true,
    }
}

/// Ranking key of a candidate: compared lexicographically, larger is better.
/// Frame-rate-first requests rank by rate, then width, then height; all
/// others by width, then height, then rate.
pub open spec fn rank_key(t: RequestedFormatType, c: CameraFormat) -> (int, int, int) {
    match t {
        RequestedFormatType::AbsoluteHighestFrameRate | RequestedFormatType::HighestFrameRate(_) => (
            c.frame_rate as int,
            c.resolution.width_x as int,
            c.resolution.height_y as int,
        ),
        _ => (c.resolution.width_x as int, c.resolution.height_y as int, c.frame_rate as int),
    }
}

pub open spec fn key_le(a: (int, int, int), b: (int, int, int)) -> bool {
    a.0 < b.0 || (a.0 == b.0 && (a.1 < b.1 || (a.1 == b.1 && a.2 <= b.2)))
}

/// `all[k]` is what a ranking request picks: eligible, ranked at least as
/// high as every eligible candidate, and the last among those ranked as high.
pub open spec fn is_ranked_pick(req: RequestedFormat, all: Seq<CameraFormat>, k: int) -> bool {
    &&& 0 <= k < all.len()
    &&& eligible(req, all[k])
    &&& forall|m: int|
        0 <= m < all.len() && eligible(req, #[trigger] all[m]) ==> key_le(
            rank_key(req.requested_format, all[m]),
            rank_key(req.requested_format, all[k]),
        )
    &&& forall|m: int|
        k < m < all.len() && eligible(req, #[trigger] all[m]) ==> !key_le(
            rank_key(req.requested_format, all[k]),
            rank_key(req.requested_format, all[m]),
        )
}

/// `all[k]` is the first eligible candidate.
pub open spec fn is_first_pick(req: RequestedFormat, all: Seq<CameraFormat>, k: int) -> bool {
    &&& 0 <= k < all.len()
    &&& eligible(req, all[k])
    &&& forall|m: int| 0 <= m < k ==> !eligible(req, #[trigger] all[m])
}

/// What `fulfill` returns for `req` among `all`.
pub open spec fn spec_fulfill(req: RequestedFormat, all: Seq<CameraFormat>, r: Option<CameraFormat>) -> bool {
    match r {
        None => forall|m: int| 0 <= m < all.len() ==> !eligible(req, #[trigger] all[m]),
        Some(c) => exists|k: int|
            #![trigger all[k]]
            all[k] == c && if req.requested_format is AnyFormat {
                is_first_pick(req, all, k)
            } else {
                is_ranked_pick(req, all, k)
            },
    }
}

/// What `fulfill` picks is one of the candidates, in a wanted encoding, and
/// is best for the request among the candidates in a wanted encoding:
/// - the highest frame rate first (then width, then height) for
///   `AbsoluteHighestFrameRate`;
/// - the largest width, then height, then frame rate for
///   `AbsoluteHighestResolution`;
/// - exactly the pinned resolution at its highest frame rate for
///   `HighestResolution`;
/// - exactly the pinned frame rate at its largest width, then height, for
///   `HighestFrameRate`;
/// - exactly the pinned format for `Exact`;
/// - the first wanted candidate for `AnyFormat`.
pub proof fn lemma_fulfill_picks_best(req: RequestedFormat, all: Seq<CameraFormat>, c: CameraFormat)
    requires
        spec_fulfill(req, all, Some(c)),
    ensures
        all.contains(c),
        req.wanted_decoder@.contains(c.format),
        req.requested_format is AbsoluteHighestFrameRate ==> forall|m: int|
            0 <= m < all.len() && req.wanted_decoder@.contains(#[trigger] all[m].format) ==> {
                ||| all[m].frame_rate < c.frame_rate
                ||| all[m].frame_rate == c.frame_rate && all[m].resolution.width_x
                    < c.resolution.width_x
                ||| all[m].frame_rate == c.frame_rate && all[m].resolution.width_x
                    == c.resolution.width_x && all[m].resolution.height_y
                    <= c.resolution.height_y
            },
        req.requested_format is AbsoluteHighestResolution ==> forall|m: int|
            0 <= m < all.len() && req.wanted_decoder@.contains(#[trigger] all[m].format) ==> {
                ||| all[m].resolution.width_x < c.resolution.width_x
                ||| all[m].resolution.width_x == c.resolution.width_x && all[m].resolution.height_y
                    < c.resolution.height_y
                ||| all[m].resolution == c.resolution && all[m].frame_rate <= c.frame_rate
            },
        req.requested_format matches RequestedFormatType::HighestResolution(res) ==> c.resolution
            == res && forall|m: int|
            0 <= m < all.len() && req.wanted_decoder@.contains(#[trigger] all[m].format)
                && all[m].resolution == res ==> all[m].frame_rate <= c.frame_rate,
        req.requested_format matches RequestedFormatType::HighestFrameRate(fps) ==> c.frame_rate
            == fps && forall|m: int|
            0 <= m < all.len() && req.wanted_decoder@.contains(#[trigger] all[m].format)
                && all[m].frame_rate == fps ==> {
                ||| all[m].resolution.width_x < c.resolution.width_x
                ||| all[m].resolution.width_x == c.resolution.width_x && all[m].resolution.height_y
                    <= c.resolution.height_y
            },
        req.requested_format matches RequestedFormatType::Exact(f) ==> c == f,
        req.requested_format is AnyFormat ==> exists|k: int|
            0 <= k < all.len() && #[trigger] all[k] == c && forall|m: int|
                0 <= m < k ==> !req.wanted_decoder@.contains(#[trigger] all[m].format),
{
    let k = choose|k: int|
        #![trigger all[k]]
        all[k] == c && if req.requested_format is AnyFormat {
            is_first_pick(req, all, k)
        } else {
            is_ranked_pick(req, all, k)
        };
    assert(all[k] == c);
    if !(req.requested_format is AnyFormat) {
        assert forall|m: int| 0 <= m < all.len() && eligible(req, #[trigger] all[m]) implies key_le(
            rank_key(req.requested_format, all[m]),
            rank_key(req.requested_format, c),
        ) by {}
    }
}

/// `fulfill` finds nothing exactly when no candidate is in a wanted encoding
/// and has what the request pins.
pub proof fn lemma_fulfill_none(req: RequestedFormat, all: Seq<CameraFormat>)
    ensures
        spec_fulfill(req, all, None) <==> forall|m: int|
            0 <= m < all.len() ==> !(req.wanted_decoder@.contains(#[trigger] all[m].format)
                && match req.requested_format {
                RequestedFormatType::HighestResolution(res) => all[m].resolution == res,
                RequestedFormatType::HighestFrameRate(fps) => all[m].frame_rate == fps,
                RequestedFormatType::Exact(f) => all[m] == f,
                _ => true,
            }),
{
}

fn rank_key_le(t: RequestedFormatType, a: &CameraFormat, b: &CameraFormat) -> (r: bool)
    ensures
        r == key_le(rank_key(t, *a), rank_key(t, *b)),
{
    let (a0, a1, a2, b0, b1, b2) = match t {
        RequestedFormatType::AbsoluteHighestFrameRate | RequestedFormatType::HighestFrameRate(_) => (
            a.frame_rate,
            a.resolution.width_x,
            a.resolution.height_y,
            b.frame_rate,
            b.resolution.width_x,
            b.resolution.height_y,
        ),
        _ => (
            a.resolution.width_x,
            a.resolution.height_y,
            a.frame_rate,
            b.resolution.width_x,
            b.resolution.height_y,
            b.frame_rate,
        ),
    };
    a0 < b0 || (a0 == b0 && (a1 < b1 || (a1 == b1 && a2 <= b2)))
}

fn contains_frame_format(v: &Vec<FrameFormat>, f: FrameFormat) -> (r: bool)
    ensures
        r == v@.contains(f),
{
    let mut i: usize = 0;
    while i < v.len()
        invariant
            i <= v.len(),
            forall|k: int| 0 <= k < i ==> v@[k] != f,
        decreases v.len() - i,
    {
        if v[i] == f {
            assert(v@[i as int] == f);
            return true;
        }
        i = i + 1;
    }
    false
}

fn is_eligible(req: &RequestedFormat, c: &CameraFormat) -> (r: bool)
    ensures
        r == eligible(*req, *c),
{
    if !contains_frame_format(&req.wanted_decoder, c.format) {
        return false;
    }
    match req.requested_format {
        RequestedFormatType::HighestResolution(r) => c.resolution == r,
        RequestedFormatType::HighestFrameRate(f) => c.frame_rate == f,
        RequestedFormatType::Exact(f) => *c == f,
        _ => true,
    }
}

impl RequestedFormat {
    /// Pick the format that satisfies this request from `all_formats`.
    pub fn fulfill(&self, all_formats: &Vec<CameraFormat>) -> (r: Option<CameraFormat>)
        ensures
            spec_fulfill(*self, all_formats@, r),
    {
        let t = self.requested_format;
        let first_only = matches!(t, RequestedFormatType::AnyFormat);
        let mut best: Option<usize> = None;
        let mut i: usize = 0;
        while i < all_formats.len() && !(first_only && best.is_some())
            invariant
                i <= all_formats.len(),
                t == self.requested_format,
                first_only == (t is AnyFormat),
                match best {
                    None => forall|m: int| 0 <= m < i ==> !eligible(*self, #[trigger] all_formats@[m]),
                    Some(k) => if t is AnyFormat {
                        is_first_pick(*self, all_formats@, k as int)
                    } else {
                        k < i && is_ranked_pick(*self, all_formats@.take(i as int), k as int)
                    },
                },
            decreases all_formats.len() - i,
        {
            let c = all_formats[i];
            if is_eligible(self, &c) {
                match best {
                    None => {
                        best = Some(i);
                    },
                    Some(k) => {
                        if rank_key_le(t, &all_formats[k], &c) {
                            best = Some(i);
                        }
                    },
                }
            }
            proof {
                let pre = all_formats@.take(i as int);
                let post = all_formats@.take(i + 1);
                assert forall|m: int| 0 <= m < i implies post[m] == pre[m] by {}
                assert(post[i as int] == c);
            }
            i = i + 1;
        }
        match best {
            None => None,
            Some(k) => {
                proof {
                    if !(t is AnyFormat) {
                        assert(all_formats@.take(all_formats.len() as int) =~= all_formats@);
                    }
                }
                Some(all_formats[k])
            },
        }
    }
}

/// The distinct encodings among `candidates`, in canonical order.
pub fn compatible_fourcc(candidates: &Vec<CameraFormat>) -> (r: Vec<FrameFormat>)
    ensures
        frame_formats_sorted(r@),
        forall|f: FrameFormat|
            r@.contains(f) <==> exists|i: int|
                0 <= i < candidates@.len() && (#[trigger] candidates@[i]).format == f,
{
    let mut all: Vec<FrameFormat> = Vec::new();
    let mut i: usize = 0;
    while i < candidates.len()
        invariant
            i <= candidates.len(),
            all@.len() == i,
            forall|k: int| 0 <= k < i ==> all@[k] == (#[trigger] candidates@[k]).format,
        decreases candidates.len() - i,
    {
        all.push(candidates[i].format);
        i = i + 1;
    }
    let r = sorted_distinct_frame_formats(&all);
    proof {
        assert forall|f: FrameFormat|
            r@.contains(f) <==> exists|i: int|
                0 <= i < candidates@.len() && (#[trigger] candidates@[i]).format == f by {
            if r@.contains(f) {
                let k = choose|k: int| 0 <= k < all@.len() && all@[k] == f;
                assert(candidates@[k].format == f);
            }
            if exists|i: int| 0 <= i < candidates@.len() && (#[trigger] candidates@[i]).format == f {
                let k = choose|k: int|
                    0 <= k < candidates@.len() && (#[trigger] candidates@[k]).format == f;
                assert(all@[k] == f);
            }
        }
    }
    r
}

/// The compatible encodings of a source that negotiated exactly one format.
pub fn compatible_fourcc_from_negotiated(fmt: CameraFormat) -> (r: Vec<FrameFormat>)
    ensures
        r@ == seq![fmt.format],
{
    let mut v: Vec<FrameFormat> = Vec::new();
    v.push(fmt.format);
    v
}

/// `Debug` rendering of a frame format: its variant name.
pub open spec fn frame_format_debug(f: FrameFormat) -> Seq<char> {
    match f {
        FrameFormat::MJPEG => "MJPEG"@,
        FrameFormat::YUYV => "YUYV"@,
        FrameFormat::NV12 => "NV12"@,
        FrameFormat::GRAY => "GRAY"@,
        FrameFormat::RAWRGB => "RAWRGB"@,
        FrameFormat::RAWBGR => "RAWBGR"@,
    }
}

/// `Debug` rendering of a camera format.
pub open spec fn camera_format_debug(c: CameraFormat) -> Seq<char> {
    "CameraFormat { resolution: Resolution { width_x: "@ + decimal(c.resolution.width_x as nat)
        + ", height_y: "@ + decimal(c.resolution.height_y as nat) + " }, format: "@
        + frame_format_debug(c.format) + ", frame_rate: "@ + decimal(c.frame_rate as nat) + " }"@
}

pub open spec fn camera_format_items_debug(s: Seq<CameraFormat>) -> Seq<char>
    decreases s.len(),
{
    if s.len() == 0 {
        Seq::empty()
    } else if s.len() == 1 {
        camera_format_debug(s[0])
    } else {
        camera_format_items_debug(s.drop_last()) + ", "@ + camera_format_debug(s.last())
    }
}

/// `Debug` rendering of a list of camera formats: `[a, b, ...]`.
pub open spec fn camera_format_list_debug(s: Seq<CameraFormat>) -> Seq<char> {
    "["@ + camera_format_items_debug(s) + "]"@
}

/// The `Debug` rendering of a frame format.
pub fn frame_format_debug_text(f: FrameFormat) -> (r: String)
    ensures
        r@ == frame_format_debug(f),
{
    match f {
        FrameFormat::MJPEG => String::from_str("MJPEG"),
        FrameFormat::YUYV => String::from_str("YUYV"),
        FrameFormat::NV12 => String::from_str("NV12"),
        FrameFormat::GRAY => String::from_str("GRAY"),
        FrameFormat::RAWRGB => String::from_str("RAWRGB"),
        FrameFormat::RAWBGR => String::from_str("RAWBGR"),
    }
}

/// The `Debug` rendering of a camera format.
pub fn camera_format_debug_text(c: &CameraFormat) -> (r: String)
    ensures
        r@ == camera_format_debug(*c),
{
    let s = String::from_str("CameraFormat { resolution: Resolution { width_x: ");
    let s = s.concat(u32_text(c.resolution.width_x).as_str());
    let s = s.concat(", height_y: ");
    let s = s.concat(u32_text(c.resolution.height_y).as_str());
    let s = s.concat(" }, format: ");
    let s = s.concat(frame_format_debug_text(c.format).as_str());
    let s = s.concat(", frame_rate: ");
    let s = s.concat(u32_text(c.frame_rate).as_str());
    s.concat(" }")
}

/// Render a list of camera formats as `camera_format_list_debug` says.
pub fn camera_format_list_debug_text(v: &Vec<CameraFormat>) -> (r: String)
    ensures
        r@ == camera_format_list_debug(v@),
{
    let mut items = String::new();
    let mut i: usize = 0;
    while i < v.len()
        invariant
            i <= v.len(),
            items@ == camera_format_items_debug(v@.take(i as int)),
        decreases v.len() - i,
    {
        let one = camera_format_debug_text(&v[i]);
        proof {
            assert(v@.take(i + 1).drop_last() =~= v@.take(i as int));
        }
        if i > 0 {
            items.append(", ");
        }
        items.append(one.as_str());
        i = i + 1;
    }
    assert(v@.take(v.len() as int) =~= v@);
    String::from_str("[").concat(items.as_str()).concat("]")
}

/// Negotiate the format to open a device with: the request's pick among
/// the device's advertised `candidates`. A device advertising nothing, or
/// nothing that satisfies the request, cannot be opened.
pub fn resolve_format(candidates: &Vec<CameraFormat>, req: &RequestedFormat) -> (r: Result<
    CameraFormat,
    NokhwaError,
>)
    ensures
        candidates@.len() == 0 ==> (r matches Err(e) && is_open_device_error(
            e,
            "GStreamer device"@,
            "no compatible formats"@,
        )),
        candidates@.len() > 0 ==> match r {
            Ok(c) => spec_fulfill(*req, candidates@, Some(c)),
            Err(e) => spec_fulfill(*req, candidates@, None) && is_open_device_error(
                e,
                "GStreamer device"@,
                "no format in the device's caps satisfied the request: "@
                    + camera_format_list_debug(candidates@),
            ),
        },
{
    if candidates.len() == 0 {
        return Err(
            NokhwaError::OpenDeviceError {
                device: String::from_str("GStreamer device"),
                error: String::from_str("no compatible formats"),
            },
        );
    }
    match req.fulfill(candidates) {
        Some(c) => Ok(c),
        None => Err(
            NokhwaError::OpenDeviceError {
                device: String::from_str("GStreamer device"),
                error: String::from_str(
                    "no format in the device's caps satisfied the request: ",
                ).concat(camera_format_list_debug_text(candidates).as_str()),
            },
        ),
    }
}

} // verus!
