//! The GStreamer capture device between pipeline starts: what it holds of
//! its source (a local device with its formats and staged controls, or a
//! URL), whether a pipeline runs, and what each request asks the caller to
//! do with the pipeline.
use vstd::prelude::*;

use crate::formats::{
    camera_format_debug, camera_format_debug_text, camera_format_list_debug, compatible_fourcc,
    compatible_fourcc_from_negotiated, eligible, is_first_pick, is_ranked_pick, resolve_format,
    spec_fulfill, RequestedFormat,
};
use crate::gst::{
    all_fit, cid_payload, control_handle, is_extra_for, is_extra_refusal, is_set_error,
    live_property_value, looks_like_url_scheme,
    spec_handle_is_live, spec_handle_name, spec_live_property_value, spec_looks_like_url,
    spec_v4l2_cid_value, v4l2_cid_value, GstControlHandle, PendingControls,
};
use crate::sorted::frame_formats_sorted;
use crate::types::{
    is_get_property_error, is_open_device_error, spec_control_name, spec_default_camera_format,
    spec_setter_text, CameraFormat, CameraIndex, CameraInfo, ControlValueSetter, FrameFormat,
    KnownCameraControl, NokhwaError,
};

verus! {

/// How a device index is opened: a URL string through `uridecodebin`,
/// anything else as a local device found by display name (a string) or
/// by position (a number).
#[derive(Debug)]
pub enum IndexRoute {
    Url(String),
    Local { display_name: String, positional: u32 },
}

/// Route a device index.
pub fn route_index(index: &CameraIndex) -> (r: IndexRoute)
    ensures
        match *index {
            CameraIndex::String(s) => if spec_looks_like_url(s@) {
                r matches IndexRoute::Url(u) && u@ == s@
            } else {
                r matches IndexRoute::Local { display_name, positional } && display_name@ == s@
                    && positional == 0
            },
            CameraIndex::Index(i) => r matches IndexRoute::Local { display_name, positional }
                && display_name@ == Seq::<char>::empty() && positional == i,
        },
{
    match index {
        CameraIndex::String(s) => {
            if looks_like_url_scheme(s.as_str()) {
                IndexRoute::Url(s.clone())
            } else {
                IndexRoute::Local { display_name: s.clone(), positional: 0 }
            }
        },
        CameraIndex::Index(i) => IndexRoute::Local { display_name: String::new(), positional: *i },
    }
}

/// What the device holds of its source.
#[allow(inconsistent_fields)]
pub enum GstSource {
    /// A local device: its advertised formats, the format it is set to, and
    /// the V4L2 control values staged for the next pipeline start.
    Local { formats: Vec<CameraFormat>, negotiated: CameraFormat, pending: PendingControls },
    /// A URL stream, and the format its first sample showed once opened.
    Uri { uri: String, negotiated: Option<CameraFormat> },
}

/// Whether a pipeline runs, and for a URL stream the format it delivers.
#[derive(Clone, Copy, Debug, PartialEq, Eq, Structural)]
pub enum GstPipeline {
    Closed,
    Local,
    Uri(CameraFormat),
}

/// The state of a GStreamer capture device.
pub struct GStreamerDevice {
    info: CameraInfo,
    source: GstSource,
    pipeline: GstPipeline,
}

/// What `set_control` asks of the caller once it accepted the value.
#[derive(Debug)]
pub enum ControlAction {
    /// Set the live property `property` of the running source to `value`.
    SetLive { property: String, value: i32 },
    /// Restart the running local pipeline at `format` with these
    /// `extra-controls` fields, so the staged value lands now.
    Restart { format: CameraFormat, extra: Option<Vec<(String, i32)>> },
    /// Nothing runs: the value waits for the next start.
    Staged,
}

/// What `set_format` asks of the caller once it accepted the format.
#[derive(Debug)]
pub enum FormatAction {
    /// Start a replacement pipeline at the format with these fields, then
    /// commit the format.
    Restart { format: CameraFormat, extra: Option<Vec<(String, i32)>> },
    /// Nothing runs: the format was recorded for the next start.
    Recorded,
}

/// What `open` asks of the caller.
#[derive(Debug)]
pub enum OpenAction {
    /// A pipeline already runs.
    AlreadyOpen,
    /// Start the local pipeline at `format` with these fields.
    StartLocal { format: CameraFormat, extra: Option<Vec<(String, i32)>> },
    /// Start a `uridecodebin` pipeline on `uri`.
    StartUri { uri: String },
}

impl GStreamerDevice {
    /// The device's descriptor.
    pub closed spec fn spec_info(self) -> CameraInfo {
        self.info
    }

    /// The device's descriptor.
    pub fn info(&self) -> (i: &CameraInfo)
        ensures
            *i == self.spec_info(),
    {
        &self.info
    }

    /// Whether the source is a URL stream.
    pub closed spec fn is_uri(self) -> bool {
        self.source is Uri
    }

    /// The pipeline state.
    pub closed spec fn pipeline_state(self) -> GstPipeline {
        self.pipeline
    }

    /// The formats a local source advertises (empty for a URL).
    pub closed spec fn formats(self) -> Seq<CameraFormat> {
        match self.source {
            GstSource::Local { formats, .. } => formats@,
            GstSource::Uri { .. } => Seq::empty(),
        }
    }

    /// The control values staged for the next start (none for a URL).
    pub closed spec fn pending(self) -> Map<Seq<char>, i64> {
        match self.source {
            GstSource::Local { pending, .. } => pending@,
            GstSource::Uri { .. } => Map::empty(),
        }
    }

    /// The format the device reports: a local source's set format; for a
    /// URL, the running pipeline's format, else the one the last opening
    /// showed, else the default.
    pub closed spec fn spec_negotiated(self) -> CameraFormat {
        match self.source {
            GstSource::Local { negotiated, .. } => negotiated,
            GstSource::Uri { negotiated, .. } => match self.pipeline {
                GstPipeline::Uri(f) => f,
                _ => match negotiated {
                    Some(f) => f,
                    None => spec_default_camera_format(),
                },
            },
        }
    }

    /// The formats the device reports it can be set to.
    pub open spec fn spec_compatible_formats(self) -> Seq<CameraFormat> {
        if self.is_uri() {
            match self.uri_negotiated() {
                Some(f) => seq![f],
                None => Seq::<CameraFormat>::empty(),
            }
        } else {
            self.formats()
        }
    }

    /// The format a URL stream showed when last opened.
    pub closed spec fn uri_negotiated(self) -> Option<CameraFormat> {
        match self.source {
            GstSource::Local { .. } => None,
            GstSource::Uri { negotiated, .. } => negotiated,
        }
    }

    /// The URL of a URL source.
    pub closed spec fn uri(self) -> Seq<char> {
        match self.source {
            GstSource::Local { .. } => Seq::empty(),
            GstSource::Uri { uri, .. } => uri@,
        }
    }

    /// A device on a URL stream, not yet opened.
    pub fn new_url(index: &CameraIndex, url: String) -> (d: GStreamerDevice)
        ensures
            d.is_uri(),
            d.uri() == url@,
            d.uri_negotiated() is None,
            d.pipeline_state() == GstPipeline::Closed,
            d.spec_negotiated() == spec_default_camera_format(),
            d.spec_compatible_formats() == Seq::<CameraFormat>::empty(),
            d.spec_info().human_name@ == url@,
            d.spec_info().description@ == "URL"@,
            d.spec_info().misc@ == url@,
            d.spec_info().index == *index,
    {
        let info = CameraInfo::new(
            url.clone(),
            String::from_str("URL"),
            url.clone(),
            index.duplicate(),
        );
        GStreamerDevice {
            info,
            source: GstSource::Uri { uri: url, negotiated: None },
            pipeline: GstPipeline::Closed,
        }
    }

    /// A device on a local source advertising `formats`, set to the format
    /// the request picks among them; no pick refuses the device.
    pub fn new_local(info: CameraInfo, formats: Vec<CameraFormat>, req: &RequestedFormat) -> (r:
        Result<GStreamerDevice, NokhwaError>)
        ensures
            formats@.len() == 0 ==> (r matches Err(e) && is_open_device_error(
                e,
                "GStreamer device"@,
                "no compatible formats"@,
            )),
            r matches Ok(d) ==> !d.is_uri() && d.formats() == formats@ && spec_fulfill(
                *req,
                formats@,
                Some(d.spec_negotiated()),
            ) && d.pending() == Map::<Seq<char>, i64>::empty() && d.pipeline_state()
                == GstPipeline::Closed && d.spec_info() == info,
            formats@.len() > 0 ==> (r is Ok <==> !spec_fulfill(*req, formats@, None)),
            formats@.len() > 0 ==> (r matches Err(e) ==> is_open_device_error(
                e,
                "GStreamer device"@,
                "no format in the device's caps satisfied the request: "@
                    + camera_format_list_debug(formats@),
            )),
    {
        let negotiated = match resolve_format(&formats, req) {
            Ok(f) => f,
            Err(e) => {
                return Err(e);
            },
        };
        proof {
            let k = choose|k: int|
                #![trigger formats@[k]]
                formats@[k] == negotiated && if req.requested_format is AnyFormat {
                    is_first_pick(*req, formats@, k)
                } else {
                    is_ranked_pick(*req, formats@, k)
                };
            assert(eligible(*req, formats@[k]));
        }
        Ok(
            GStreamerDevice {
                info,
                source: GstSource::Local { formats, negotiated, pending: PendingControls::new() },
                pipeline: GstPipeline::Closed,
            },
        )
    }

    /// Whether a pipeline runs.
    pub fn is_open(&self) -> (r: bool)
        ensures
            r == (self.pipeline_state() != GstPipeline::Closed),
    {
        match self.pipeline {
            GstPipeline::Closed => false,
            _ => true,
        }
    }

    /// Stop the pipeline.
    pub fn close(&mut self)
        ensures
            final(self).pipeline_state() == GstPipeline::Closed,
            final(self).is_uri() == old(self).is_uri(),
            final(self).formats() == old(self).formats(),
            final(self).pending() == old(self).pending(),
            final(self).uri_negotiated() == old(self).uri_negotiated(),
    {
        self.pipeline = GstPipeline::Closed;
    }

    /// The format the device reports.
    pub fn negotiated_format(&self) -> (f: CameraFormat)
        ensures
            f == self.spec_negotiated(),
    {
        match &self.source {
            GstSource::Local { negotiated, .. } => *negotiated,
            GstSource::Uri { negotiated, .. } => match self.pipeline {
                GstPipeline::Uri(f) => f,
                _ => match negotiated {
                    Some(f) => *f,
                    None => CameraFormat::default_format(),
                },
            },
        }
    }

    /// The formats the device can be set to: a local source's advertised
    /// list; for a URL, the one format the last opening showed, if any.
    pub fn compatible_formats(&self) -> (r: Vec<CameraFormat>)
        ensures
            r@ == self.spec_compatible_formats(),
            !self.is_uri() ==> r@ == self.formats(),
            self.is_uri() ==> r@ == match self.uri_negotiated() {
                Some(f) => seq![f],
                None => Seq::<CameraFormat>::empty(),
            },
    {
        match &self.source {
            GstSource::Local { formats, .. } => {
                let mut r: Vec<CameraFormat> = Vec::new();
                let mut i: usize = 0;
                while i < formats.len()
                    invariant
                        i <= formats@.len(),
                        r@ == formats@.take(i as int),
                    decreases formats@.len() - i,
                {
                    r.push(formats[i]);
                    proof {
                        assert(formats@.take(i + 1) =~= formats@.take(i as int).push(
                            formats@[i as int],
                        ));
                    }
                    i = i + 1;
                }
                assert(formats@.take(formats@.len() as int) =~= formats@);
                r
            },
            GstSource::Uri { negotiated, .. } => match negotiated {
                Some(f) => {
                    let r = vec![*f];
                    assert(r@ =~= seq![*f]);
                    r
                },
                None => Vec::new(),
            },
        }
    }

    /// The encodings the device can deliver: the distinct encodings of a
    /// local source's formats in canonical order; for a URL, the encoding
    /// the last opening showed, if any.
    pub fn compatible_fourcc(&self) -> (r: Vec<FrameFormat>)
        ensures
            !self.is_uri() ==> frame_formats_sorted(r@) && forall|f: FrameFormat|
                r@.contains(f) <==> exists|i: int|
                    0 <= i < self.formats().len() && (#[trigger] self.formats()[i]).format == f,
            self.is_uri() ==> r@ == match self.uri_negotiated() {
                Some(c) => seq![c.format],
                None => Seq::<FrameFormat>::empty(),
            },
            forall|c: CameraFormat|
                self.spec_compatible_formats().contains(c) ==> r@.contains(c.format),
    {
        match &self.source {
            GstSource::Local { formats, .. } => {
                let r = compatible_fourcc(formats);
                proof {
                    assert forall|c: CameraFormat|
                        self.spec_compatible_formats().contains(c) implies r@.contains(c.format) by {
                        let i = choose|i: int| 0 <= i < formats@.len() && formats@[i] == c;
                        assert(formats@[i].format == c.format);
                    }
                }
                r
            },
            GstSource::Uri { negotiated, .. } => match negotiated {
                Some(f) => {
                    let r = compatible_fourcc_from_negotiated(*f);
                    proof {
                        assert(r@[0] == f.format);
                    }
                    r
                },
                None => Vec::new(),
            },
        }
    }

    /// Controls can only be listed from a running source element.
    pub fn controls_request(&self) -> (r: Result<(), NokhwaError>)
        ensures
            r is Ok <==> self.pipeline_state() != GstPipeline::Closed,
            r matches Err(e) ==> is_get_property_error(
                e,
                "controls"@,
                "GStreamer controls() requires an open pipeline; call open() first"@,
            ),
    {
        match self.pipeline {
            GstPipeline::Closed => Err(
                NokhwaError::GetPropertyError {
                    property: String::from_str("controls"),
                    error: String::from_str(
                        "GStreamer controls() requires an open pipeline; call open() first",
                    ),
                },
            ),
            _ => Ok(()),
        }
    }

    /// Frames can only be pulled from a running pipeline.
    pub fn frame_request(&self) -> (r: Result<(), NokhwaError>)
        ensures
            r is Ok <==> self.pipeline_state() != GstPipeline::Closed,
            r matches Err(e) ==> e matches NokhwaError::ReadFrameError { message, format }
                && message@ == "pipeline not open — call open() first"@ && format == Some(
                self.spec_negotiated().format,
            ),
    {
        match self.pipeline {
            GstPipeline::Closed => Err(
                NokhwaError::ReadFrameError {
                    message: String::from_str("pipeline not open — call open() first"),
                    format: Some(self.negotiated_format().format),
                },
            ),
            _ => Ok(()),
        }
    }

    /// Set a control. A URL source has none, `Other` has no GStreamer
    /// name; a live property needs a running local pipeline and takes the
    /// value now; a V4L2 control value is staged (even when the restart
    /// that follows fails) and, while a local pipeline runs, the caller is
    /// asked to restart it with every staged value.
    pub fn set_control(&mut self, id: KnownCameraControl, value: &ControlValueSetter) -> (r: Result<
        ControlAction,
        NokhwaError,
    >)
        ensures
            final(self).pipeline_state() == old(self).pipeline_state(),
            final(self).is_uri() == old(self).is_uri(),
            final(self).formats() == old(self).formats(),
            final(self).spec_negotiated() == old(self).spec_negotiated(),
            final(self).spec_info() == old(self).spec_info(),
            old(self).is_uri() ==> final(self).pending() == old(self).pending() && (r matches Err(
                e,
            ) && is_set_error(
                e,
                spec_control_name(id),
                spec_setter_text(*value),
                "GStreamer URL-mode sources do not support controls"@,
            )),
            !old(self).is_uri() && id is Other ==> final(self).pending() == old(self).pending() && (
            r matches Err(e) && is_set_error(
                e,
                spec_control_name(id),
                spec_setter_text(*value),
                "KnownCameraControl::Other is not mapped by the GStreamer backend"@,
            )),
            !old(self).is_uri() && !(id is Other) && spec_handle_is_live(id) ==> final(self).pending() == old(self).pending() && if old(self).pipeline_state()
                != GstPipeline::Local {
                r matches Err(e) && is_set_error(
                    e,
                    spec_handle_name(id),
                    spec_setter_text(*value),
                    "pipeline not open; open() before set_control for live controls"@,
                )
            } else {
                match r {
                    Ok(a) => a matches ControlAction::SetLive { property, value: v }
                        && property@ == spec_handle_name(id) && spec_live_property_value(
                        spec_handle_name(id),
                        *value,
                        Ok::<i32, NokhwaError>(v),
                    ),
                    Err(e) => spec_live_property_value(
                        spec_handle_name(id),
                        *value,
                        Err::<i32, NokhwaError>(e),
                    ),
                }
            },
            !old(self).is_uri() && !(id is Other) && !spec_handle_is_live(id) ==> match cid_payload(
                *value,
            ) {
                None => final(self).pending() == old(self).pending() && (r matches Err(e)
                    && spec_v4l2_cid_value(spec_handle_name(id), *value, Err::<i64, NokhwaError>(e))),
                Some(x) => final(self).pending() == old(self).pending().insert(
                    spec_handle_name(id),
                    x,
                ) && if old(self).pipeline_state() == GstPipeline::Local {
                    &&& (r is Err <==> !all_fit(final(self).pending()))
                    &&& match r {
                        Ok(a) => a matches ControlAction::Restart { format, extra } && format
                            == old(self).spec_negotiated() && is_extra_for(
                            final(self).pending(),
                            extra,
                        ),
                        Err(e) => is_extra_refusal(final(self).pending(), e),
                    }
                } else {
                    r matches Ok(ControlAction::Staged)
                },
            },
    {
        let is_local_open = match self.pipeline {
            GstPipeline::Local => true,
            _ => false,
        };
        if let GstSource::Uri { .. } = self.source {
            return Err(
                NokhwaError::SetPropertyError {
                    property: id.name(),
                    value: value.text(),
                    error: String::from_str("GStreamer URL-mode sources do not support controls"),
                },
            );
        }
        let handle = match control_handle(id) {
            Some(h) => h,
            None => {
                return Err(
                    NokhwaError::SetPropertyError {
                        property: id.name(),
                        value: value.text(),
                        error: String::from_str(
                            "KnownCameraControl::Other is not mapped by the GStreamer backend",
                        ),
                    },
                );
            },
        };
        match handle {
            GstControlHandle::Property(name) => {
                if !is_local_open {
                    return Err(
                        NokhwaError::SetPropertyError {
                            property: name.to_string(),
                            value: value.text(),
                            error: String::from_str(
                                "pipeline not open; open() before set_control for live controls",
                            ),
                        },
                    );
                }
                match live_property_value(name, value) {
                    Ok(v) => Ok(ControlAction::SetLive { property: name.to_string(), value: v }),
                    Err(e) => Err(e),
                }
            },
            GstControlHandle::V4l2Cid(cid) => {
                let x = match v4l2_cid_value(cid, value) {
                    Ok(x) => x,
                    Err(e) => {
                        return Err(e);
                    },
                };
                let mut src = GstSource::Uri { uri: String::new(), negotiated: None };
                std::mem::swap(&mut src, &mut self.source);
                match src {
                    GstSource::Local { formats, negotiated, mut pending } => {
                        let ghost before = pending@;
                        assert(before == old(self).pending());
                        assert(cid@ == spec_handle_name(id));
                        let key = cid.to_string();
                        assert(key@ == cid@);
                        pending.insert(key, x);
                        let r = if is_local_open {
                            match pending.build_extra_controls() {
                                Ok(extra) => Ok(ControlAction::Restart { format: negotiated, extra }),
                                Err(e) => Err(e),
                            }
                        } else {
                            Ok(ControlAction::Staged)
                        };
                        self.source = GstSource::Local { formats, negotiated, pending };
                        assert(self.pending() == before.insert(spec_handle_name(id), x));
                        proof {
                            assert(spec_v4l2_cid_value(
                                spec_handle_name(id),
                                *value,
                                Ok::<i64, NokhwaError>(x),
                            ));
                        }
                        r
                    },
                    GstSource::Uri { uri, negotiated } => {
                        self.source = GstSource::Uri { uri, negotiated };
                        Ok(ControlAction::Staged)
                    },
                }
            },
        }
    }

    /// Set the format. A URL stream negotiates its own; a local source
    /// takes only an advertised format. While a pipeline runs the caller is
    /// asked to start a replacement and then `commit_format`; otherwise
    /// the format is recorded now.
    pub fn set_format(&mut self, f: CameraFormat) -> (r: Result<FormatAction, NokhwaError>)
        ensures
            final(self).pipeline_state() == old(self).pipeline_state(),
            final(self).is_uri() == old(self).is_uri(),
            final(self).formats() == old(self).formats(),
            final(self).pending() == old(self).pending(),
            final(self).spec_info() == old(self).spec_info(),
            old(self).is_uri() ==> final(self).spec_negotiated() == old(self).spec_negotiated() && (
            r matches Err(e) && is_set_error(
                e,
                "CameraFormat"@,
                camera_format_debug(f),
                "GStreamer URL-mode sources negotiate format from the stream; set_format is not meaningful"@,
            )),
            !old(self).is_uri() && !old(self).formats().contains(f) ==> final(self).spec_negotiated()
                == old(self).spec_negotiated() && (r matches Err(e) && is_set_error(
                e,
                "CameraFormat"@,
                camera_format_debug(f),
                "not in the device's compatible format list"@,
            )),
            !old(self).is_uri() && old(self).formats().contains(f) && old(self).pipeline_state()
                == GstPipeline::Closed ==> final(self).spec_negotiated() == f && r matches Ok(
                FormatAction::Recorded,
            ),
            !old(self).is_uri() && old(self).formats().contains(f) && old(self).pipeline_state()
                != GstPipeline::Closed ==> {
                &&& final(self).spec_negotiated() == old(self).spec_negotiated()
                &&& (r is Err <==> !all_fit(old(self).pending()))
                &&& match r {
                    Ok(a) => a matches FormatAction::Restart { format, extra } && format == f
                        && is_extra_for(old(self).pending(), extra),
                    Err(e) => is_extra_refusal(old(self).pending(), e),
                }
            },
    {
        let is_open = match self.pipeline {
            GstPipeline::Closed => false,
            _ => true,
        };
        match &mut self.source {
            GstSource::Uri { .. } => Err(
                NokhwaError::SetPropertyError {
                    property: String::from_str("CameraFormat"),
                    value: camera_format_debug_text(&f),
                    error: String::from_str(
                        "GStreamer URL-mode sources negotiate format from the stream; set_format is not meaningful",
                    ),
                },
            ),
            GstSource::Local { formats, negotiated, pending } => {
                let mut found = false;
                let mut i: usize = 0;
                while i < formats.len()
                    invariant
                        i <= formats@.len(),
                        found ==> formats@.contains(f),
                        !found ==> forall|k: int| 0 <= k < i ==> formats@[k] != f,
                    decreases formats@.len() - i,
                {
                    if formats[i] == f {
                        found = true;
                    }
                    i = i + 1;
                }
                if !found {
                    return Err(
                        NokhwaError::SetPropertyError {
                            property: String::from_str("CameraFormat"),
                            value: camera_format_debug_text(&f),
                            error: String::from_str("not in the device's compatible format list"),
                        },
                    );
                }
                if is_open {
                    match pending.build_extra_controls() {
                        Ok(extra) => Ok(FormatAction::Restart { format: f, extra }),
                        Err(e) => Err(e),
                    }
                } else {
                    *negotiated = f;
                    Ok(FormatAction::Recorded)
                }
            },
        }
    }

    /// A replacement pipeline started at `f`: it is now the local source's
    /// format. A URL source is left as it is.
    pub fn commit_format(&mut self, f: CameraFormat)
        ensures
            final(self).pipeline_state() == old(self).pipeline_state(),
            final(self).is_uri() == old(self).is_uri(),
            final(self).formats() == old(self).formats(),
            final(self).pending() == old(self).pending(),
            !old(self).is_uri() ==> final(self).spec_negotiated() == f,
            old(self).is_uri() ==> final(self).spec_negotiated() == old(self).spec_negotiated(),
    {
        match &mut self.source {
            GstSource::Local { negotiated, .. } => {
                *negotiated = f;
            },
            GstSource::Uri { .. } => {},
        }
    }

    /// What opening takes: nothing when a pipeline runs; a local start at
    /// the set format with the staged controls (refused when a staged
    /// value does not fit); or a URL start.
    pub fn open_action(&self) -> (r: Result<OpenAction, NokhwaError>)
        ensures
            self.pipeline_state() != GstPipeline::Closed ==> r matches Ok(OpenAction::AlreadyOpen),
            self.pipeline_state() == GstPipeline::Closed && self.is_uri() ==> (r matches Ok(
                OpenAction::StartUri { uri },
            ) && uri@ == self.uri()),
            self.pipeline_state() == GstPipeline::Closed && !self.is_uri() ==> {
                &&& (r is Err <==> !all_fit(self.pending()))
                &&& match r {
                    Ok(a) => a matches OpenAction::StartLocal { format, extra } && format
                        == self.spec_negotiated() && is_extra_for(self.pending(), extra),
                    Err(e) => is_extra_refusal(self.pending(), e),
                }
            },
    {
        if self.pipeline != GstPipeline::Closed {
            return Ok(OpenAction::AlreadyOpen);
        }
        match &self.source {
            GstSource::Local { negotiated, pending, .. } => match pending.build_extra_controls() {
                Ok(extra) => Ok(OpenAction::StartLocal { format: *negotiated, extra }),
                Err(e) => Err(e),
            },
            GstSource::Uri { uri, .. } => Ok(OpenAction::StartUri { uri: uri.clone() }),
        }
    }

    /// The local pipeline started.
    pub fn opened_local(&mut self)
        ensures
            !old(self).is_uri() ==> final(self).pipeline_state() == GstPipeline::Local,
            old(self).is_uri() ==> final(self).pipeline_state() == old(self).pipeline_state(),
            final(self).is_uri() == old(self).is_uri(),
            final(self).formats() == old(self).formats(),
            final(self).pending() == old(self).pending(),
            final(self).spec_negotiated() == old(self).spec_negotiated(),
    {
        match self.source {
            GstSource::Local { .. } => {
                self.pipeline = GstPipeline::Local;
            },
            GstSource::Uri { .. } => {},
        }
    }

    /// The URL pipeline started and its first sample showed format `f`.
    pub fn opened_uri(&mut self, f: CameraFormat)
        ensures
            old(self).is_uri() ==> final(self).pipeline_state() == GstPipeline::Uri(f)
                && final(self).uri_negotiated() == Some(f) && final(self).spec_negotiated() == f,
            !old(self).is_uri() ==> final(self).pipeline_state() == old(self).pipeline_state()
                && final(self).spec_negotiated() == old(self).spec_negotiated(),
            final(self).is_uri() == old(self).is_uri(),
            final(self).formats() == old(self).formats(),
            final(self).pending() == old(self).pending(),
    {
        let is_uri = match self.source {
            GstSource::Uri { .. } => true,
            _ => false,
        };
        if is_uri {
            match &mut self.source {
                GstSource::Uri { negotiated, .. } => {
                    *negotiated = Some(f);
                },
                GstSource::Local { .. } => {},
            }
            self.pipeline = GstPipeline::Uri(f);
        }
    }
}

} // verus!
