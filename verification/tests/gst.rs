use nokhwa_bindings::formats::{
    compatible_fourcc, compatible_fourcc_from_negotiated, resolve_format, RequestedFormat,
    RequestedFormatType,
};
use nokhwa_bindings::gst::{
    caps_for, control_handle, device_info, element_err, known_from_property_name,
    list_controls, live_property_value, looks_like_url_scheme, pipeline_video_format,
    first_sample_format, sample_format, select_device, should_link_pad,
    v4l2_cid_value, CapsStructure, GstControlHandle, IntParam, PendingControls, PropertySpec,
};
use nokhwa_bindings::types::{
    ApiBackend, CameraFormat, CameraIndex, ControlValueDescription, ControlValueSetter,
    FrameFormat, KnownCameraControl, KnownCameraControlFlag, NokhwaError, Resolution,
};

fn fmt(w: u32, h: u32, ff: FrameFormat, fps: u32) -> CameraFormat {
    CameraFormat::new(Resolution::new(w, h), ff, fps)
}

fn with_formats(t: RequestedFormatType, f: &[FrameFormat]) -> RequestedFormat {
    RequestedFormat { requested_format: t, wanted_decoder: f.to_vec() }
}

fn unsupported_setters() -> Vec<ControlValueSetter> {
    vec![
        ControlValueSetter::Float(1.5f64.to_bits()),
        ControlValueSetter::String("foo".into()),
        ControlValueSetter::Bytes(vec![1, 2, 3]),
        ControlValueSetter::KeyValue(1, 2),
        ControlValueSetter::Point(0.0f64.to_bits(), 0.0f64.to_bits()),
        ControlValueSetter::RGB(0.0f64.to_bits(), 0.0f64.to_bits(), 0.0f64.to_bits()),
        ControlValueSetter::NoValue,
        ControlValueSetter::EnumValue(7),
    ]
}

#[test]
fn control_handle_brightness_is_live_property() {
    match control_handle(KnownCameraControl::Brightness) {
        Some(GstControlHandle::Property("brightness")) => {},
        other => panic!("expected Property(\"brightness\"), got {other:?}"),
    }
}

#[test]
fn control_handle_contrast_is_live_property() {
    match control_handle(KnownCameraControl::Contrast) {
        Some(GstControlHandle::Property("contrast")) => {},
        other => panic!("expected Property(\"contrast\"), got {other:?}"),
    }
}

#[test]
fn control_handle_hue_is_live_property() {
    match control_handle(KnownCameraControl::Hue) {
        Some(GstControlHandle::Property("hue")) => {},
        other => panic!("expected Property(\"hue\"), got {other:?}"),
    }
}

#[test]
fn control_handle_saturation_is_live_property() {
    match control_handle(KnownCameraControl::Saturation) {
        Some(GstControlHandle::Property("saturation")) => {},
        other => panic!("expected Property(\"saturation\"), got {other:?}"),
    }
}

#[test]
fn control_handle_extra_controls_use_v4l2_cid_names() {
    let pairs: &[(KnownCameraControl, &str)] = &[
        (KnownCameraControl::Sharpness, "sharpness"),
        (KnownCameraControl::Gamma, "gamma"),
        (KnownCameraControl::WhiteBalance, "white_balance_temperature"),
        (KnownCameraControl::BacklightComp, "backlight_compensation"),
        (KnownCameraControl::Gain, "gain"),
        (KnownCameraControl::Pan, "pan_absolute"),
        (KnownCameraControl::Tilt, "tilt_absolute"),
        (KnownCameraControl::Zoom, "zoom_absolute"),
        (KnownCameraControl::Exposure, "exposure_time_absolute"),
        (KnownCameraControl::Iris, "iris_absolute"),
        (KnownCameraControl::Focus, "focus_absolute"),
    ];
    for (kcc, expected) in pairs {
        match control_handle(*kcc) {
            Some(GstControlHandle::V4l2Cid(name)) => assert_eq!(name, *expected, "wrong CID name for {kcc:?}"),
            other => panic!("expected V4l2Cid for {kcc:?}, got {other:?}"),
        }
    }
}

#[test]
fn control_handle_other_returns_none() {
    assert!(control_handle(KnownCameraControl::Other(0xdead_beef)).is_none());
}

#[test]
fn control_handle_covers_every_known_variant() {
    for idx in 0..15u8 {
        let kcc = KnownCameraControl::from_index(idx).unwrap();
        assert!(control_handle(kcc).is_some(), "control_handle({kcc:?}) returned None");
    }
}

#[test]
fn known_from_property_name_maps_four_v4l2src_props() {
    assert_eq!(known_from_property_name("brightness"), Some(KnownCameraControl::Brightness));
    assert_eq!(known_from_property_name("contrast"), Some(KnownCameraControl::Contrast));
    assert_eq!(known_from_property_name("hue"), Some(KnownCameraControl::Hue));
    assert_eq!(known_from_property_name("saturation"), Some(KnownCameraControl::Saturation));
}

#[test]
fn known_from_property_name_unknown_returns_none() {
    assert!(known_from_property_name("name").is_none());
    assert!(known_from_property_name("zoom_absolute").is_none());
    assert!(known_from_property_name("").is_none());
    assert!(known_from_property_name("Brightness").is_none());
}

#[test]
fn build_extra_controls_empty_returns_none() {
    assert!(PendingControls::new().build_extra_controls().unwrap().is_none());
}

#[test]
fn build_extra_controls_writes_field_per_entry() {
    let mut pending = PendingControls::new();
    pending.insert("zoom_absolute".to_string(), 5);
    pending.insert("focus_absolute".to_string(), 100);
    pending.insert("exposure_time_absolute".to_string(), 250);
    let fields = pending.build_extra_controls().unwrap().unwrap();
    let get = |k: &str| fields.iter().find(|(n, _)| n == k).map(|(_, v)| *v);
    assert_eq!(fields.len(), 3);
    assert_eq!(get("zoom_absolute"), Some(5));
    assert_eq!(get("focus_absolute"), Some(100));
    assert_eq!(get("exposure_time_absolute"), Some(250));
}

#[test]
fn build_extra_controls_later_value_replaces_earlier() {
    let mut pending = PendingControls::new();
    pending.insert("zoom_absolute".to_string(), 5);
    pending.insert("zoom_absolute".to_string(), 9);
    let fields = pending.build_extra_controls().unwrap().unwrap();
    assert_eq!(fields, vec![("zoom_absolute".to_string(), 9)]);
    assert!(!pending.is_empty());
}

#[test]
fn build_extra_controls_errors_on_i64_outside_i32_range() {
    let mut pending = PendingControls::new();
    let bad_value = i64::from(i32::MAX) + 1;
    pending.insert("focus_absolute".to_string(), bad_value);
    match pending.build_extra_controls().unwrap_err() {
        NokhwaError::SetPropertyError { property, value, error } => {
            assert_eq!(property, "focus_absolute");
            assert_eq!(value, bad_value.to_string());
            assert_eq!(error, "i64 value exceeds i32 range expected by v4l2src extra-controls");
        },
        other => panic!("expected SetPropertyError, got {other:?}"),
    }
}

#[test]
fn build_extra_controls_names_first_bad_control_in_name_order() {
    let mut pending = PendingControls::new();
    pending.insert("zoom_absolute".to_string(), i64::MIN);
    pending.insert("gain".to_string(), 1);
    pending.insert("focus_absolute".to_string(), i64::MAX);
    match pending.build_extra_controls().unwrap_err() {
        NokhwaError::SetPropertyError { property, .. } => assert_eq!(property, "focus_absolute"),
        other => panic!("expected SetPropertyError, got {other:?}"),
    }
}

#[test]
fn v4l2_cid_value_integer_passthrough() {
    let v = v4l2_cid_value("zoom_absolute", &ControlValueSetter::Integer(42)).unwrap();
    assert_eq!(v, 42);
}

#[test]
fn v4l2_cid_value_boolean_maps_to_zero_or_one() {
    assert_eq!(v4l2_cid_value("backlight_compensation", &ControlValueSetter::Boolean(true)).unwrap(), 1);
    assert_eq!(v4l2_cid_value("backlight_compensation", &ControlValueSetter::Boolean(false)).unwrap(), 0);
}

#[test]
fn v4l2_cid_value_rejects_unsupported_setters() {
    let cid = "focus_absolute";
    for setter in &unsupported_setters() {
        match v4l2_cid_value(cid, setter).unwrap_err() {
            NokhwaError::SetPropertyError { property, value, error } => {
                assert_eq!(property, cid, "wrong property for {setter:?}");
                assert_eq!(value, setter.text(), "value field must carry the setter's rendering");
                assert_eq!(error, "unsupported ControlValueSetter variant for V4L2 CID");
            },
            other => panic!("expected SetPropertyError for {setter:?}, got {other:?}"),
        }
    }
}

#[test]
fn set_live_property_rejects_i64_outside_i32_range() {
    let too_big_i64 = i64::from(i32::MAX) + 1;
    match live_property_value("brightness", &ControlValueSetter::Integer(too_big_i64)).unwrap_err() {
        NokhwaError::SetPropertyError { property, value, error } => {
            assert_eq!(property, "brightness");
            assert_eq!(value, too_big_i64.to_string());
            assert_eq!(error, "i64 value exceeds i32 range expected by v4l2src property");
        },
        other => panic!("expected SetPropertyError, got {other:?}"),
    }
    let too_small_i64 = i64::from(i32::MIN) - 1;
    match live_property_value("brightness", &ControlValueSetter::Integer(too_small_i64)).unwrap_err() {
        NokhwaError::SetPropertyError { property, value, .. } => {
            assert_eq!(property, "brightness");
            assert_eq!(value, too_small_i64.to_string());
        },
        other => panic!("expected SetPropertyError, got {other:?}"),
    }
}

#[test]
fn set_live_property_rejects_unsupported_setters() {
    let property = "brightness";
    for setter in &unsupported_setters() {
        match live_property_value(property, setter).unwrap_err() {
            NokhwaError::SetPropertyError { property: p, value, error } => {
                assert_eq!(p, property, "wrong property for {setter:?}");
                assert_eq!(value, setter.text(), "value field must carry the setter's rendering");
                assert_eq!(error, "unsupported ControlValueSetter variant for live property");
            },
            other => panic!("expected SetPropertyError for {setter:?}, got {other:?}"),
        }
    }
}

#[test]
fn set_live_property_boolean_maps_to_zero_or_one() {
    assert_eq!(live_property_value("num-buffers", &ControlValueSetter::Boolean(false)).unwrap(), 0);
    assert_eq!(live_property_value("num-buffers", &ControlValueSetter::Boolean(true)).unwrap(), 1);
    assert_eq!(live_property_value("brightness", &ControlValueSetter::Integer(-7)).unwrap(), -7);
}

fn prop(name: &str, readable: bool, writable: bool, int_param: Option<IntParam>) -> PropertySpec {
    PropertySpec { name: name.to_string(), readable, writable, int_param }
}

#[test]
fn list_controls_returns_empty_for_element_without_matching_property_names() {
    let props = vec![
        prop("is-live", true, true, None),
        prop("num-buffers", true, true, Some(IntParam { minimum: -1, maximum: i32::MAX, default: -1, current: -1 })),
        prop("sync", true, true, None),
    ];
    let controls = list_controls(&props);
    assert!(controls.is_empty(), "got {controls:?}");
}

#[test]
fn list_controls_returns_empty_for_videotestsrc() {
    let props = vec![
        prop("pattern", true, true, None),
        prop("kt", true, true, Some(IntParam { minimum: -128, maximum: 127, default: 0, current: 0 })),
        prop("kx", true, true, Some(IntParam { minimum: -128, maximum: 127, default: 0, current: 0 })),
        prop("Brightness", true, true, Some(IntParam { minimum: 0, maximum: 255, default: 0, current: 0 })),
        prop("brightness_level", true, true, Some(IntParam { minimum: 0, maximum: 255, default: 0, current: 0 })),
    ];
    assert!(list_controls(&props).is_empty());
}

#[test]
fn list_controls_builds_live_integer_controls() {
    let props = vec![
        prop("brightness", true, true, Some(IntParam { minimum: -10, maximum: 10, default: 0, current: 3 })),
        prop("contrast", true, false, Some(IntParam { minimum: 0, maximum: 10, default: 5, current: 5 })),
        prop("hue", true, true, None),
    ];
    let controls = list_controls(&props);
    assert_eq!(controls.len(), 1);
    let c = &controls[0];
    assert_eq!(c.control, KnownCameraControl::Brightness);
    assert_eq!(c.name, "Brightness");
    assert_eq!(c.flag, vec![KnownCameraControlFlag::Manual]);
    assert!(c.active);
    match c.description {
        ControlValueDescription::IntegerRange { min, max, value, step, default } => {
            assert_eq!((min, max, value, step, default), (-10, 10, 3, 1, 0));
        },
        ref other => panic!("expected IntegerRange, got {other:?}"),
    }
}

#[test]
fn compatible_fourcc_empty_returns_empty() {
    assert_eq!(compatible_fourcc(&vec![]), Vec::<FrameFormat>::new());
}

#[test]
fn compatible_fourcc_dedupes_and_sorts() {
    let candidates = vec![
        fmt(640, 480, FrameFormat::YUYV, 30),
        fmt(1280, 720, FrameFormat::NV12, 30),
        fmt(640, 480, FrameFormat::YUYV, 60),
        fmt(1920, 1080, FrameFormat::MJPEG, 30),
        fmt(1280, 720, FrameFormat::YUYV, 30),
    ];
    let out = compatible_fourcc(&candidates);
    let mut expected = vec![FrameFormat::YUYV, FrameFormat::NV12, FrameFormat::MJPEG];
    expected.sort();
    assert_eq!(out, expected);
}

#[test]
fn compatible_fourcc_singleton_returns_singleton() {
    let candidates = vec![fmt(640, 480, FrameFormat::GRAY, 30)];
    assert_eq!(compatible_fourcc(&candidates), vec![FrameFormat::GRAY]);
}

#[test]
fn compatible_fourcc_ordering_matches_frame_format_ord() {
    let candidates = vec![
        fmt(640, 480, FrameFormat::RAWBGR, 30),
        fmt(640, 480, FrameFormat::RAWRGB, 30),
        fmt(640, 480, FrameFormat::GRAY, 30),
        fmt(640, 480, FrameFormat::NV12, 30),
        fmt(640, 480, FrameFormat::MJPEG, 30),
        fmt(640, 480, FrameFormat::YUYV, 30),
    ];
    let mut got = compatible_fourcc(&candidates);
    let mut expected = got.clone();
    expected.sort();
    assert_eq!(got, expected);
    got = compatible_fourcc(&got.iter().map(|f| fmt(1, 1, *f, 30)).collect::<Vec<_>>());
    assert_eq!(got, expected);
}

#[test]
fn resolve_format_empty_candidates_errors_with_open_device() {
    let req = with_formats(RequestedFormatType::AbsoluteHighestResolution, &[]);
    match resolve_format(&vec![], &req).unwrap_err() {
        NokhwaError::OpenDeviceError { device, error } => {
            assert_eq!(device, "GStreamer device");
            assert_eq!(error, "no compatible formats");
        },
        other => panic!("expected OpenDeviceError, got {other:?}"),
    }
}

#[test]
fn resolve_format_no_matching_format_errors() {
    let candidates = vec![fmt(640, 480, FrameFormat::MJPEG, 30), fmt(1280, 720, FrameFormat::MJPEG, 30)];
    let req = with_formats(RequestedFormatType::AbsoluteHighestResolution, &[FrameFormat::YUYV]);
    match resolve_format(&candidates, &req).unwrap_err() {
        NokhwaError::OpenDeviceError { device, error } => {
            assert_eq!(device, "GStreamer device");
            let expected = format!("no format in the device's caps satisfied the request: {candidates:?}");
            assert_eq!(error, expected);
        },
        other => panic!("expected OpenDeviceError, got {other:?}"),
    }
}

#[test]
fn resolve_format_picks_highest_resolution() {
    let candidates = vec![
        fmt(640, 480, FrameFormat::YUYV, 30),
        fmt(1920, 1080, FrameFormat::YUYV, 30),
        fmt(1280, 720, FrameFormat::YUYV, 30),
    ];
    let req = with_formats(RequestedFormatType::AbsoluteHighestResolution, &[FrameFormat::YUYV]);
    let chosen = resolve_format(&candidates, &req).unwrap();
    assert_eq!(chosen.resolution, Resolution::new(1920, 1080));
    assert_eq!(chosen.format, FrameFormat::YUYV);
}

#[test]
fn resolve_format_picks_highest_framerate_at_max_resolution() {
    let candidates = vec![
        fmt(1920, 1080, FrameFormat::YUYV, 30),
        fmt(1920, 1080, FrameFormat::YUYV, 60),
        fmt(1280, 720, FrameFormat::YUYV, 120),
    ];
    let req = with_formats(RequestedFormatType::AbsoluteHighestResolution, &[FrameFormat::YUYV]);
    let chosen = resolve_format(&candidates, &req).unwrap();
    assert_eq!(chosen.resolution, Resolution::new(1920, 1080));
    assert_eq!(chosen.frame_rate, 60);
}

#[test]
fn resolve_format_exact_returns_exact_match() {
    let target = fmt(1280, 720, FrameFormat::NV12, 30);
    let candidates = vec![fmt(640, 480, FrameFormat::YUYV, 30), target, fmt(1920, 1080, FrameFormat::MJPEG, 60)];
    let req = with_formats(
        RequestedFormatType::Exact(target),
        &[FrameFormat::NV12, FrameFormat::YUYV, FrameFormat::MJPEG],
    );
    assert_eq!(resolve_format(&candidates, &req).unwrap(), target);
}

#[test]
fn resolve_format_filters_by_wanted_decoder_list() {
    let candidates = vec![fmt(1920, 1080, FrameFormat::YUYV, 60), fmt(1920, 1080, FrameFormat::MJPEG, 30)];
    let req = with_formats(RequestedFormatType::AbsoluteHighestResolution, &[FrameFormat::MJPEG]);
    assert_eq!(resolve_format(&candidates, &req).unwrap().format, FrameFormat::MJPEG);
}

#[test]
fn element_err_uses_open_stream_with_gstreamer_backend() {
    match element_err("capsfilter", "no plugin") {
        NokhwaError::OpenStreamError { message, backend } => {
            assert_eq!(message, "capsfilter: no plugin");
            assert_eq!(backend, Some(ApiBackend::GStreamer));
        },
        other => panic!("expected OpenStreamError, got {other:?}"),
    }
    match element_err("link convert->appsink", "negotiation failed") {
        NokhwaError::OpenStreamError { message, backend } => {
            assert_eq!(message, "link convert->appsink: negotiation failed");
            assert_eq!(backend, Some(ApiBackend::GStreamer));
        },
        other => panic!("expected OpenStreamError, got {other:?}"),
    }
}

#[test]
fn caps_for_emits_video_x_raw_with_all_four_fields() {
    let caps = caps_for(fmt(1920, 1080, FrameFormat::YUYV, 30), "YUY2");
    assert_eq!(caps.media_type, "video/x-raw");
    assert_eq!(caps.format, "YUY2");
    assert_eq!(caps.width, 1920);
    assert_eq!(caps.height, 1080);
    assert_eq!((caps.framerate_numer, caps.framerate_denom), (30, 1));
}

#[test]
fn caps_for_forwards_each_input_field_independently() {
    let caps = caps_for(fmt(640, 480, FrameFormat::MJPEG, 60), "ENCODED");
    assert_eq!(caps.width, 640);
    assert_eq!(caps.height, 480);
    assert_eq!((caps.framerate_numer, caps.framerate_denom), (60, 1));
}

#[test]
fn looks_like_uri_detects_all_known_schemes() {
    for s in [
        "rtsp://example.com/stream",
        "rtsps://example.com/stream",
        "rtmp://example.com/live",
        "rtmps://example.com/live",
        "http://example.com/video.mp4",
        "https://example.com/video.mp4",
        "file:///tmp/video.mp4",
        "srt://example.com:8080",
        "udp://239.0.0.1:5004",
        "tcp://example.com:1234",
    ] {
        assert!(looks_like_url_scheme(s), "expected URL: {s}");
    }
}

#[test]
fn looks_like_uri_rejects_non_uri_inputs() {
    for s in ["", "/dev/video0", "video0", "Logitech BRIO", "ftp://example.com/file", "ws://example.com", "rtsp", "http:/foo"] {
        assert!(!looks_like_url_scheme(s), "expected non-URL: {s}");
    }
}

#[test]
fn looks_like_uri_is_case_insensitive() {
    for s in ["RTSP://example.com", "Http://example.com", "FILE:///tmp/x", "RtMpS://example.com"] {
        assert!(looks_like_url_scheme(s), "expected URL (mixed case): {s}");
    }
}

#[test]
fn scheme_list_shape_is_stable() {
    for prefix in ["rtsp://", "rtsps://", "rtmp://", "rtmps://", "http://", "https://", "file://", "srt://", "udp://", "tcp://"] {
        assert!(looks_like_url_scheme(prefix), "{prefix} should be a URL prefix");
    }
    for unsupported in ["ftp://", "ws://", "wss://", "data:", "mms://"] {
        assert!(!looks_like_url_scheme(unsupported), "{unsupported} unexpectedly recognised");
    }
}

#[test]
fn compatible_fourcc_from_negotiated_returns_singleton() {
    for f in [FrameFormat::MJPEG, FrameFormat::YUYV, FrameFormat::NV12, FrameFormat::GRAY, FrameFormat::RAWRGB, FrameFormat::RAWBGR] {
        let cf = CameraFormat::new(Resolution::new(640, 480), f, 30);
        assert_eq!(compatible_fourcc_from_negotiated(cf), vec![f], "wrong singleton for {f:?}");
    }
}

fn structure(format: &str, frame_format: Option<FrameFormat>, w: i32, h: i32, framerate: Option<(i32, i32)>) -> CapsStructure {
    CapsStructure {
        format: Ok(format.to_string()),
        frame_format,
        width: Ok(w),
        height: Ok(h),
        framerate,
    }
}

fn structure_error(r: Result<CameraFormat, NokhwaError>) -> (String, String) {
    match r {
        Err(NokhwaError::StructureError { structure, error }) => (structure, error),
        other => panic!("expected StructureError, got {other:?}"),
    }
}

#[test]
fn sample_format_errors_when_caps_missing() {
    let (s, e) = structure_error(sample_format(&None));
    assert_eq!(s, "sample caps");
    assert_eq!(e, "first sample had no caps");
}

#[test]
fn sample_format_errors_when_caps_have_no_structure() {
    let (s, e) = structure_error(sample_format(&Some(None)));
    assert_eq!(s, "sample caps structure");
    assert_eq!(e, "caps has no structure");
}

#[test]
fn sample_format_errors_when_format_field_missing() {
    let st = CapsStructure {
        format: Err("field `format` not found".to_string()),
        frame_format: None,
        width: Ok(640),
        height: Ok(480),
        framerate: None,
    };
    let (s, _) = structure_error(sample_format(&Some(Some(st))));
    assert_eq!(s, "format");
}

#[test]
fn sample_format_errors_on_unsupported_video_format() {
    let (s, e) = structure_error(sample_format(&Some(Some(structure("GRAY16_BE", None, 640, 480, None)))));
    assert_eq!(s, "format");
    assert_eq!(e, "videoconvert produced unsupported format: GRAY16_BE");
}

#[test]
fn sample_format_errors_on_non_positive_dimensions() {
    let (s, e) = structure_error(sample_format(&Some(Some(structure("YUY2", Some(FrameFormat::YUYV), 0, 480, None)))));
    assert_eq!(s, "resolution");
    assert_eq!(e, "invalid dimensions 0x480");
}

#[test]
fn sample_format_uses_thirty_fps_fallback_when_framerate_missing() {
    let cf = sample_format(&Some(Some(structure("YUY2", Some(FrameFormat::YUYV), 640, 480, None)))).expect("happy path");
    assert_eq!(cf.frame_rate, 30);
    assert_eq!(cf.resolution, Resolution::new(640, 480));
    assert_eq!(cf.format, FrameFormat::YUYV);
}

#[test]
fn sample_format_falls_back_when_framerate_is_non_integer() {
    let cf = sample_format(&Some(Some(structure("YUY2", Some(FrameFormat::YUYV), 640, 480, Some((30_000, 1_001)))))).expect("happy path");
    assert_eq!(cf.frame_rate, 30);
}

#[test]
fn sample_format_falls_back_on_zero_or_negative_framerate() {
    let cf = sample_format(&Some(Some(structure("YUY2", Some(FrameFormat::YUYV), 640, 480, Some((0, 1)))))).expect("happy path");
    assert_eq!(cf.frame_rate, 30);
    let cf = sample_format(&Some(Some(structure("YUY2", Some(FrameFormat::YUYV), 640, 480, Some((-60, -1)))))).expect("happy path");
    assert_eq!(cf.frame_rate, 30);
}

#[test]
fn sample_format_preserves_clean_integer_framerate() {
    let cf = sample_format(&Some(Some(structure("NV12", Some(FrameFormat::NV12), 1920, 1080, Some((60, 1)))))).expect("happy path");
    assert_eq!(cf.frame_rate, 60);
    assert_eq!(cf.resolution, Resolution::new(1920, 1080));
    assert_eq!(cf.format, FrameFormat::NV12);
    let cf = sample_format(&Some(Some(structure("NV12", Some(FrameFormat::NV12), 1920, 1080, Some((120, 2)))))).expect("happy path");
    assert_eq!(cf.frame_rate, 60);
}

#[test]
fn select_device_by_name_then_position() {
    let names = vec!["Cam A".to_string(), "Cam B".to_string(), "Cam B".to_string()];
    assert_eq!(select_device(&names, "Cam B", 0).unwrap(), 1);
    assert_eq!(select_device(&names, "", 2).unwrap(), 2);
    assert_eq!(select_device(&names, "Cam Z", 0).unwrap(), 0);
    match select_device(&names, "Cam Z", 7).unwrap_err() {
        NokhwaError::OpenDeviceError { device, error } => {
            assert_eq!(device, "index=7 name=Cam Z");
            assert_eq!(error, "device not found");
        },
        other => panic!("expected OpenDeviceError, got {other:?}"),
    }
}

#[test]
fn device_info_keeps_name_as_key() {
    let info = device_info("Cam".to_string(), "Video/Source".to_string(), 3);
    assert_eq!(info.human_name, "Cam");
    assert_eq!(info.description, "Video/Source");
    assert_eq!(info.misc, "Cam");
    assert!(matches!(info.index, CameraIndex::Index(3)));
}

#[test]
fn gst_live_property_names_round_trip() {
    for kcc in [KnownCameraControl::Brightness, KnownCameraControl::Contrast, KnownCameraControl::Hue, KnownCameraControl::Saturation] {
        match control_handle(kcc) {
            Some(GstControlHandle::Property(name)) => assert_eq!(known_from_property_name(name), Some(kcc)),
            other => panic!("expected a live property for {kcc:?}, got {other:?}"),
        }
    }
}

#[test]
fn gst_pad_linking_decision() {
    assert!(should_link_pad(false, Some("video/x-raw")));
    assert!(!should_link_pad(true, Some("video/x-raw")));
    assert!(!should_link_pad(false, Some("audio/x-raw")));
    assert!(!should_link_pad(false, Some("video")));
    assert!(!should_link_pad(false, None));
}

#[test]
fn gst_pipeline_video_format_refuses_missing_name() {
    assert_eq!(pipeline_video_format(fmt(640, 480, FrameFormat::YUYV, 30), Some("YUY2".to_string())).unwrap(), "YUY2");
    match pipeline_video_format(fmt(640, 480, FrameFormat::MJPEG, 30), None) {
        Err(NokhwaError::SetPropertyError { property, value, error }) => {
            assert_eq!(property, "FrameFormat");
            assert_eq!(value, "MJPEG");
            assert_eq!(error, "not supported by the GStreamer pipeline");
        },
        other => panic!("expected SetPropertyError, got {other:?}"),
    }
}

#[test]
fn build_extra_controls_fields_come_in_name_order() {
    let mut pending = PendingControls::new();
    pending.insert("zoom_absolute".to_string(), 5);
    pending.insert("focus_absolute".to_string(), 100);
    pending.insert("exposure_time_absolute".to_string(), 250);
    pending.insert("focus_absolute".to_string(), 7);
    let fields = pending.build_extra_controls().unwrap().unwrap();
    assert_eq!(
        fields,
        vec![
            ("exposure_time_absolute".to_string(), 250),
            ("focus_absolute".to_string(), 7),
            ("zoom_absolute".to_string(), 5),
        ]
    );
}

#[test]
fn first_sample_timeout_is_an_open_stream_error() {
    match first_sample_format(&None) {
        Err(NokhwaError::OpenStreamError { message, backend }) => {
            assert!(message.starts_with("timed out waiting for the first sample from the URI"));
            assert_eq!(backend, Some(ApiBackend::GStreamer));
        },
        other => panic!("expected OpenStreamError, got {other:?}"),
    }
    assert!(matches!(first_sample_format(&Some(None)), Err(NokhwaError::StructureError { .. })));
}
