use nokhwa_bindings::formats::{RequestedFormat, RequestedFormatType};
use nokhwa_bindings::gst_device::{
    route_index, ControlAction, FormatAction, GStreamerDevice, IndexRoute, OpenAction,
};
use nokhwa_bindings::types::{
    CameraFormat, CameraIndex, CameraInfo, ControlValueSetter, FrameFormat, KnownCameraControl,
    NokhwaError, Resolution,
};

fn fmt(w: u32, h: u32, ff: FrameFormat, fps: u32) -> CameraFormat {
    CameraFormat::new(Resolution::new(w, h), ff, fps)
}

fn local_device() -> GStreamerDevice {
    let info = CameraInfo::new("Cam".into(), "Video/Source".into(), "Cam".into(), CameraIndex::Index(0));
    let formats = vec![fmt(640, 480, FrameFormat::YUYV, 30), fmt(1280, 720, FrameFormat::YUYV, 30)];
    let req = RequestedFormat {
        requested_format: RequestedFormatType::AbsoluteHighestResolution,
        wanted_decoder: vec![FrameFormat::YUYV],
    };
    GStreamerDevice::new_local(info, formats, &req).expect("a format fits")
}

#[test]
fn gst_index_routing() {
    match route_index(&CameraIndex::String("rtsp://host/stream".to_string())) {
        IndexRoute::Url(u) => assert_eq!(u, "rtsp://host/stream"),
        other => panic!("expected Url, got {other:?}"),
    }
    match route_index(&CameraIndex::String("Logitech BRIO".to_string())) {
        IndexRoute::Local { display_name, positional } => {
            assert_eq!(display_name, "Logitech BRIO");
            assert_eq!(positional, 0);
        },
        other => panic!("expected Local, got {other:?}"),
    }
    match route_index(&CameraIndex::Index(3)) {
        IndexRoute::Local { display_name, positional } => {
            assert_eq!(display_name, "");
            assert_eq!(positional, 3);
        },
        other => panic!("expected Local, got {other:?}"),
    }
}

#[test]
fn gst_local_device_negotiates_and_stages_controls() {
    let mut dev = local_device();
    assert_eq!(dev.negotiated_format(), fmt(1280, 720, FrameFormat::YUYV, 30));
    assert!(!dev.is_open());
    match dev.controls_request() {
        Err(NokhwaError::GetPropertyError { property, error }) => {
            assert_eq!(property, "controls");
            assert_eq!(error, "GStreamer controls() requires an open pipeline; call open() first");
        },
        other => panic!("expected GetPropertyError, got {other:?}"),
    }
    match dev.set_control(KnownCameraControl::Brightness, &ControlValueSetter::Integer(3)) {
        Err(NokhwaError::SetPropertyError { property, error, .. }) => {
            assert_eq!(property, "brightness");
            assert_eq!(error, "pipeline not open; open() before set_control for live controls");
        },
        other => panic!("expected SetPropertyError, got {other:?}"),
    }
    assert!(matches!(
        dev.set_control(KnownCameraControl::Zoom, &ControlValueSetter::Integer(4)),
        Ok(ControlAction::Staged)
    ));
    match dev.open_action().unwrap() {
        OpenAction::StartLocal { format, extra } => {
            assert_eq!(format, fmt(1280, 720, FrameFormat::YUYV, 30));
            assert_eq!(extra, Some(vec![("zoom_absolute".to_string(), 4)]));
        },
        other => panic!("expected StartLocal, got {other:?}"),
    }
    dev.opened_local();
    assert!(dev.is_open());
    assert!(dev.controls_request().is_ok());
    match dev.set_control(KnownCameraControl::Brightness, &ControlValueSetter::Boolean(true)) {
        Ok(ControlAction::SetLive { property, value }) => {
            assert_eq!(property, "brightness");
            assert_eq!(value, 1);
        },
        other => panic!("expected SetLive, got {other:?}"),
    }
    match dev.set_control(KnownCameraControl::Focus, &ControlValueSetter::Integer(7)) {
        Ok(ControlAction::Restart { format, extra }) => {
            assert_eq!(format, fmt(1280, 720, FrameFormat::YUYV, 30));
            let extra = extra.unwrap();
            assert_eq!(extra.len(), 2);
        },
        other => panic!("expected Restart, got {other:?}"),
    }
    match dev.set_control(KnownCameraControl::Other(1), &ControlValueSetter::Integer(7)) {
        Err(NokhwaError::SetPropertyError { error, .. }) => {
            assert_eq!(error, "KnownCameraControl::Other is not mapped by the GStreamer backend")
        },
        other => panic!("expected SetPropertyError, got {other:?}"),
    }
    assert!(matches!(dev.open_action().unwrap(), OpenAction::AlreadyOpen));
}

#[test]
fn gst_set_format_records_or_restarts() {
    let mut dev = local_device();
    match dev.set_format(fmt(320, 240, FrameFormat::YUYV, 30)) {
        Err(NokhwaError::SetPropertyError { property, value, error }) => {
            assert_eq!(property, "CameraFormat");
            assert_eq!(value, format!("{:?}", fmt(320, 240, FrameFormat::YUYV, 30)));
            assert_eq!(error, "not in the device's compatible format list");
        },
        other => panic!("expected SetPropertyError, got {other:?}"),
    }
    assert!(matches!(dev.set_format(fmt(640, 480, FrameFormat::YUYV, 30)), Ok(FormatAction::Recorded)));
    assert_eq!(dev.negotiated_format(), fmt(640, 480, FrameFormat::YUYV, 30));
    dev.opened_local();
    match dev.set_format(fmt(1280, 720, FrameFormat::YUYV, 30)) {
        Ok(FormatAction::Restart { format, extra }) => {
            assert_eq!(format, fmt(1280, 720, FrameFormat::YUYV, 30));
            assert_eq!(extra, None);
        },
        other => panic!("expected Restart, got {other:?}"),
    }
    assert_eq!(dev.negotiated_format(), fmt(640, 480, FrameFormat::YUYV, 30));
    dev.commit_format(fmt(1280, 720, FrameFormat::YUYV, 30));
    assert_eq!(dev.negotiated_format(), fmt(1280, 720, FrameFormat::YUYV, 30));
    assert_eq!(dev.compatible_fourcc(), vec![FrameFormat::YUYV]);
    assert_eq!(dev.compatible_formats().len(), 2);
    dev.close();
    match dev.frame_request() {
        Err(NokhwaError::ReadFrameError { message, format }) => {
            assert_eq!(message, "pipeline not open — call open() first");
            assert_eq!(format, Some(FrameFormat::YUYV));
        },
        other => panic!("expected ReadFrameError, got {other:?}"),
    }
}

#[test]
fn gst_url_device_learns_format_on_open() {
    let index = CameraIndex::String("rtsp://host/stream".to_string());
    let mut dev = GStreamerDevice::new_url(&index, "rtsp://host/stream".to_string());
    assert_eq!(dev.info().description, "URL");
    assert_eq!(dev.negotiated_format(), CameraFormat::default_format());
    assert!(dev.compatible_formats().is_empty());
    assert!(dev.compatible_fourcc().is_empty());
    match dev.set_control(KnownCameraControl::Zoom, &ControlValueSetter::Integer(1)) {
        Err(NokhwaError::SetPropertyError { error, .. }) => {
            assert_eq!(error, "GStreamer URL-mode sources do not support controls")
        },
        other => panic!("expected SetPropertyError, got {other:?}"),
    }
    match dev.set_format(fmt(640, 480, FrameFormat::NV12, 30)) {
        Err(NokhwaError::SetPropertyError { error, .. }) => assert_eq!(
            error,
            "GStreamer URL-mode sources negotiate format from the stream; set_format is not meaningful"
        ),
        other => panic!("expected SetPropertyError, got {other:?}"),
    }
    match dev.open_action().unwrap() {
        OpenAction::StartUri { uri } => assert_eq!(uri, "rtsp://host/stream"),
        other => panic!("expected StartUri, got {other:?}"),
    }
    dev.opened_uri(fmt(1920, 1080, FrameFormat::NV12, 25));
    assert_eq!(dev.negotiated_format(), fmt(1920, 1080, FrameFormat::NV12, 25));
    dev.close();
    assert_eq!(dev.negotiated_format(), fmt(1920, 1080, FrameFormat::NV12, 25));
    assert_eq!(dev.compatible_formats(), vec![fmt(1920, 1080, FrameFormat::NV12, 25)]);
    assert_eq!(dev.compatible_fourcc(), vec![FrameFormat::NV12]);
}

#[test]
fn gst_local_device_without_formats_is_refused() {
    let info = CameraInfo::new("Cam".into(), "Video/Source".into(), "Cam".into(), CameraIndex::Index(0));
    let req = RequestedFormat { requested_format: RequestedFormatType::AnyFormat, wanted_decoder: vec![] };
    match GStreamerDevice::new_local(info, vec![], &req) {
        Err(NokhwaError::OpenDeviceError { device, error }) => {
            assert_eq!(device, "GStreamer device");
            assert_eq!(error, "no compatible formats");
        },
        Err(other) => panic!("expected OpenDeviceError, got {other:?}"),
        Ok(_) => panic!("expected an error"),
    }
}
