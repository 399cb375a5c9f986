use nokhwa_bindings::formats::{RequestedFormat, RequestedFormatType};
use nokhwa_bindings::types::{
    CameraFormat, CameraIndex, ControlValueDescription, ControlValueSetter, FrameFormat,
    KnownCameraControl, KnownCameraControlFlag, NokhwaError, Resolution,
};
use nokhwa_bindings::v4l::{
    check_opened_format, collect_controls, compatible_frame_formats, confirm_format_change,
    control_from_descriptor,
    dedup_fourccs, device_format, device_info, format_changes, formats_from_intervals,
    pick_format, read_back_matches, set_format_step, resolution_list, resolutions_of_sizes, setter_to_value,
    skip_read_back,
    used_bytes, ControlDescriptor, ControlType, ControlValue, Fraction, FrameInterval, FrameSize,
    IntervalEntry, SetFormatAction, SetFormatEvent, SetFormatState,
};

fn desc(id: u32, typ: ControlType, flags: u32) -> ControlDescriptor {
    ControlDescriptor {
        id,
        typ,
        name: "Brightness".to_string(),
        minimum: -64,
        maximum: 64,
        step: u64::MAX,
        default: 0,
        flags,
    }
}

#[test]
fn v4l_integer_control_from_descriptor() {
    let c = control_from_descriptor(&desc(0x0098_0900, ControlType::Integer, 0x14), &ControlValue::Integer(5))
        .expect("integer matches integer");
    assert_eq!(c.control, KnownCameraControl::Brightness);
    assert_eq!(c.name, "Brightness");
    assert_eq!(c.flag, vec![KnownCameraControlFlag::ReadOnly, KnownCameraControlFlag::Disabled]);
    assert!(!c.active);
    match c.description {
        ControlValueDescription::IntegerRange { min, max, value, step, default } => {
            assert_eq!((min, max, value, step, default), (-64, 64, 5, i64::MAX, 0));
        },
        other => panic!("expected IntegerRange, got {other:?}"),
    }
}

#[test]
fn v4l_boolean_and_mismatched_controls() {
    let mut d = desc(0x0098_091c, ControlType::Boolean, 0xC0);
    d.default = 3;
    let c = control_from_descriptor(&d, &ControlValue::Boolean(false)).unwrap();
    assert_eq!(c.control, KnownCameraControl::BacklightComp);
    assert_eq!(c.flag, vec![KnownCameraControlFlag::WriteOnly, KnownCameraControlFlag::Volatile]);
    assert!(c.active);
    match c.description {
        ControlValueDescription::Boolean { value, default } => assert_eq!((value, default), (false, true)),
        other => panic!("expected Boolean, got {other:?}"),
    }
    assert!(control_from_descriptor(&d, &ControlValue::Integer(1)).is_none());
    assert!(control_from_descriptor(&desc(1, ControlType::Button, 0), &ControlValue::NoValue).is_none());
}

#[test]
fn v4l_collect_controls_skips_unreadable_and_mismatched() {
    let readouts = vec![
        (desc(0x0098_0900, ControlType::Integer, 0), Some(ControlValue::Integer(1))),
        (desc(0x0098_0901, ControlType::Integer, 0), None),
        (desc(0x0098_0902, ControlType::String, 0), Some(ControlValue::Integer(1))),
        (desc(0x00ab_cdef, ControlType::String, 0), Some(ControlValue::String("x".to_string()))),
    ];
    let controls = collect_controls(&readouts);
    assert_eq!(controls.len(), 2);
    assert_eq!(controls[0].control, KnownCameraControl::Brightness);
    assert_eq!(controls[1].control, KnownCameraControl::Other(0x00ab_cdef));
}

#[test]
fn v4l_setter_conversion() {
    assert!(matches!(setter_to_value(KnownCameraControl::Gain, &ControlValueSetter::Integer(4)), Ok(ControlValue::Integer(4))));
    assert!(matches!(setter_to_value(KnownCameraControl::Gain, &ControlValueSetter::NoValue), Ok(ControlValue::NoValue)));
    match setter_to_value(KnownCameraControl::Gain, &ControlValueSetter::Bytes(vec![1, 2])) {
        Ok(ControlValue::CompoundU8(b)) => assert_eq!(b, vec![1, 2]),
        other => panic!("expected CompoundU8, got {other:?}"),
    }
    match setter_to_value(KnownCameraControl::Gain, &ControlValueSetter::EnumValue(2)) {
        Err(NokhwaError::SetPropertyError { property, value, error }) => {
            assert_eq!(property, "Gain");
            assert_eq!(value, "EnumValue: 2");
            assert_eq!(error, "not supported");
        },
        other => panic!("expected SetPropertyError, got {other:?}"),
    }
}

#[test]
fn v4l_read_back_skipped_for_write_only_or_volatile() {
    let descs = vec![desc(7, ControlType::Integer, 0x40), desc(8, ControlType::Integer, 0), desc(8, ControlType::Integer, 0x80)];
    assert!(skip_read_back(&Some(descs.clone()), 7));
    assert!(!skip_read_back(&Some(descs.clone()), 8));
    assert!(!skip_read_back(&Some(descs), 9));
    assert!(!skip_read_back(&None, 7));
}

#[test]
fn v4l_device_format_checks_in_order() {
    match device_format(*b"H264", 640, 480, Err("boom".to_string())) {
        Err(NokhwaError::GetPropertyError { property, error }) => {
            assert_eq!(property, "FrameFormat");
            assert_eq!(error, "unsupported");
        },
        other => panic!("expected GetPropertyError, got {other:?}"),
    }
    match device_format(*b"YUYV", 640, 480, Err("boom".to_string())) {
        Err(NokhwaError::GetPropertyError { property, error }) => {
            assert_eq!(property, "V4L2 FrameRate");
            assert_eq!(error, "boom");
        },
        other => panic!("expected GetPropertyError, got {other:?}"),
    }
    assert!(device_format(*b"YUYV", 640, 480, Ok(Fraction { numerator: 2, denominator: 60 })).is_err());
    assert_eq!(
        device_format(*b"MJPG", 640, 480, Ok(Fraction { numerator: 1, denominator: 30 })).unwrap(),
        CameraFormat::new(Resolution::new(640, 480), FrameFormat::MJPEG, 30)
    );
}

#[test]
fn v4l_resolution_lists() {
    let sizes = vec![
        FrameSize::Discrete(Resolution::new(320, 240)),
        FrameSize::Stepwise { min_width: 320, max_width: 640, step_width: 0, min_height: 240, max_height: 480, step_height: 0 },
    ];
    assert_eq!(resolution_list(&sizes), vec![Resolution::new(320, 240), Resolution::new(640, 480)]);
    assert_eq!(
        resolutions_of_sizes(&sizes),
        vec![Resolution::new(320, 240), Resolution::new(320, 240), Resolution::new(640, 480)]
    );
}

#[test]
fn v4l_formats_from_intervals() {
    let entries = vec![
        IntervalEntry { width: 640, height: 480, interval: FrameInterval::Discrete(Fraction { numerator: 1, denominator: 30 }) },
        IntervalEntry { width: 1280, height: 720, interval: FrameInterval::Discrete(Fraction { numerator: 1001, denominator: 30000 }) },
        IntervalEntry { width: 1280, height: 720, interval: FrameInterval::Discrete(Fraction { numerator: 1, denominator: 60 }) },
    ];
    assert_eq!(
        formats_from_intervals(&entries, FrameFormat::YUYV),
        vec![
            CameraFormat::new(Resolution::new(640, 480), FrameFormat::YUYV, 30),
            CameraFormat::new(Resolution::new(1280, 720), FrameFormat::YUYV, 60),
        ]
    );
}

#[test]
fn v4l_fourcc_lists() {
    let tokens = vec![*b"YUYV", *b"YUYV", *b"MJPG", *b"YUYV", *b"H264", *b"GREY"];
    assert_eq!(dedup_fourccs(&tokens), vec![*b"YUYV", *b"MJPG", *b"YUYV", *b"H264", *b"GREY"]);
    assert_eq!(compatible_frame_formats(&tokens), vec![FrameFormat::MJPEG, FrameFormat::YUYV, FrameFormat::GRAY]);
}

#[test]
fn v4l_format_negotiation_steps() {
    let formats = vec![
        CameraFormat::new(Resolution::new(640, 480), FrameFormat::MJPEG, 30),
        CameraFormat::new(Resolution::new(1920, 1080), FrameFormat::MJPEG, 30),
    ];
    let req = RequestedFormat {
        requested_format: RequestedFormatType::AbsoluteHighestResolution,
        wanted_decoder: vec![FrameFormat::MJPEG],
    };
    let picked = pick_format(&req, &formats).unwrap();
    assert_eq!(picked, formats[1]);
    let none = RequestedFormat {
        requested_format: RequestedFormatType::AbsoluteHighestResolution,
        wanted_decoder: vec![FrameFormat::NV12],
    };
    match pick_format(&none, &formats) {
        Err(NokhwaError::GetPropertyError { property, error }) => {
            assert_eq!(property, "CameraFormat");
            assert_eq!(error, "Failed to fulfill requested CameraFormat");
        },
        other => panic!("expected GetPropertyError, got {other:?}"),
    }
    assert_eq!(format_changes(formats[0], formats[1]), (true, false));
    let faster = CameraFormat::new(Resolution::new(640, 480), FrameFormat::MJPEG, 60);
    assert_eq!(format_changes(formats[0], faster), (false, true));
    assert!(check_opened_format(formats[1], formats[1]).is_ok());
    match check_opened_format(formats[0], formats[1]) {
        Err(NokhwaError::SetPropertyError { property, value, error }) => {
            assert_eq!((property.as_str(), value.as_str(), error.as_str()), ("CameraFormat", "", "Not same/Rejected"));
        },
        other => panic!("expected SetPropertyError, got {other:?}"),
    }
}

#[test]
fn v4l_device_info_and_buffer_length() {
    let named = device_info(Some("HD Webcam".to_string()), "/dev/video2".to_string(), 2);
    assert_eq!(named.human_name, "HD Webcam");
    assert_eq!(named.description, "Video4Linux Device @ /dev/video2");
    assert_eq!(named.misc, "");
    assert!(matches!(named.index, CameraIndex::Index(2)));
    let unnamed = device_info(None, "/dev/video0".to_string(), 0);
    assert_eq!(unnamed.human_name, "/dev/video0");
    assert_eq!(used_bytes(100, 4096), 100);
    assert_eq!(used_bytes(9000, 4096), 4096);
}

#[test]
fn v4l_read_back_compares_written_value() {
    let c = control_from_descriptor(&desc(0x0098_0900, ControlType::Integer, 0), &ControlValue::Integer(5))
        .unwrap();
    assert!(matches!(c.value(), ControlValueSetter::Integer(5)));
    assert!(read_back_matches(&ControlValueSetter::Integer(5), &c));
    assert!(!read_back_matches(&ControlValueSetter::Integer(6), &c));
    assert!(!read_back_matches(&ControlValueSetter::Boolean(true), &c));
    let b = control_from_descriptor(&desc(0x0098_091c, ControlType::Boolean, 0), &ControlValue::Boolean(true))
        .unwrap();
    assert!(read_back_matches(&ControlValueSetter::Boolean(true), &b));
    assert!(!read_back_matches(&ControlValueSetter::Boolean(false), &b));
}

#[test]
fn v4l_confirm_format_change_names_the_rejected_format() {
    let wanted = CameraFormat::new(Resolution::new(640, 480), FrameFormat::MJPEG, 30);
    assert!(confirm_format_change(wanted, wanted).is_ok());
    let got = CameraFormat::new(Resolution::new(640, 480), FrameFormat::MJPEG, 15);
    match confirm_format_change(got, wanted) {
        Err(NokhwaError::SetPropertyError { property, value, error }) => {
            assert_eq!(property, "CameraFormat");
            assert_eq!(value, format!("{wanted:?}"));
            assert_eq!(error, "Rejected");
        },
        other => panic!("expected SetPropertyError, got {other:?}"),
    }
}

#[test]
fn v4l_set_format_steps_restore_and_report_first_open_error() {
    let wanted = CameraFormat::new(Resolution::new(640, 480), FrameFormat::MJPEG, 30);
    let (s, a) = set_format_step(SetFormatState::Start, SetFormatEvent::Started { was_streaming: true }, wanted);
    assert!(matches!(s, SetFormatState::Closing) && matches!(a, SetFormatAction::CloseStream));
    let (s, a) = set_format_step(s, SetFormatEvent::Closed(Ok(())), wanted);
    assert!(matches!(s, SetFormatState::Applying { reopen: true }) && matches!(a, SetFormatAction::ApplyFormat));
    let (s, a) = set_format_step(s, SetFormatEvent::Applied(Ok(())), wanted);
    assert!(matches!(s, SetFormatState::Reopening) && matches!(a, SetFormatAction::OpenStream));
    let first = NokhwaError::OpenStreamError { message: "busy".to_string(), backend: None };
    let (s, a) = set_format_step(s, SetFormatEvent::Opened(Err(first)), wanted);
    assert!(matches!(a, SetFormatAction::RestoreFormat));
    let (s, a) = set_format_step(s, SetFormatEvent::Restored(Ok(())), wanted);
    assert!(matches!(a, SetFormatAction::RetryOpen));
    let (s, a) = set_format_step(s, SetFormatEvent::Retried, wanted);
    assert!(matches!(s, SetFormatState::Finished));
    match a {
        SetFormatAction::Finish(Err(NokhwaError::OpenStreamError { message, .. })) => assert_eq!(message, "busy"),
        other => panic!("expected the first open error, got {other:?}"),
    }
}

#[test]
fn v4l_set_format_steps_without_stream_confirm_read_back() {
    let wanted = CameraFormat::new(Resolution::new(640, 480), FrameFormat::MJPEG, 30);
    let (s, a) = set_format_step(SetFormatState::Start, SetFormatEvent::Started { was_streaming: false }, wanted);
    assert!(matches!(a, SetFormatAction::ApplyFormat));
    let (s, a) = set_format_step(s, SetFormatEvent::Applied(Ok(())), wanted);
    assert!(matches!(s, SetFormatState::Confirming) && matches!(a, SetFormatAction::Refresh));
    let (_, a) = set_format_step(s, SetFormatEvent::Refreshed(Ok(wanted)), wanted);
    assert!(matches!(a, SetFormatAction::Finish(Ok(()))));
    let other = CameraFormat::new(Resolution::new(320, 240), FrameFormat::MJPEG, 30);
    let (_, a) = set_format_step(SetFormatState::Confirming, SetFormatEvent::Refreshed(Ok(other)), wanted);
    match a {
        SetFormatAction::Finish(Err(NokhwaError::SetPropertyError { property, error, .. })) => {
            assert_eq!(property, "CameraFormat");
            assert_eq!(error, "Rejected");
        },
        other => panic!("expected a rejection, got {other:?}"),
    }
    let (_, a) = set_format_step(
        SetFormatState::Applying { reopen: false },
        SetFormatEvent::Applied(Err(NokhwaError::NotImplementedError("x".to_string()))),
        wanted,
    );
    assert!(matches!(a, SetFormatAction::Finish(Err(NokhwaError::NotImplementedError(_)))));
}
