use nokhwa_bindings::avf::{
    avf_controls, check_control_flags, device_id_at, disabled_if_unsupported,
    frame_format_to_cm_pixel_format, lock_refused, plan_avf_write, route_avf_index,
    select_active_format, AvfControlWrite, AvfFormatCandidate, AvfReadout, AvfRoute, ConfigLock, F64_HALF_BITS,
};
use nokhwa_bindings::types::{
    find_control, ApiBackend, CameraControl, CameraFormat, CameraIndex, CameraInfo, ControlValueDescription,
    ControlValueSetter, FrameFormat, KnownCameraControl, KnownCameraControlFlag, NokhwaError,
    Resolution,
};

fn readout() -> AvfReadout {
    AvfReadout {
        focus_mode: 2,
        focus_locked_supported: true,
        focus_auto_supported: false,
        focus_continuous_supported: true,
        focus_poi_supported: true,
        focus_poi_x: 0.25f64.to_bits(),
        focus_poi_y: 0.75f64.to_bits(),
        focus_lens_position_supported: false,
        lens_position: 0.5f64.to_bits(),
        exposure_mode: 1,
        exposure_locked_supported: true,
        exposure_auto_supported: true,
        exposure_continuous_supported: true,
        exposure_custom_supported: true,
        exposure_poi_supported: false,
        exposure_poi_x: 0.5f64.to_bits(),
        exposure_poi_y: 0.5f64.to_bits(),
        face_driven_supported: false,
        face_driven: false,
        bias: 0.0f64.to_bits(),
        bias_min: (-8.0f64).to_bits(),
        bias_max: 8.0f64.to_bits(),
        bias_current: 0.0f64.to_bits(),
        duration: 100,
        duration_min: 1,
        duration_max: 1000,
        duration_current: 100,
        iso: 100.0f64.to_bits(),
        iso_min: 50.0f64.to_bits(),
        iso_max: 800.0f64.to_bits(),
        iso_current: 100.0f64.to_bits(),
        lens_aperture: 1.8f64.to_bits(),
        white_balance_mode: 2,
        white_balance_locked_supported: true,
        white_balance_auto_supported: false,
        white_balance_continuous_supported: true,
        gains: (1.0f64.to_bits(), 1.0f64.to_bits(), 1.0f64.to_bits()),
        gray_world_gains: (1.5f64.to_bits(), 1.0f64.to_bits(), 2.0f64.to_bits()),
        max_gain: 4.0f64.to_bits(),
        custom_gains_supported: true,
        has_torch: false,
        torch_off_supported: true,
        torch_on_supported: false,
        torch_auto_supported: false,
        torch_mode: 0,
        low_light_boost_supported: false,
        low_light_boost_enabled: false,
        zoom: 1.0f64.to_bits(),
        zoom_min: 1.0f64.to_bits(),
        zoom_max: 10.0f64.to_bits(),
        distortion_correction_supported: true,
        distortion_correction_enabled: true,
    }
}

fn by_name<'a>(controls: &'a [CameraControl], name: &str) -> &'a CameraControl {
    controls.iter().find(|c| c.name == name).expect("control present")
}

#[test]
fn avf_output_pixel_format_codes() {
    assert_eq!(frame_format_to_cm_pixel_format(FrameFormat::YUYV).unwrap(), 0x7975_7673);
    assert_eq!(frame_format_to_cm_pixel_format(FrameFormat::MJPEG).unwrap(), 0x6A70_6567);
    assert_eq!(frame_format_to_cm_pixel_format(FrameFormat::GRAY).unwrap(), 40);
    assert_eq!(frame_format_to_cm_pixel_format(FrameFormat::NV12).unwrap(), 0x3432_3076);
    assert_eq!(frame_format_to_cm_pixel_format(FrameFormat::RAWRGB).unwrap(), 24);
    match frame_format_to_cm_pixel_format(FrameFormat::RAWBGR).unwrap_err() {
        NokhwaError::SetPropertyError { property, value, error } => {
            assert_eq!(property, "setVideoSettings");
            assert_eq!(value, "set frame format");
            assert_eq!(error, "Unsupported frame format BGR");
        },
        other => panic!("expected SetPropertyError, got {other:?}"),
    }
}

#[test]
fn avf_disabled_if_unsupported_flags() {
    assert!(disabled_if_unsupported(true).is_empty());
    assert_eq!(
        disabled_if_unsupported(false),
        vec![KnownCameraControlFlag::Disabled, KnownCameraControlFlag::ReadOnly]
    );
}

#[test]
fn avf_controls_follow_what_the_device_supports() {
    let controls = avf_controls(&readout());
    assert_eq!(controls.len(), 16);
    let names: Vec<&str> = controls.iter().map(|c| c.name.as_str()).collect();
    assert_eq!(
        names,
        vec![
            "FocusMode", "FocusPointOfInterest", "FocusManualLensPosition", "ExposureMode",
            "ExposurePointOfInterest", "ExposureFaceDriven", "ExposureBiasTarget", "ExposureDuration",
            "ExposureISO", "LensAperture", "WhiteBalanceMode", "WhiteBalanceGain", "TorchMode",
            "LowLightCompensation", "Zoom", "DistortionCorrection",
        ]
    );
    match &by_name(&controls, "FocusMode").description {
        ControlValueDescription::Enum { value, possible, default } => {
            assert_eq!((*value, *default), (2, 2));
            assert_eq!(possible, &vec![0, 2]);
        },
        other => panic!("expected Enum, got {other:?}"),
    }
    let poi = by_name(&controls, "FocusPointOfInterest");
    assert!(poi.active);
    assert!(poi.flag.is_empty());
    match poi.description {
        ControlValueDescription::Point { x, default_x, .. } => {
            assert_eq!(x, 0.25f64.to_bits());
            assert_eq!(default_x, F64_HALF_BITS);
            assert_eq!(f64::from_bits(default_x), 0.5);
        },
        ref other => panic!("expected Point, got {other:?}"),
    }
    let lens = by_name(&controls, "FocusManualLensPosition");
    assert!(!lens.active);
    assert_eq!(lens.flag, vec![KnownCameraControlFlag::Disabled, KnownCameraControlFlag::ReadOnly]);
    let duration = by_name(&controls, "ExposureDuration");
    assert_eq!(duration.control, KnownCameraControl::Gamma);
    assert!(!duration.active);
    assert_eq!(duration.flag, vec![KnownCameraControlFlag::ReadOnly, KnownCameraControlFlag::Volatile]);
    match &by_name(&controls, "ExposureMode").description {
        ControlValueDescription::Enum { possible, .. } => assert_eq!(possible, &vec![0, 1, 2, 3]),
        other => panic!("expected Enum, got {other:?}"),
    }
    let iris = by_name(&controls, "LensAperture");
    assert_eq!(iris.flag, vec![KnownCameraControlFlag::ReadOnly]);
    assert!(!iris.active);
    match &by_name(&controls, "WhiteBalanceMode").description {
        ControlValueDescription::Enum { value, possible, default } => {
            assert_eq!((*value, *default), (2, 0));
            assert_eq!(possible, &vec![0, 2]);
        },
        other => panic!("expected Enum, got {other:?}"),
    }
    match by_name(&controls, "Zoom").description {
        ControlValueDescription::FloatRange { default, .. } => assert_eq!(f64::from_bits(default), 1.0),
        ref other => panic!("expected FloatRange, got {other:?}"),
    }
}

#[test]
fn avf_custom_exposure_makes_duration_and_iso_writable() {
    let mut r = readout();
    r.exposure_mode = 3;
    let controls = avf_controls(&r);
    for name in ["ExposureDuration", "ExposureISO"] {
        let c = by_name(&controls, name);
        assert!(c.active, "{name} must be active in custom mode");
        assert_eq!(c.flag, vec![KnownCameraControlFlag::Volatile]);
    }
}

#[test]
fn avf_write_checks_flags_then_kind() {
    let controls = avf_controls(&readout());
    match plan_avf_write(&controls, KnownCameraControl::Iris, &ControlValueSetter::Float(1.0f64.to_bits())) {
        Err(NokhwaError::SetPropertyError { error, .. }) => assert_eq!(error, "Read Only"),
        other => panic!("expected Read Only, got {other:?}"),
    }
    match plan_avf_write(&controls, KnownCameraControl::Hue, &ControlValueSetter::Integer(1)) {
        Err(NokhwaError::SetPropertyError { error, property, .. }) => {
            assert_eq!(error, "Unknown Control");
            assert_eq!(property, "Hue");
        },
        other => panic!("expected Unknown Control, got {other:?}"),
    }
    match plan_avf_write(&controls, KnownCameraControl::Other(1), &ControlValueSetter::Float(0)) {
        Err(NokhwaError::SetPropertyError { error, .. }) => assert_eq!(error, "Read Only"),
        other => panic!("expected Read Only for the unsupported lens position, got {other:?}"),
    }
    match plan_avf_write(&controls, KnownCameraControl::Focus, &ControlValueSetter::Integer(1)) {
        Err(NokhwaError::SetPropertyError { error, value, .. }) => {
            assert_eq!(error, "Expected Enum");
            assert_eq!(value, ControlValueSetter::Integer(1).text());
        },
        other => panic!("expected Expected Enum, got {other:?}"),
    }
    let (k, w) = plan_avf_write(&controls, KnownCameraControl::Focus, &ControlValueSetter::EnumValue(0)).unwrap();
    assert_eq!(k, 0);
    assert_eq!(w, AvfControlWrite::FocusMode(0));
    let (_, w) = plan_avf_write(&controls, KnownCameraControl::Other(6), &ControlValueSetter::Boolean(false)).unwrap();
    assert_eq!(w, AvfControlWrite::DistortionCorrection(false));
    match plan_avf_write(&vec![], KnownCameraControl::Zoom, &ControlValueSetter::Float(0)) {
        Err(NokhwaError::SetPropertyError { error, .. }) => assert_eq!(error, "Control does not exist"),
        other => panic!("expected missing control, got {other:?}"),
    }
}

#[test]
fn avf_check_flags_prefers_read_only() {
    let mut c = avf_controls(&readout()).remove(2);
    c.flag = vec![KnownCameraControlFlag::Disabled];
    match check_control_flags(&c, KnownCameraControl::Other(1), &ControlValueSetter::NoValue) {
        Err(NokhwaError::SetPropertyError { error, .. }) => assert_eq!(error, "Disabled"),
        other => panic!("expected Disabled, got {other:?}"),
    }
    c.flag = vec![];
    assert!(check_control_flags(&c, KnownCameraControl::Other(1), &ControlValueSetter::NoValue).is_ok());
}

#[test]
fn avf_index_routing() {
    assert!(matches!(route_avf_index(&CameraIndex::Index(2)), AvfRoute::ByPosition(2)));
    assert!(matches!(route_avf_index(&CameraIndex::String("0".to_string())), AvfRoute::ByPosition(0)));
    match route_avf_index(&CameraIndex::String("0x1234-uid".to_string())) {
        AvfRoute::ById(id) => assert_eq!(id, "0x1234-uid"),
        other => panic!("expected ById, got {other:?}"),
    }
    let devices = vec![CameraInfo::new("a".into(), "b".into(), "uid-a".into(), CameraIndex::Index(0))];
    assert_eq!(device_id_at(&devices, 0).unwrap(), "uid-a");
    match device_id_at(&devices, 5).unwrap_err() {
        NokhwaError::OpenDeviceError { device, error } => {
            assert_eq!(device, "5");
            assert_eq!(error, "device not found");
        },
        other => panic!("expected OpenDeviceError, got {other:?}"),
    }
}

#[test]
fn avf_configuration_lock() {
    let mut lock = ConfigLock::new();
    match lock.needs_lock(true) {
        Err(NokhwaError::InitializeError { backend, error }) => {
            assert_eq!(backend, ApiBackend::AVFoundation);
            assert_eq!(error, "Already in use");
        },
        other => panic!("expected InitializeError, got {other:?}"),
    }
    assert_eq!(lock.needs_lock(false).unwrap(), true);
    lock.mark_locked();
    assert_eq!(lock.needs_lock(true).unwrap(), false);
    assert!(lock.unlock());
    assert!(!lock.unlock());
    match lock_refused("busy".to_string()) {
        NokhwaError::SetPropertyError { property, value, error } => {
            assert_eq!((property.as_str(), value.as_str(), error.as_str()), ("lockForConfiguration", "Locked", "busy"));
        },
        other => panic!("expected SetPropertyError, got {other:?}"),
    }
}

#[test]
fn avf_camera_control_lookup() {
    let controls = avf_controls(&readout());
    let c = find_control(controls.clone(), KnownCameraControl::Zoom, "Not Found").unwrap();
    assert_eq!(c.name, "Zoom");
    match find_control(controls, KnownCameraControl::Hue, "Not Found").unwrap_err() {
        NokhwaError::GetPropertyError { property, error } => {
            assert_eq!(property, "Hue");
            assert_eq!(error, "Not Found");
        },
        other => panic!("expected GetPropertyError, got {other:?}"),
    }
}

fn candidate(width: i32, height: i32, rate_matches: Vec<bool>) -> AvfFormatCandidate {
    AvfFormatCandidate { width, height, rate_matches }
}

#[test]
fn avf_format_switch_takes_first_matching_format_and_range() {
    let wanted = CameraFormat::new(Resolution::new(1280, 720), FrameFormat::YUYV, 30);
    let candidates = vec![
        candidate(640, 480, vec![true]),
        candidate(1280, 720, vec![false, false]),
        candidate(1280, 720, vec![false, true, true]),
        candidate(1280, 720, vec![true]),
    ];
    assert_eq!(select_active_format(&candidates, wanted).unwrap(), (2, 1));
}

#[test]
fn avf_format_switch_refuses_unknown_format() {
    let wanted = CameraFormat::new(Resolution::new(1920, 1080), FrameFormat::MJPEG, 60);
    let candidates = vec![candidate(1920, 1080, vec![false]), candidate(1280, 720, vec![true])];
    match select_active_format(&candidates, wanted) {
        Err(NokhwaError::SetPropertyError { property, value, error }) => {
            assert_eq!(property, "CameraFormat");
            assert_eq!(value, format!("{wanted:?}"));
            assert_eq!(error, "Not Found/Rejected/Unsupported");
        },
        other => panic!("expected SetPropertyError, got {other:?}"),
    }
    assert!(select_active_format(&Vec::new(), wanted).is_err());
}

fn gamma_control() -> CameraControl {
    CameraControl {
        control: KnownCameraControl::Gamma,
        name: "ExposureDuration".to_string(),
        description: ControlValueDescription::IntegerRange { min: 0, max: 10, value: 5, step: 2, default: 4 },
        flag: vec![],
        active: true,
    }
}

#[test]
fn avf_write_refuses_value_the_description_rejects() {
    let controls = vec![gamma_control()];
    for bad in [1000i64, -1, 3] {
        match plan_avf_write(&controls, KnownCameraControl::Gamma, &ControlValueSetter::Integer(bad)) {
            Err(NokhwaError::SetPropertyError { error, property, .. }) => {
                assert_eq!(error, "Failed to verify value");
                assert_eq!(property, "Gamma");
            },
            other => panic!("expected Failed to verify value for {bad}, got {other:?}"),
        }
    }
    let (k, w) = plan_avf_write(&controls, KnownCameraControl::Gamma, &ControlValueSetter::Integer(6)).unwrap();
    assert_eq!(k, 0);
    assert_eq!(w, AvfControlWrite::ExposureDuration(6));
}

#[test]
fn avf_write_checks_float_range_and_enum_membership() {
    let controls = avf_controls(&readout());
    match plan_avf_write(&controls, KnownCameraControl::Focus, &ControlValueSetter::EnumValue(1)) {
        Err(NokhwaError::SetPropertyError { error, .. }) => assert_eq!(error, "Failed to verify value"),
        other => panic!("expected Failed to verify value, got {other:?}"),
    }
    match plan_avf_write(&controls, KnownCameraControl::Other(0), &ControlValueSetter::Point(f64::NAN.to_bits(), 0)) {
        Err(NokhwaError::SetPropertyError { error, .. }) => assert_eq!(error, "Failed to verify value"),
        other => panic!("expected Failed to verify value, got {other:?}"),
    }
    let zoom = ControlValueDescription::FloatRange {
        min: 1.0f64.to_bits(),
        max: 4.0f64.to_bits(),
        value: 1.0f64.to_bits(),
        step: 0,
        default: 1.0f64.to_bits(),
    };
    assert!(zoom.verify_setter(&ControlValueSetter::Float(2.5f64.to_bits())));
    assert!(!zoom.verify_setter(&ControlValueSetter::Float(4.5f64.to_bits())));
    assert!(!zoom.verify_setter(&ControlValueSetter::Float((-2.0f64).to_bits())));
    assert!(!zoom.verify_setter(&ControlValueSetter::Integer(2)));
}
