use nokhwa_bindings::formats::{RequestedFormat, RequestedFormatType};
use nokhwa_bindings::msmf::{
    activation_info, device_position, AttributeRead,
    frame_rate_numerator, guid_to_frameformat, kcc_to_i32, kcc_to_i32_or_err, mf_video_format_gray,
    mf_video_format_mjpeg, mf_video_format_nv12, mf_video_format_rgb24, mf_video_format_yuy2,
    not_on_this_platform, parse_frame_rate_fraction, parse_frame_size, Guid,
    MFControlId, MediaFoundationCaptureDevice, CAMERA_CONTROL_EXPOSURE, CAMERA_CONTROL_FOCUS,
    CAMERA_CONTROL_IRIS, CAMERA_CONTROL_PAN, CAMERA_CONTROL_TILT, CAMERA_CONTROL_ZOOM,
    VIDEO_PROC_AMP_BACKLIGHT_COMPENSATION, VIDEO_PROC_AMP_BRIGHTNESS, VIDEO_PROC_AMP_COLOR_ENABLE,
    VIDEO_PROC_AMP_CONTRAST, VIDEO_PROC_AMP_GAIN, VIDEO_PROC_AMP_GAMMA, VIDEO_PROC_AMP_HUE,
    VIDEO_PROC_AMP_SATURATION, VIDEO_PROC_AMP_SHARPNESS, VIDEO_PROC_AMP_WHITE_BALANCE,
};
use nokhwa_bindings::types::{
    ApiBackend, CameraFormat, CameraIndex, CameraInfo, ControlValueSetter, FrameFormat, KnownCameraControl,
    NokhwaError, Resolution,
};

#[test]
fn guid_nv12() {
    assert_eq!(guid_to_frameformat(mf_video_format_nv12()), Some(FrameFormat::NV12));
}

#[test]
fn guid_rgb24_maps_to_rawbgr() {
    assert_eq!(guid_to_frameformat(mf_video_format_rgb24()), Some(FrameFormat::RAWBGR));
}

#[test]
fn guid_gray() {
    assert_eq!(guid_to_frameformat(mf_video_format_gray()), Some(FrameFormat::GRAY));
}

#[test]
fn guid_yuy2() {
    assert_eq!(guid_to_frameformat(mf_video_format_yuy2()), Some(FrameFormat::YUYV));
}

#[test]
fn guid_mjpeg() {
    assert_eq!(guid_to_frameformat(mf_video_format_mjpeg()), Some(FrameFormat::MJPEG));
}

#[test]
fn guid_unknown_returns_none() {
    let unknown = Guid::from_values(0, 0, 0, [0; 8]);
    assert_eq!(guid_to_frameformat(unknown), None);
}

#[test]
fn kcc_to_i32_maps_every_standard_control() {
    let expected: &[(KnownCameraControl, MFControlId)] = &[
        (KnownCameraControl::Brightness, MFControlId::ProcAmpRange(VIDEO_PROC_AMP_BRIGHTNESS)),
        (KnownCameraControl::Contrast, MFControlId::ProcAmpRange(VIDEO_PROC_AMP_CONTRAST)),
        (KnownCameraControl::Hue, MFControlId::ProcAmpRange(VIDEO_PROC_AMP_HUE)),
        (KnownCameraControl::Saturation, MFControlId::ProcAmpRange(VIDEO_PROC_AMP_SATURATION)),
        (KnownCameraControl::Sharpness, MFControlId::ProcAmpRange(VIDEO_PROC_AMP_SHARPNESS)),
        (KnownCameraControl::Gamma, MFControlId::ProcAmpRange(VIDEO_PROC_AMP_GAMMA)),
        (KnownCameraControl::WhiteBalance, MFControlId::ProcAmpRange(VIDEO_PROC_AMP_WHITE_BALANCE)),
        (
            KnownCameraControl::BacklightComp,
            MFControlId::ProcAmpBoolean(VIDEO_PROC_AMP_BACKLIGHT_COMPENSATION),
        ),
        (KnownCameraControl::Gain, MFControlId::ProcAmpRange(VIDEO_PROC_AMP_GAIN)),
        (KnownCameraControl::Pan, MFControlId::CCRange(CAMERA_CONTROL_PAN)),
        (KnownCameraControl::Tilt, MFControlId::CCRange(CAMERA_CONTROL_TILT)),
        (KnownCameraControl::Zoom, MFControlId::CCRange(CAMERA_CONTROL_ZOOM)),
        (KnownCameraControl::Exposure, MFControlId::CCRange(CAMERA_CONTROL_EXPOSURE)),
        (KnownCameraControl::Iris, MFControlId::CCRange(CAMERA_CONTROL_IRIS)),
        (KnownCameraControl::Focus, MFControlId::CCRange(CAMERA_CONTROL_FOCUS)),
    ];
    for (kcc, want) in expected {
        let got = kcc_to_i32(*kcc).expect("standard control must map");
        assert_eq!(got, *want, "wrong MFControlId for {kcc:?}");
    }
}

#[test]
fn kcc_to_i32_other_color_enable_is_recognised() {
    let other = KnownCameraControl::Other(VIDEO_PROC_AMP_COLOR_ENABLE as u128);
    assert_eq!(kcc_to_i32(other), Some(MFControlId::ProcAmpRange(VIDEO_PROC_AMP_COLOR_ENABLE)));
}

#[test]
fn kcc_to_i32_unknown_other_returns_none() {
    let other = KnownCameraControl::Other(0xDEAD_BEEF);
    assert_eq!(kcc_to_i32(other), None);
}

#[test]
fn parse_frame_rate_fraction_30_over_1_returns_30() {
    let fraction = (30_u64 << 32) | 1_u64;
    assert_eq!(parse_frame_rate_fraction(fraction), Some(30));
}

#[test]
fn parse_frame_rate_fraction_30000_over_1001_returns_none() {
    let fraction = (30_000_u64 << 32) | 0x3E9_u64;
    assert_eq!(parse_frame_rate_fraction(fraction), None);
}

#[test]
fn parse_frame_rate_fraction_zero_numerator_returns_none() {
    let fraction: u64 = 1;
    assert_eq!(parse_frame_rate_fraction(fraction), None);
}

#[test]
fn parse_frame_rate_fraction_zero_denominator_returns_none() {
    let fraction: u64 = 30_u64 << 32;
    assert_eq!(parse_frame_rate_fraction(fraction), None);
}

#[test]
fn parse_frame_rate_fraction_max_numerator_round_trips() {
    let fraction = (u64::from(u32::MAX) << 32) | 1_u64;
    assert_eq!(parse_frame_rate_fraction(fraction), Some(u32::MAX));
}

#[test]
fn frame_rate_numerator_returns_high_word_not_denominator() {
    let fraction: u64 = (30_u64 << 32) | 1_u64;
    assert_eq!(fraction as u32, 1, "the buggy `as u32` cast read 1");
    assert_eq!(frame_rate_numerator(fraction), 30);
}

#[test]
fn frame_rate_numerator_ignores_denominator() {
    let fraction: u64 = (30_000_u64 << 32) | 0x3E9_u64;
    assert_eq!(frame_rate_numerator(fraction), 30_000);
}

#[test]
fn frame_rate_numerator_max_value_round_trips() {
    let fraction: u64 = (u64::from(u32::MAX) << 32) | u64::from(u32::MAX);
    assert_eq!(frame_rate_numerator(fraction), u32::MAX);
}

#[test]
fn frame_rate_numerator_zero_packed_returns_zero() {
    assert_eq!(frame_rate_numerator(0), 0);
}

#[test]
fn parse_frame_size_1080p() {
    let packed: u64 = (1920_u64 << 32) | 0x438_u64;
    assert_eq!(parse_frame_size(packed), (1920, 1080));
}

#[test]
fn parse_frame_size_max_u32_round_trips() {
    let packed: u64 = (u64::from(u32::MAX) << 32) | u64::from(u32::MAX);
    assert_eq!(parse_frame_size(packed), (u32::MAX, u32::MAX));
}

#[test]
fn parse_frame_size_zero_packed_is_zero_zero() {
    assert_eq!(parse_frame_size(0), (0, 0));
}

#[test]
fn parse_frame_size_low_half_only_is_zero_height_pair() {
    assert_eq!(parse_frame_size(1080), (0, 1080));
}

fn assert_not_implemented(err: &NokhwaError) {
    assert!(
        matches!(err, NokhwaError::NotImplementedError(_)),
        "expected NotImplementedError, got {err:?}",
    );
}

#[test]
fn lib_shared_error_helper_is_not_implemented() {
    assert_not_implemented(&not_on_this_platform());
}

#[test]
fn new_errors_off_windows() {
    let req = RequestedFormat {
        requested_format: RequestedFormatType::AbsoluteHighestFrameRate,
        wanted_decoder: vec![FrameFormat::MJPEG],
    };
    match MediaFoundationCaptureDevice::new(&CameraIndex::Index(0), &req) {
        Err(err) => assert_not_implemented(&err),
        Ok(_) => panic!("stub `new` must always error off Windows"),
    }
}

#[test]
fn backend_reports_media_foundation() {
    let dev = MediaFoundationCaptureDevice;
    assert_eq!(dev.backend(), ApiBackend::MediaFoundation);
}

#[test]
fn lib_camera_device_fallible_methods_return_not_implemented() {
    let mut dev = MediaFoundationCaptureDevice;
    assert_not_implemented(&dev.controls().expect_err("stub controls() must error"));
    let err = dev
        .set_control(KnownCameraControl::Brightness, ControlValueSetter::Integer(0))
        .expect_err("stub set_control() must error");
    assert_not_implemented(&err);
}

#[test]
fn lib_frame_source_fallible_methods_return_not_implemented() {
    let mut dev = MediaFoundationCaptureDevice;
    assert_not_implemented(
        &dev.set_format(CameraFormat::new(Resolution::new(640, 480), FrameFormat::MJPEG, 30))
            .expect_err("stub set_format() must error"),
    );
    assert_not_implemented(&dev.compatible_formats().expect_err("stub compatible_formats() must error"));
    assert_not_implemented(&dev.compatible_fourcc().expect_err("stub compatible_fourcc() must error"));
    assert_not_implemented(&dev.open().expect_err("stub open() must error"));
    assert_not_implemented(&dev.frame().expect_err("stub frame() must error"));
    assert_not_implemented(&dev.frame_raw().expect_err("stub frame_raw() must error"));
    assert_not_implemented(&dev.close().expect_err("stub close() must error"));
}

#[test]
fn lib_is_open_reports_false() {
    let dev = MediaFoundationCaptureDevice;
    assert!(!dev.is_open());
}

#[test]
fn msmf_packed_halves_come_back() {
    for (hi, lo) in [(0u32, 0u32), (1920, 1080), (u32::MAX, 1), (7, u32::MAX)] {
        let packed = (u64::from(hi) << 32) | u64::from(lo);
        assert_eq!(parse_frame_size(packed), (hi, lo));
        assert_eq!(frame_rate_numerator(packed), hi);
    }
}

#[test]
fn msmf_activation_info_reads_name_then_symlink() {
    let info = activation_info(
        CameraIndex::Index(1),
        AttributeRead::Text("USB Camera".to_string()),
        AttributeRead::Text("\\\\?\\usb#vid".to_string()),
    )
    .unwrap();
    assert_eq!(info.human_name, "USB Camera");
    assert_eq!(info.description, "MediaFoundation Camera");
    assert_eq!(info.misc, "\\\\?\\usb#vid");
    match activation_info(CameraIndex::Index(1), AttributeRead::Null, AttributeRead::Failed("x".to_string())) {
        Err(NokhwaError::GetPropertyError { property, error }) => {
            assert_eq!(property, "MF_DEVSOURCE_ATTRIBUTE_FRIENDLY_NAME");
            assert_eq!(error, "Call to IMFActivate::GetAllocatedString failed - PWSTR is null");
        },
        other => panic!("expected GetPropertyError, got {other:?}"),
    }
    match activation_info(
        CameraIndex::Index(1),
        AttributeRead::Text("n".to_string()),
        AttributeRead::Invalid("bad utf16".to_string()),
    ) {
        Err(NokhwaError::StructureError { structure, error }) => {
            assert_eq!(structure, "PWSTR/String - Symlink");
            assert_eq!(error, "bad utf16");
        },
        other => panic!("expected StructureError, got {other:?}"),
    }
}

#[test]
fn msmf_unmapped_control_is_unsupported() {
    match kcc_to_i32_or_err(KnownCameraControl::Other(0xDEAD_BEEF)) {
        Err(NokhwaError::UnsupportedOperationError(ApiBackend::MediaFoundation)) => {},
        other => panic!("expected UnsupportedOperationError, got {other:?}"),
    }
    assert_eq!(
        kcc_to_i32_or_err(KnownCameraControl::Brightness).unwrap(),
        kcc_to_i32(KnownCameraControl::Brightness).unwrap()
    );
}

fn msmf_device(i: u32) -> CameraInfo {
    CameraInfo::new(format!("cam{i}"), "MSMF".to_string(), format!("link{i}"), CameraIndex::Index(i))
}

#[test]
fn msmf_index_past_devices_is_not_found() {
    let devices = vec![msmf_device(0), msmf_device(1)];
    assert_eq!(device_position(&CameraIndex::Index(1), &devices).unwrap(), 1);
    assert_eq!(device_position(&CameraIndex::String("1".to_string()), &devices).unwrap(), 1);
    assert_eq!(device_position(&CameraIndex::String("link0".to_string()), &devices).unwrap(), 0);
    for index in [CameraIndex::Index(5), CameraIndex::String("5".to_string())] {
        match device_position(&index, &devices) {
            Err(NokhwaError::OpenDeviceError { device, error }) => {
                assert_eq!(device, "5");
                assert_eq!(error, "device not found");
            },
            other => panic!("expected device not found, got {other:?}"),
        }
    }
}
