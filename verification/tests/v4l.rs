use nokhwa_bindings::types::{CameraFormat, FrameFormat, KnownCameraControl, Resolution, NokhwaError};
use nokhwa_bindings::v4l::{
    control_id_at, expand_frame_interval, expand_stepwise_resolutions, fourcc_to_frameformat,
    frameformat_to_fourcc, id_to_known_camera_control, interval_to_fps,
    known_camera_control_to_id, monotonic_to_wallclock, Fraction, FrameInterval,
};

fn run(min_w: u32, max_w: u32, step_w: u32, min_h: u32, max_h: u32, step_h: u32) -> Vec<Resolution> {
    let mut out = Vec::new();
    expand_stepwise_resolutions(min_w, max_w, step_w, min_h, max_h, step_h, &mut out);
    out
}

const ALL_FORMATS: [FrameFormat; 6] = [
    FrameFormat::MJPEG,
    FrameFormat::YUYV,
    FrameFormat::NV12,
    FrameFormat::GRAY,
    FrameFormat::RAWRGB,
    FrameFormat::RAWBGR,
];

#[test]
fn endpoints_only_when_no_presets_fit() {
    let out = run(64, 300, 1, 64, 200, 1);
    assert_eq!(out, vec![Resolution::new(64, 64), Resolution::new(300, 200)]);
}

#[test]
fn min_equals_max_emits_single_endpoint() {
    let out = run(640, 640, 0, 480, 480, 0);
    assert_eq!(out, vec![Resolution::new(640, 480)]);
}

#[test]
fn presets_in_range_with_step_one_all_pass() {
    let out = run(320, 4096, 1, 240, 4096, 1);
    assert_eq!(out.len(), 10);
    assert_eq!(out.first(), Some(&Resolution::new(320, 240)));
    assert_eq!(out.last(), Some(&Resolution::new(4096, 4096)));
    assert!(out.contains(&Resolution::new(1280, 720)));
    assert!(out.contains(&Resolution::new(1920, 1080)));
}

#[test]
fn step_misalignment_drops_preset() {
    let out = run(320, 4096, 100, 240, 4096, 1);
    assert!(out.contains(&Resolution::new(1920, 1080)));
    assert!(!out.contains(&Resolution::new(1280, 720)));
    assert!(!out.contains(&Resolution::new(2560, 1440)));
}

#[test]
fn out_of_range_presets_excluded() {
    let out = run(320, 1280, 1, 240, 720, 1);
    assert!(out.contains(&Resolution::new(1280, 720)));
    assert!(!out.contains(&Resolution::new(1920, 1080)));
    assert!(!out.contains(&Resolution::new(3840, 2160)));
}

#[test]
fn stepwise_keeps_what_the_list_already_holds() {
    let mut out = vec![Resolution::new(640, 480)];
    expand_stepwise_resolutions(320, 1280, 1, 240, 720, 1, &mut out);
    assert_eq!(out[0], Resolution::new(640, 480));
    assert_eq!(out.iter().filter(|r| **r == Resolution::new(640, 480)).count(), 1);
    assert_eq!(out[1], Resolution::new(320, 240));
    assert_eq!(out.last(), Some(&Resolution::new(1280, 720)));
}

#[test]
fn v4l2_control_ids_table_order_matches_known_camera_control_index() {
    let expected: [(KnownCameraControl, u32); 15] = [
        (KnownCameraControl::Brightness, 0x0098_0900),
        (KnownCameraControl::Contrast, 0x0098_0901),
        (KnownCameraControl::Hue, 0x0098_0903),
        (KnownCameraControl::Saturation, 0x0098_0902),
        (KnownCameraControl::Sharpness, 0x0098_091b),
        (KnownCameraControl::Gamma, 0x0098_0910),
        (KnownCameraControl::WhiteBalance, 0x0098_091a),
        (KnownCameraControl::BacklightComp, 0x0098_091c),
        (KnownCameraControl::Gain, 0x0098_0913),
        (KnownCameraControl::Pan, 0x009a_0904),
        (KnownCameraControl::Tilt, 0x009a_0905),
        (KnownCameraControl::Zoom, 0x009a_090e),
        (KnownCameraControl::Exposure, 0x0098_0911),
        (KnownCameraControl::Iris, 0x009a_0912),
        (KnownCameraControl::Focus, 0x009a_090b),
    ];
    for (idx, (ctrl, cid)) in expected.iter().enumerate() {
        assert_eq!(ctrl.as_index(), Some(idx as u8), "expected canonical index {idx} for {ctrl:?}");
        assert_eq!(control_id_at(idx as u8), *cid, "table entry {idx} should be the id of {ctrl:?}");
    }
}

#[test]
fn known_camera_control_to_id_round_trips_for_every_standard_control() {
    for idx in 0..15u8 {
        let ctrl = KnownCameraControl::from_index(idx).expect("from_index in range");
        let cid = known_camera_control_to_id(ctrl);
        let back = id_to_known_camera_control(cid);
        assert_eq!(back, ctrl, "round-trip failed for {ctrl:?} (cid={cid})");
    }
}

#[test]
fn id_to_known_camera_control_unknown_returns_other() {
    let unknown: u32 = 0xFFFF_FFFF;
    match id_to_known_camera_control(unknown) {
        KnownCameraControl::Other(v) => assert_eq!(v, u128::from(unknown)),
        other => panic!("expected Other({unknown}), got {other:?}"),
    }
}

#[test]
fn known_camera_control_to_id_other_truncates_to_u32() {
    let raw: u128 = 0xDEAD_BEEF;
    let ctrl = KnownCameraControl::Other(raw);
    let id = known_camera_control_to_id(ctrl);
    assert_eq!(id, raw as u32);
    let back = id_to_known_camera_control(id);
    assert_eq!(back, KnownCameraControl::Other(u128::from(id)));
}

#[test]
fn known_camera_control_to_id_other_keeps_low_bits_only() {
    let ctrl = KnownCameraControl::Other((1u128 << 40) | 0x1234);
    assert_eq!(known_camera_control_to_id(ctrl), 0x1234);
}

#[test]
fn monotonic_to_wallclock_zero_timestamp_returns_none() {
    assert_eq!(monotonic_to_wallclock(0, 0, 5_000_000_000, 1_700_000_000_000_000_000), None);
}

#[test]
fn monotonic_to_wallclock_future_timestamp_returns_none() {
    assert_eq!(
        monotonic_to_wallclock(i64::MAX, 0, 5_000_000_000, 1_700_000_000_000_000_000),
        None,
        "future-monotonic timestamp must yield None"
    );
}

#[test]
fn monotonic_to_wallclock_recent_timestamp_close_to_current_realtime() {
    let mono_now: u128 = 1_000_000_000_000;
    let wall_now: u128 = 1_700_000_000_000_000_000;
    // captured half a second before the clocks were read
    let observed = monotonic_to_wallclock(999, 500_000, mono_now, wall_now)
        .expect("recent monotonic timestamp must produce a wallclock");
    assert_eq!(observed, wall_now - 500_000_000);
    assert!(wall_now - observed < 1_000_000_000);
}

#[test]
fn monotonic_to_wallclock_age_beyond_wall_time_returns_none() {
    assert_eq!(monotonic_to_wallclock(1, 0, 10_000_000_000, 5), None);
}

#[test]
fn frameformat_fourcc_round_trips_for_every_variant() {
    for fmt in ALL_FORMATS {
        let fcc = frameformat_to_fourcc(fmt);
        let back = fourcc_to_frameformat(fcc);
        assert_eq!(back, Some(fmt), "{fmt:?} did not survive the round trip");
    }
}

#[test]
fn fourcc_to_frameformat_unknown_returns_none() {
    assert_eq!(fourcc_to_frameformat(*b"H264"), None);
    assert_eq!(fourcc_to_frameformat(*b"\0\0\0\0"), None);
}

#[test]
fn frameformat_to_fourcc_matches_core_to_fourcc_bytes() {
    let core: [(FrameFormat, &[u8; 4]); 6] = [
        (FrameFormat::MJPEG, b"MJPG"),
        (FrameFormat::YUYV, b"YUYV"),
        (FrameFormat::NV12, b"NV12"),
        (FrameFormat::GRAY, b"GRAY"),
        (FrameFormat::RAWRGB, b"RGB3"),
        (FrameFormat::RAWBGR, b"BGR3"),
    ];
    for (fmt, core_bytes) in core {
        let v4l_bytes = frameformat_to_fourcc(fmt);
        if fmt == FrameFormat::GRAY {
            assert_eq!(&v4l_bytes, b"GREY", "v4l grayscale fourcc must use the kernel wire token GREY");
            continue;
        }
        assert_eq!(&v4l_bytes, core_bytes, "v4l fourcc bytes for {fmt:?} diverge");
    }
}

#[test]
fn grayscale_translates_grey_kernel_token() {
    assert_eq!(fourcc_to_frameformat(*b"GREY"), Some(FrameFormat::GRAY));
    assert_eq!(fourcc_to_frameformat(*b"GRAY"), Some(FrameFormat::GRAY));
    assert_eq!(&frameformat_to_fourcc(FrameFormat::GRAY), b"GREY");
}

#[test]
fn interval_to_fps_one_over_thirty_returns_thirty() {
    let interval = Fraction { numerator: 1, denominator: 30 };
    assert_eq!(interval_to_fps(interval).unwrap(), 30);
}

#[test]
fn interval_to_fps_one_over_sixty_returns_sixty() {
    let interval = Fraction { numerator: 1, denominator: 60 };
    assert_eq!(interval_to_fps(interval).unwrap(), 60);
}

#[test]
fn interval_to_fps_ntsc_fractional_form_errors() {
    let interval = Fraction { numerator: 1001, denominator: 30_000 };
    match interval_to_fps(interval) {
        Err(NokhwaError::GetPropertyError { property, error }) => {
            assert_eq!(property, "V4L2 FrameRate");
            assert_eq!(error, "Framerate not whole number: 30000 / 1001");
        },
        other => panic!("expected GetPropertyError, got {other:?}"),
    }
}

#[test]
fn interval_to_fps_unreduced_form_errors() {
    let interval = Fraction { numerator: 2, denominator: 60 };
    assert!(interval_to_fps(interval).is_err());
}

#[test]
fn interval_to_fps_zero_numerator_errors() {
    let interval = Fraction { numerator: 0, denominator: 30 };
    assert!(interval_to_fps(interval).is_err());
}

#[test]
fn expand_frame_interval_stepwise_zero_step_does_not_panic() {
    let resolution = Resolution::new(640, 480);
    let interval = FrameInterval::Stepwise {
        min: Fraction { numerator: 1, denominator: 30 },
        max: Fraction { numerator: 1, denominator: 60 },
        step: Fraction { numerator: 0, denominator: 1 },
    };
    let result = expand_frame_interval(interval, resolution, FrameFormat::MJPEG);
    assert!(result.is_empty());
}

#[test]
fn expand_frame_interval_discrete_whole_rate() {
    let resolution = Resolution::new(640, 480);
    let one = FrameInterval::Discrete(Fraction { numerator: 1, denominator: 25 });
    assert_eq!(
        expand_frame_interval(one, resolution, FrameFormat::YUYV),
        vec![CameraFormat::new(resolution, FrameFormat::YUYV, 25)]
    );
    let two = FrameInterval::Discrete(Fraction { numerator: 2, denominator: 25 });
    assert!(expand_frame_interval(two, resolution, FrameFormat::YUYV).is_empty());
}

#[test]
fn expand_frame_interval_stepwise_ladder() {
    let resolution = Resolution::new(320, 240);
    let interval = FrameInterval::Stepwise {
        min: Fraction { numerator: 5, denominator: 2 },
        max: Fraction { numerator: 15, denominator: 2 },
        step: Fraction { numerator: 5, denominator: 2 },
    };
    let rates: Vec<u32> = expand_frame_interval(interval, resolution, FrameFormat::NV12)
        .iter()
        .map(|c| c.frame_rate)
        .collect();
    assert_eq!(rates, vec![5, 10, 15]);
    let unit = FrameInterval::Stepwise {
        min: Fraction { numerator: 5, denominator: 1 },
        max: Fraction { numerator: 15, denominator: 1 },
        step: Fraction { numerator: 5, denominator: 1 },
    };
    assert!(expand_frame_interval(unit, resolution, FrameFormat::NV12).is_empty());
}

#[test]
fn expand_stepwise_resolutions_includes_max_endpoint() {
    let out = run(320, 1921, 1, 240, 1081, 1);
    assert!(out.contains(&Resolution::new(1921, 1081)), "max endpoint must be present; got {out:?}");
}

#[test]
fn expand_stepwise_resolutions_zero_step_does_not_panic() {
    let out = run(320, 1920, 0, 240, 1080, 0);
    assert!(out.contains(&Resolution::new(320, 240)));
    assert!(out.contains(&Resolution::new(1920, 1080)));
}

#[test]
fn stepwise_output_ascends_by_area() {
    let out = run(160, 4096, 0, 120, 2160, 0);
    assert!(out.len() > 2);
    for pair in out.windows(2) {
        let a = u64::from(pair[0].width_x) * u64::from(pair[0].height_y);
        let b = u64::from(pair[1].width_x) * u64::from(pair[1].height_y);
        assert!(a <= b, "{out:?}");
    }
}
