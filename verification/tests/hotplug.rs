use nokhwa_bindings::channel::EventSender;
use nokhwa_bindings::hotplug::{
    drain_step, hotplug_events, poll_outcome, reconcile_and_emit_with, snapshot_of,
    worker_action, AVFoundationHotplugContext, DeviceSnapshot, DrainStep, HotplugCache,
    HotplugEvent, PollOutcome, SnapshotEntry, V4LHotplugContext, WorkerAction,
};
use nokhwa_bindings::types::{ApiBackend, CameraIndex, CameraInfo, NokhwaError};
use std::sync::mpsc;

fn info(idx: u32) -> CameraInfo {
    CameraInfo::new(
        format!("cam{idx}"),
        "test".to_string(),
        "test".to_string(),
        CameraIndex::Index(idx),
    )
}

fn snap<I: IntoIterator<Item = u32>>(ids: I) -> DeviceSnapshot {
    DeviceSnapshot::from_entries(
        ids.into_iter()
            .map(|i| SnapshotEntry { key: CameraIndex::Index(i).text(), info: info(i) })
            .collect(),
    )
}

fn keys(s: &DeviceSnapshot) -> Vec<String> {
    (0..s.len()).map(|i| s.entry(i).key.clone()).collect()
}

fn name_of(e: &HotplugEvent) -> String {
    match e {
        HotplugEvent::Connected(i) | HotplugEvent::Disconnected(i) => i.human_name.clone(),
    }
}

#[test]
fn hotplug_cache_is_swapped_after_reconcile() {
    let (tx, _rx) = mpsc::channel();
    let mut tx = EventSender::new(tx);
    let mut previous = snap([0]);
    let current = snap([1, 2]);
    assert!(reconcile_and_emit_with(&mut tx, &mut previous, current));
    assert_eq!(keys(&previous), vec!["1".to_string(), "2".to_string()]);
}

#[test]
fn hotplug_arrivals_and_removals_are_both_emitted() {
    let (tx, rx) = mpsc::channel();
    let mut tx = EventSender::new(tx);
    let mut previous = snap([0, 1]);
    let current = snap([1, 2]);
    assert!(reconcile_and_emit_with(&mut tx, &mut previous, current));
    drop(tx);
    let events: Vec<_> = rx.iter().collect();
    assert_eq!(events.len(), 2, "got: {events:?}");
    let connected = events.iter().filter(|e| matches!(e, HotplugEvent::Connected(_))).count();
    let disconnected = events.iter().filter(|e| matches!(e, HotplugEvent::Disconnected(_))).count();
    assert_eq!(connected, 1, "expected 1 Connected, got {events:?}");
    assert_eq!(disconnected, 1, "expected 1 Disconnected, got {events:?}");
}

#[test]
fn hotplug_arrivals_precede_removals_in_emission_order() {
    let (tx, rx) = mpsc::channel();
    let mut tx = EventSender::new(tx);
    let mut previous = snap([0]);
    let current = snap([1]);
    assert!(reconcile_and_emit_with(&mut tx, &mut previous, current));
    drop(tx);
    let events: Vec<_> = rx.iter().collect();
    assert_eq!(events.len(), 2);
    assert!(matches!(events[0], HotplugEvent::Connected(_)), "first event must be Connected, got {:?}", events[0]);
    assert!(matches!(events[1], HotplugEvent::Disconnected(_)), "second event must be Disconnected, got {:?}", events[1]);
}

#[test]
fn hotplug_identical_snapshots_emit_no_events() {
    let (tx, rx) = mpsc::channel();
    let mut tx = EventSender::new(tx);
    let mut previous = snap([0, 1, 2]);
    let current = snap([0, 1, 2]);
    assert!(reconcile_and_emit_with(&mut tx, &mut previous, current));
    drop(tx);
    assert_eq!(rx.iter().count(), 0);
    assert_eq!(previous.len(), 3);
}

#[test]
fn hotplug_returns_false_when_channel_closed() {
    let (tx, rx) = mpsc::channel();
    let mut tx = EventSender::new(tx);
    drop(rx);
    let mut previous = snap([0]);
    let current = snap([1]);
    assert!(!reconcile_and_emit_with(&mut tx, &mut previous, current));
    assert_eq!(keys(&previous), vec!["0".to_string()]);
}

#[test]
fn hotplug_events_list_differences_in_key_order() {
    let previous = snap([5, 1, 3]);
    let current = snap([4, 3, 2]);
    let names: Vec<String> = hotplug_events(&previous, &current).iter().map(name_of).collect();
    assert_eq!(names, vec!["cam2", "cam4", "cam1", "cam5"]);
    let events = hotplug_events(&previous, &current);
    assert!(matches!(events[1], HotplugEvent::Connected(_)));
    assert!(matches!(events[2], HotplugEvent::Disconnected(_)));
}

#[test]
fn hotplug_second_reconcile_with_same_devices_is_silent() {
    let (tx, rx) = mpsc::channel();
    let mut tx = EventSender::new(tx);
    let mut previous = snap([0]);
    assert!(reconcile_and_emit_with(&mut tx, &mut previous, snap([0, 7])));
    assert!(reconcile_and_emit_with(&mut tx, &mut previous, snap([0, 7])));
    drop(tx);
    assert_eq!(rx.iter().count(), 1);
}

#[test]
fn hotplug_snapshot_later_device_replaces_same_key() {
    let s = DeviceSnapshot::from_entries(vec![
        SnapshotEntry { key: "a".to_string(), info: info(1) },
        SnapshotEntry { key: "a".to_string(), info: info(2) },
    ]);
    assert_eq!(s.len(), 1);
    assert_eq!(s.entry(0).info.human_name, "cam2");
    assert!(s.contains_key("a"));
    assert!(!s.contains_key("b"));
}

#[test]
fn hotplug_snapshot_of_enumeration() {
    let found: Result<Vec<CameraInfo>, NokhwaError> = Ok(vec![info(3), info(1)]);
    let s = snapshot_of(found, false);
    assert_eq!(keys(&s), vec!["1".to_string(), "3".to_string()]);
    let mut by_misc = info(9);
    by_misc.misc = "0x9-AVCaptureDevice-uniqueID".to_string();
    let s = snapshot_of(Ok(vec![by_misc]), true);
    assert_eq!(keys(&s), vec!["0x9-AVCaptureDevice-uniqueID".to_string()]);
    let failed: Result<Vec<CameraInfo>, NokhwaError> =
        Err(NokhwaError::GeneralError { message: "x".to_string(), backend: None });
    assert_eq!(snapshot_of(failed, false).len(), 0);
}

#[test]
fn hotplug_cache_stops_after_channel_closes() {
    let (tx, rx) = mpsc::channel();
    let tx = EventSender::new(tx);
    let mut cache = HotplugCache { sender: tx, previous: snap([0]), channel_dead: false };
    drop(rx);
    cache.on_change(snap([1]));
    assert!(cache.channel_dead);
    assert_eq!(keys(&cache.previous), vec!["0".to_string()]);
    cache.on_change(snap([2]));
    assert_eq!(keys(&cache.previous), vec!["0".to_string()]);
}

#[test]
fn hotplug_cache_tracks_live_channel() {
    let (tx, rx) = mpsc::channel();
    let tx = EventSender::new(tx);
    let mut cache = HotplugCache { sender: tx, previous: snap([0]), channel_dead: false };
    cache.on_change(snap([0, 1]));
    assert!(!cache.channel_dead);
    assert_eq!(keys(&cache.previous), vec!["0".to_string(), "1".to_string()]);
    assert_eq!(rx.try_iter().count(), 1);
}

#[test]
fn hotplug_take_twice_is_refused() {
    let mut v4l = V4LHotplugContext::new();
    assert!(v4l.take_hotplug_events().is_ok());
    match v4l.take_hotplug_events() {
        Err(NokhwaError::UnsupportedOperationError(ApiBackend::Video4Linux)) => {},
        other => panic!("expected UnsupportedOperationError, got {other:?}"),
    }
    let mut avf = AVFoundationHotplugContext::default();
    assert!(avf.take_hotplug_events().is_ok());
    match avf.take_hotplug_events() {
        Err(NokhwaError::UnsupportedOperationError(ApiBackend::AVFoundation)) => {},
        other => panic!("expected UnsupportedOperationError, got {other:?}"),
    }
}

#[test]
fn hotplug_poll_and_drain_decisions() {
    assert_eq!(poll_outcome(1, false), PollOutcome::Ready);
    assert_eq!(poll_outcome(0, false), PollOutcome::Timeout);
    assert_eq!(poll_outcome(-1, true), PollOutcome::Timeout);
    assert_eq!(poll_outcome(-1, false), PollOutcome::Error);
    assert_eq!(drain_step(16, false, false), DrainStep::Again);
    assert_eq!(drain_step(0, false, false), DrainStep::Broken);
    assert_eq!(drain_step(-1, true, false), DrainStep::Drained);
    assert_eq!(drain_step(-1, false, true), DrainStep::Again);
    assert_eq!(drain_step(-1, false, false), DrainStep::Broken);
    assert_eq!(worker_action(true, PollOutcome::Ready), WorkerAction::Exit);
    assert_eq!(worker_action(false, PollOutcome::Ready), WorkerAction::Refresh);
    assert_eq!(worker_action(false, PollOutcome::Timeout), WorkerAction::PollAgain);
    assert_eq!(worker_action(false, PollOutcome::Error), WorkerAction::Exit);
}

#[test]
fn hotplug_nothing_to_send_succeeds_even_on_closed_channel() {
    let (tx, rx) = mpsc::channel();
    let mut tx = EventSender::new(tx);
    drop(rx);
    let mut previous = snap([0, 1]);
    assert!(reconcile_and_emit_with(&mut tx, &mut previous, snap([0, 1])));
    assert_eq!(keys(&previous), vec!["0".to_string(), "1".to_string()]);
}

#[test]
fn hotplug_run_sends_each_difference_in_turn() {
    let (tx, rx) = mpsc::channel();
    let tx = EventSender::new(tx);
    let mut cache = HotplugCache { sender: tx, previous: snap([0]), channel_dead: false };
    cache.on_change(snap([0, 1]));
    cache.on_change(snap([1]));
    cache.on_change(snap([1, 2]));
    assert!(!cache.channel_dead);
    let events: Vec<_> = rx.try_iter().collect();
    let shape: Vec<(bool, String)> = events
        .iter()
        .map(|e| (matches!(e, HotplugEvent::Connected(_)), name_of(e)))
        .collect();
    assert_eq!(
        shape,
        vec![(true, "cam1".to_string()), (false, "cam0".to_string()), (true, "cam2".to_string())]
    );
}
