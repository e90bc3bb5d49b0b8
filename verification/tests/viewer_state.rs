use mems_lidar::{
    accepts_surface_size, plan_point_upload, AppState, AppTab, BatchAction, ColoringMode,
    InteractionMode, Measurement, PerfCounters, PerfWindow, PointerAction, PointerEvent,
    UploadPlan, DEFAULT_LISTEN_IP, DEFAULT_TARGET_IP,
};

#[test]
fn measurement_restarts_after_two_points() {
    let mut m: Measurement<(i32, i32)> = Measurement::new();
    assert!(!m.pick((1, 1)));
    assert!(m.pick((2, 2)));
    assert_eq!(m.points(), &vec![(1, 1), (2, 2)]);
    assert!(!m.pick((3, 3)));
    assert_eq!(m.points(), &vec![(3, 3)]);
}

#[test]
fn perf_window_closes_after_a_second() {
    let mut p = PerfCounters::new();
    p.add_points(10);
    p.add_bytes(80);
    assert_eq!(p.end_frame(500_000_000), None);
    assert_eq!(p, PerfCounters { frames: 1, points: 10, bytes: 80 });
    assert_eq!(
        p.end_frame(1_000_000_000),
        Some(PerfWindow { frames: 2, points: 10, bytes: 80, elapsed_nanos: 1_000_000_000 })
    );
    assert_eq!(p, PerfCounters { frames: 0, points: 0, bytes: 0 });
}

#[test]
fn upload_grows_only_when_needed() {
    assert_eq!(plan_point_upload(0, 12, 0), UploadPlan::Clear);
    assert_eq!(
        plan_point_upload(10, 12, 100),
        UploadPlan::Write { grow_to: Some(120), num_points: 10 }
    );
    assert_eq!(
        plan_point_upload(10, 12, 120),
        UploadPlan::Write { grow_to: None, num_points: 10 }
    );
    assert!(accepts_surface_size(800, 600));
    assert!(!accepts_surface_size(0, 600));
    assert!(!accepts_surface_size(800, 0));
}

#[test]
fn app_state_defaults() {
    let s = AppState::new();
    assert_eq!(s.active_tab, AppTab::Controls);
    assert_eq!(s.interaction_mode, InteractionMode::Camera);
    assert_eq!(s.coloring_mode, ColoringMode::White);
    assert!(s.coloring_dirty);
    assert!(!s.has_centered_on_initial_cloud);
    assert!(!s.is_listening);
    assert_eq!(s.ip_addr, DEFAULT_LISTEN_IP);
    assert_eq!(s.port, "1234");
    assert_eq!(s.target_ip_addr, DEFAULT_TARGET_IP);
    assert_eq!(s.target_port, "1234");
}

#[test]
fn pointer_actions_follow_mode() {
    let mut s = AppState::new();
    assert_eq!(s.pointer_action(PointerEvent::CursorMoved, true, false), PointerAction::MoveCamera);
    assert_eq!(s.pointer_action(PointerEvent::CursorMoved, false, false), PointerAction::Ignore);
    assert_eq!(s.pointer_action(PointerEvent::Wheel, true, false), PointerAction::Zoom);
    assert_eq!(s.pointer_action(PointerEvent::Wheel, true, true), PointerAction::Ignore);
    assert_eq!(s.pointer_action(PointerEvent::LeftPressed, true, false), PointerAction::Ignore);
    s.interaction_mode = InteractionMode::Measuring;
    assert_eq!(s.pointer_action(PointerEvent::LeftPressed, false, false), PointerAction::PickPoint);
    assert_eq!(s.pointer_action(PointerEvent::Wheel, true, false), PointerAction::Ignore);
}

#[test]
fn camera_frames_first_cloud_once() {
    let mut s = AppState::new();
    assert!(!s.record_datagram(&[0, 0, 0, 0, 8], 0));
    assert!(s.record_datagram(&[0, 0, 0, 0, 16, 1, 2], 3));
    assert!(!s.record_datagram(&[], 5));
    assert!(s.has_centered_on_initial_cloud);
    assert_eq!(s.perf, PerfCounters { frames: 0, points: 8, bytes: 12 });
    assert_eq!(s.signal.counter(), 2);
}

#[test]
fn batches_recolor_or_upload() {
    let mut s = AppState::new();
    assert!(s.take_recolor());
    assert!(!s.take_recolor());
    assert_eq!(s.finish_batch(0), BatchAction::Nothing);
    assert_eq!(s.finish_batch(4), BatchAction::Upload);
    assert!(!s.coloring_dirty);
    s.coloring_mode = ColoringMode::ByHeight;
    assert_eq!(s.finish_batch(4), BatchAction::Recolor);
    assert!(s.coloring_dirty);
    s.take_recolor();
    s.cloud_loaded();
    assert!(s.coloring_dirty);
    assert!(s.has_centered_on_initial_cloud);
}
