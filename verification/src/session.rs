use crate::modes::{AppTab, ColoringMode, InteractionMode};
use crate::perf::PerfCounters;
use crate::signal::{record_tofs, SignalStats};
use vstd::prelude::*;

verus! {

/// Address the viewer listens on at start-up.
pub const DEFAULT_LISTEN_IP: &'static str = "192.168.1.102";

/// Port the viewer listens on at start-up.
pub const DEFAULT_LISTEN_PORT: &'static str = "1234";

/// Address of the scanner at start-up.
pub const DEFAULT_TARGET_IP: &'static str = "192.168.1.10";

/// Port of the scanner at start-up.
pub const DEFAULT_TARGET_PORT: &'static str = "1234";

/// A pointer event of the 3D view, as far as the viewer's decisions go.
#[derive(PartialEq, Eq, Structural, Clone, Copy, Debug)]
pub enum PointerEvent {
    CursorMoved,
    Wheel,
    LeftPressed,
    Other,
}

/// What the viewer does with a pointer event.
#[derive(PartialEq, Eq, Structural, Clone, Copy, Debug)]
pub enum PointerAction {
    /// Rotate or pan the camera with the cursor.
    MoveCamera,
    /// Zoom the camera with the wheel.
    Zoom,
    /// Pick the point under the cursor for the measuring tool.
    PickPoint,
    /// Nothing.
    Ignore,
}

/// What to do with the points received in one round of datagrams.
#[derive(PartialEq, Eq, Structural, Clone, Copy, Debug)]
pub enum BatchAction {
    /// No new point.
    Nothing,
    /// Upload the grown cloud to the GPU.
    Upload,
    /// The colours depend on the cloud's height range: recolour first.
    Recolor,
}

/// The viewer's plain state: what the side panel shows and edits, the
/// interaction and colouring modes, the live statistics and the rate
/// counters.
pub struct AppState {
    pub active_tab: AppTab,
    pub interaction_mode: InteractionMode,
    pub coloring_mode: ColoringMode,
    pub coloring_dirty: bool,
    pub has_centered_on_initial_cloud: bool,
    pub is_listening: bool,
    pub ip_addr: String,
    pub port: String,
    pub target_ip_addr: String,
    pub target_port: String,
    pub perf: PerfCounters,
    pub signal: SignalStats,
}

/// The action for a pointer event: nothing while the panels own the
/// pointer; in camera mode, cursor moves and the wheel drive the camera when
/// the cursor is over the 3D view; in measuring mode a left press picks a
/// point.
pub open spec fn spec_pointer_action(
    mode: InteractionMode,
    event: PointerEvent,
    over_view: bool,
    ui_owns_pointer: bool,
) -> PointerAction {
    if ui_owns_pointer {
        PointerAction::Ignore
    } else {
        match mode {
            InteractionMode::Camera => match event {
                PointerEvent::CursorMoved => if over_view {
                    PointerAction::MoveCamera
                } else {
                    PointerAction::Ignore
                },
                PointerEvent::Wheel => if over_view {
                    PointerAction::Zoom
                } else {
                    PointerAction::Ignore
                },
                _ => PointerAction::Ignore,
            },
            InteractionMode::Measuring => match event {
                PointerEvent::LeftPressed => PointerAction::PickPoint,
                _ => PointerAction::Ignore,
            },
        }
    }
}

/// The two states agree on what the side panel edits and on the modes
/// (the colouring flags, counters and statistics aside).
pub open spec fn same_settings(a: &AppState, b: &AppState) -> bool {
    &&& a.active_tab == b.active_tab
    &&& a.interaction_mode == b.interaction_mode
    &&& a.coloring_mode == b.coloring_mode
    &&& a.is_listening == b.is_listening
    &&& a.ip_addr@ == b.ip_addr@
    &&& a.port@ == b.port@
    &&& a.target_ip_addr@ == b.target_ip_addr@
    &&& a.target_port@ == b.target_port@
}

impl AppState {
    /// The live distance statistics.
    pub open spec fn signal_stats(&self) -> SignalStats {
        self.signal
    }

    /// The statistics are well formed.
    pub open spec fn wf(&self) -> bool {
        self.signal.wf()
    }

    /// The state at start-up: the control tab, camera mode, white points to
    /// be coloured, no cloud framed yet, not listening, the default
    /// addresses, and empty statistics.
    pub fn new() -> (r: AppState)
        ensures
            r.wf(),
            r.signal_stats().history() == Seq::<u8>::empty(),
            r.active_tab == AppTab::Controls,
            r.interaction_mode == InteractionMode::Camera,
            r.coloring_mode == ColoringMode::White,
            r.coloring_dirty,
            !r.has_centered_on_initial_cloud,
            !r.is_listening,
            r.ip_addr@ == DEFAULT_LISTEN_IP@,
            r.port@ == DEFAULT_LISTEN_PORT@,
            r.target_ip_addr@ == DEFAULT_TARGET_IP@,
            r.target_port@ == DEFAULT_TARGET_PORT@,
            r.perf == (PerfCounters { frames: 0, points: 0, bytes: 0 }),
    {
        AppState {
            active_tab: AppTab::Controls,
            interaction_mode: InteractionMode::Camera,
            coloring_mode: ColoringMode::White,
            coloring_dirty: true,
            has_centered_on_initial_cloud: false,
            is_listening: false,
            ip_addr: String::from_str(DEFAULT_LISTEN_IP),
            port: String::from_str(DEFAULT_LISTEN_PORT),
            target_ip_addr: String::from_str(DEFAULT_TARGET_IP),
            target_port: String::from_str(DEFAULT_TARGET_PORT),
            perf: PerfCounters::new(),
            signal: SignalStats::new(),
        }
    }

    /// What to do with a pointer event; `over_view` tells whether the
    /// cursor is over the 3D view and `ui_owns_pointer` whether the panels
    /// are using the pointer.
    pub fn pointer_action(&self, event: PointerEvent, over_view: bool, ui_owns_pointer: bool) -> (r:
        PointerAction)
        ensures
            r == spec_pointer_action(self.interaction_mode, event, over_view, ui_owns_pointer),
            ui_owns_pointer ==> r == PointerAction::Ignore,
            self.interaction_mode == InteractionMode::Camera && !over_view ==> r
                == PointerAction::Ignore,
            self.interaction_mode == InteractionMode::Camera ==> r != PointerAction::PickPoint,
            self.interaction_mode == InteractionMode::Measuring ==> (r == PointerAction::PickPoint
                && event == PointerEvent::LeftPressed) || r == PointerAction::Ignore,
            r == PointerAction::MoveCamera ==> event == PointerEvent::CursorMoved,
            r == PointerAction::Zoom ==> event == PointerEvent::Wheel,
    {
        if ui_owns_pointer {
            return PointerAction::Ignore;
        }
        match self.interaction_mode {
            InteractionMode::Camera => match event {
                PointerEvent::CursorMoved => if over_view {
                    PointerAction::MoveCamera
                } else {
                    PointerAction::Ignore
                },
                PointerEvent::Wheel => if over_view {
                    PointerAction::Zoom
                } else {
                    PointerAction::Ignore
                },
                _ => PointerAction::Ignore,
            },
            InteractionMode::Measuring => match event {
                PointerEvent::LeftPressed => PointerAction::PickPoint,
                _ => PointerAction::Ignore,
            },
        }
    }

    /// Takes in one datagram from which `points_found` points were decoded:
    /// counts its bytes and points, records its distances, and tells whether
    /// the camera should now frame the cloud (the first datagram that brings
    /// points does so).
    pub fn record_datagram(&mut self, bytes: &[u8], points_found: usize) -> (frame_camera: bool)
        requires
            old(self).wf(),
            old(self).perf.bytes + bytes@.len() <= usize::MAX,
            old(self).perf.points + points_found <= usize::MAX,
            old(self).signal_stats().history().len() + bytes@.len() / 5 <= u64::MAX,
        ensures
            final(self).wf(),
            frame_camera == frames_camera(old(self).has_centered_on_initial_cloud, points_found),
            final(self).has_centered_on_initial_cloud == (old(self).has_centered_on_initial_cloud
                || points_found > 0),
            final(self).perf == (PerfCounters {
                bytes: (old(self).perf.bytes + bytes@.len()) as usize,
                points: (old(self).perf.points + points_found) as usize,
                ..old(self).perf
            }),
            final(self).signal_stats().history() == old(self).signal_stats().history()
                + record_tofs(bytes@),
            final(self).coloring_dirty == old(self).coloring_dirty,
            same_settings(final(self), old(self)),
    {
        self.perf.add_bytes(bytes.len());
        let mut frame_camera = false;
        if points_found > 0 {
            if !self.has_centered_on_initial_cloud {
                frame_camera = true;
                self.has_centered_on_initial_cloud = true;
            }
            self.perf.add_points(points_found);
        }
        self.signal.record_chunks(bytes);
        frame_camera
    }

    /// After a round of datagrams that brought `new_points` points: nothing
    /// to do without points; otherwise recolour (height colouring depends on
    /// the whole cloud) or just upload the grown cloud.
    pub fn finish_batch(&mut self, new_points: usize) -> (r: BatchAction)
        ensures
            new_points == 0 ==> r == BatchAction::Nothing && final(self).coloring_dirty
                == old(self).coloring_dirty,
            new_points > 0 && old(self).coloring_mode == ColoringMode::ByHeight ==> r
                == BatchAction::Recolor && final(self).coloring_dirty,
            new_points > 0 && old(self).coloring_mode == ColoringMode::White ==> r
                == BatchAction::Upload && final(self).coloring_dirty == old(self).coloring_dirty,
            same_settings(final(self), old(self)),
            final(self).has_centered_on_initial_cloud == old(self).has_centered_on_initial_cloud,
            final(self).perf == old(self).perf,
            final(self).signal_stats() == old(self).signal_stats(),
    {
        if new_points == 0 {
            BatchAction::Nothing
        } else if self.coloring_mode == ColoringMode::ByHeight {
            self.coloring_dirty = true;
            BatchAction::Recolor
        } else {
            BatchAction::Upload
        }
    }

    /// A cloud was loaded from a file: it counts as framed, and it is to be
    /// coloured.
    pub fn cloud_loaded(&mut self)
        ensures
            final(self).has_centered_on_initial_cloud,
            final(self).coloring_dirty,
            same_settings(final(self), old(self)),
            final(self).perf == old(self).perf,
            final(self).signal_stats() == old(self).signal_stats(),
    {
        self.has_centered_on_initial_cloud = true;
        self.coloring_dirty = true;
    }

    /// Whether the cloud must be recoloured before this frame; the request
    /// is consumed.
    pub fn take_recolor(&mut self) -> (r: bool)
        ensures
            r == old(self).coloring_dirty,
            !final(self).coloring_dirty,
            same_settings(final(self), old(self)),
            final(self).has_centered_on_initial_cloud == old(self).has_centered_on_initial_cloud,
            final(self).perf == old(self).perf,
            final(self).signal_stats() == old(self).signal_stats(),
    {
        let r = self.coloring_dirty;
        self.coloring_dirty = false;
        r
    }
}

/// How the viewer answers pointer events: while the panels own the pointer
/// nothing happens; in camera mode only a cursor move or a wheel turn over the
/// 3D view acts, moving or zooming the camera respectively, and nothing picks
/// a point; in measuring mode only a left press acts, and it picks a point.
pub proof fn lemma_pointer_rules(
    mode: InteractionMode,
    event: PointerEvent,
    over_view: bool,
    ui_owns_pointer: bool,
)
    ensures
        ({
            let r = spec_pointer_action(mode, event, over_view, ui_owns_pointer);
            &&& ui_owns_pointer ==> r == PointerAction::Ignore
            &&& mode == InteractionMode::Camera && !over_view ==> r == PointerAction::Ignore
            &&& mode == InteractionMode::Camera && over_view && !ui_owns_pointer
                && event == PointerEvent::CursorMoved ==> r == PointerAction::MoveCamera
            &&& mode == InteractionMode::Camera && over_view && !ui_owns_pointer
                && event == PointerEvent::Wheel ==> r == PointerAction::Zoom
            &&& mode == InteractionMode::Camera ==> r != PointerAction::PickPoint
            &&& mode == InteractionMode::Measuring ==> (r == PointerAction::PickPoint && event
                == PointerEvent::LeftPressed) || r == PointerAction::Ignore
            &&& mode == InteractionMode::Measuring && !ui_owns_pointer && event
                == PointerEvent::LeftPressed ==> r == PointerAction::PickPoint
            &&& r == PointerAction::MoveCamera ==> event == PointerEvent::CursorMoved
            &&& r == PointerAction::Zoom ==> event == PointerEvent::Wheel
        }),
{
}

/// Whether a datagram with `points` points makes the camera frame the
/// cloud, given whether it was framed before.
pub open spec fn frames_camera(centered: bool, points: usize) -> bool {
    points > 0 && !centered
}

/// Number of times the camera frames the cloud over a series of datagrams,
/// given by the number of points each brought.
pub open spec fn framing_count(centered: bool, points: Seq<usize>) -> nat
    decreases points.len(),
{
    if points.len() == 0 {
        0
    } else {
        let now = if frames_camera(centered, points[0]) {
            1nat
        } else {
            0nat
        };
        now + framing_count(centered || points[0] > 0, points.drop_first())
    }
}

/// The camera frames the live cloud at most once, and does so exactly when
/// some datagram brings points before any cloud was framed.
pub proof fn lemma_frames_once(centered: bool, points: Seq<usize>)
    ensures
        framing_count(centered, points) <= 1,
        framing_count(centered, points) == 1 <==> (!centered && exists|i: int|
            0 <= i < points.len() && #[trigger] points[i] > 0),
    decreases points.len(),
{
    if points.len() > 0 {
        lemma_frames_once(centered || points[0] > 0, points.drop_first());
        if centered || points[0] > 0 {
            lemma_no_framing_after(true, points.drop_first());
        }
        if !centered && points[0] == 0 {
            assert forall|i: int| 0 <= i < points.len() && #[trigger] points[i] > 0 implies exists|
                k: int,
            | 0 <= k < points.drop_first().len() && #[trigger] points.drop_first()[k] > 0 by {
                assert(points.drop_first()[i - 1] == points[i]);
            }
            assert forall|k: int| 0 <= k < points.drop_first().len() && #[trigger] points.drop_first()[k] > 0 implies exists|
                i: int,
            | 0 <= i < points.len() && #[trigger] points[i] > 0 by {
                assert(points[k + 1] == points.drop_first()[k]);
            }
        }
    }
}

proof fn lemma_no_framing_after(centered: bool, points: Seq<usize>)
    requires
        centered,
    ensures
        framing_count(centered, points) == 0,
    decreases points.len(),
{
    if points.len() > 0 {
        lemma_no_framing_after(centered, points.drop_first());
    }
}

} // verus!
