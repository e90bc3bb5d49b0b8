//! Verified core of a MEMS LiDAR point-cloud viewer: the wire format of the
//! scanner's datagrams, the lookup-table index, the distance statistics, the
//! command encoding, the log buffer and the viewer's interaction state.

mod modes;

pub use modes::{AppTab, ColoringMode, InteractionMode};
mod packet;

pub use packet::{decode_window, parse_packets, RawSample, HEADER_BYTE, PACKET_SIZE};
mod signal;

pub use signal::{
    bin_index, SignalStats, DISTANCE_RECORD_SIZE, HISTOGRAM_BIN_COUNT, WAVEFORM_CAPACITY,
};
mod lookup;

pub use lookup::{
    find_column, locate_columns, ColumnLayout, GroupIndex, TableError, COLUMN_H_ANGLE, COLUMN_V_ANGLE,
    COLUMN_V_U3, COLUMN_V_U4,
};
mod command;

pub use command::{encode_command, HexError, START_MEASUREMENT_COMMAND, STOP_MEASUREMENT_COMMAND};
mod logger;

pub use logger::{format_entry, init, EguiLogger, LogLevel, LOG_CAPACITY};
mod measure;

pub use measure::Measurement;
mod perf;
mod render_plan;

pub use perf::{PerfCounters, PerfWindow, PERF_WINDOW_NANOS};
pub use render_plan::{accepts_surface_size, plan_point_upload, UploadPlan};
mod session;

pub use session::{
    AppState, BatchAction, PointerAction, PointerEvent, DEFAULT_LISTEN_IP, DEFAULT_LISTEN_PORT,
    DEFAULT_TARGET_IP, DEFAULT_TARGET_PORT,
};
mod icon;

pub use icon::{decode_icon, IconRgba};
