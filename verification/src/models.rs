//! Data model: the snapshot record consumed by detection, and the flag
//! record produced by it.
//!
//! Every fractional measurement of the monitored agent (a percentage, a
//! unit-interval score, a rate) is held as a fixed-point integer counting
//! thousandths, so `97.5%` is the value `97500` and a focus level of `0.3`
//! is `300`. Timestamps are microseconds since the Unix epoch, except the
//! detection timestamp of a flag, which is kept as the formatted text
//! handed back by the clock.

use vstd::prelude::*;

verus! {

/// Urgency of a flag, totally ordered: Low < Medium < High < Critical.
#[derive(Debug, Clone, Copy, PartialEq, Eq, Structural)]
pub enum Severity {
    Low,
    Medium,
    High,
    Critical,
}

/// Position of a severity in the total order Low < Medium < High < Critical.
pub open spec fn severity_rank(s: Severity) -> int {
    match s {
        Severity::Low => 0,
        Severity::Medium => 1,
        Severity::High => 2,
        Severity::Critical => 3,
    }
}

/// Decides `a <= b` in the severity order, so callers can aggregate a
/// "worst severity" without reading the enum layout.
pub fn severity_le(a: Severity, b: Severity) -> (r: bool)
    ensures
        r == (severity_rank(a) <= severity_rank(b)),
{
    let ra: u8 = match a {
        Severity::Low => 0,
        Severity::Medium => 1,
        Severity::High => 2,
        Severity::Critical => 3,
    };
    let rb: u8 = match b {
        Severity::Low => 0,
        Severity::Medium => 1,
        Severity::High => 2,
        Severity::Critical => 3,
    };
    ra <= rb
}

/// Category of a detected anomaly; a closed set.
#[derive(Debug, Clone, Copy, PartialEq, Eq, Structural)]
pub enum FlagType {
    SystemAnomaly,
    BehaviorAnomaly,
    PerformanceIssue,
    SecurityConcern,
    HealthConcern,
    ProductivityAlert,
}

/// One value of a flag's metrics payload.
///
/// `Fixed` is a fixed-point number in thousandths (rendered with three
/// decimals), `Count` a plain non-negative integer, the others literal
/// text and truth values.
#[derive(Debug, Clone, PartialEq)]
pub enum MetricValue {
    Fixed(i64),
    Count(u64),
    Text(String),
    Truth(bool),
}

/// Mathematical shape of a `MetricValue`.
pub ghost enum MetricValueView {
    Fixed(int),
    Count(int),
    Text(Seq<char>),
    Truth(bool),
}

impl View for MetricValue {
    type V = MetricValueView;

    open spec fn view(&self) -> MetricValueView {
        match self {
            MetricValue::Fixed(v) => MetricValueView::Fixed(*v as int),
            MetricValue::Count(v) => MetricValueView::Count(*v as int),
            MetricValue::Text(s) => MetricValueView::Text(s@),
            MetricValue::Truth(b) => MetricValueView::Truth(*b),
        }
    }
}

/// Mathematical shape of a metrics payload: keys in insertion order.
pub open spec fn metrics_view(m: Seq<(String, MetricValue)>) -> Seq<(Seq<char>, MetricValueView)> {
    m.map_values(|p: (String, MetricValue)| (p.0@, p.1@))
}

/// One persisted anomaly finding.
///
/// Immutable once constructed; `timestamp` is the detection time (not the
/// snapshot's capture time), kept as the RFC 3339 text the clock produced.
/// `confidence` counts thousandths and lies in `0 ..= 1000`.
#[derive(Debug, Clone, PartialEq)]
pub struct Flag {
    pub id: String,
    pub timestamp: String,
    pub session_id: String,
    pub flag_type: FlagType,
    pub severity: Severity,
    pub title: String,
    pub description: String,
    pub data_source: String,
    pub metrics: Vec<(String, MetricValue)>,
    pub confidence: u32,
}

/// Mathematical shape of a `Flag`.
pub ghost struct FlagView {
    pub id: Seq<char>,
    pub timestamp: Seq<char>,
    pub session_id: Seq<char>,
    pub flag_type: FlagType,
    pub severity: Severity,
    pub title: Seq<char>,
    pub description: Seq<char>,
    pub data_source: Seq<char>,
    pub metrics: Seq<(Seq<char>, MetricValueView)>,
    pub confidence: int,
}

impl View for Flag {
    type V = FlagView;

    open spec fn view(&self) -> FlagView {
        FlagView {
            id: self.id@,
            timestamp: self.timestamp@,
            session_id: self.session_id@,
            flag_type: self.flag_type,
            severity: self.severity,
            title: self.title@,
            description: self.description@,
            data_source: self.data_source@,
            metrics: metrics_view(self.metrics@),
            confidence: self.confidence as int,
        }
    }
}

/// What one rule match determines about a flag: everything but the fresh
/// identifier, the detection time and the session.
pub ghost struct FindingView {
    pub flag_type: FlagType,
    pub severity: Severity,
    pub title: Seq<char>,
    pub description: Seq<char>,
    pub data_source: Seq<char>,
    pub metrics: Seq<(Seq<char>, MetricValueView)>,
    pub confidence: int,
}

impl FlagView {
    /// The rule-determined part of this flag.
    pub open spec fn finding(self) -> FindingView {
        FindingView {
            flag_type: self.flag_type,
            severity: self.severity,
            title: self.title,
            description: self.description,
            data_source: self.data_source,
            metrics: self.metrics,
            confidence: self.confidence,
        }
    }
}

/// A flag fit to persist: its confidence lies in `0 ..= 1000` thousandths
/// and its identifier is ASCII text of at least eight characters, so an
/// artifact name can take its prefix.
pub open spec fn flag_wf(f: FlagView) -> bool {
    &&& 0 <= f.confidence <= 1000
    &&& f.id.len() >= 8
    &&& vstd::utf8::is_ascii_chars(f.id)
}

/// CPU, memory and disk usage, each a percentage in thousandths.
#[derive(Debug, Clone, PartialEq)]
pub struct SystemMetrics {
    pub timestamp_micros: i64,
    pub cpu_usage: i64,
    pub memory_usage: i64,
    pub disk_usage: i64,
}

/// Foreground process and window identity.
#[derive(Debug, Clone, PartialEq)]
pub struct ProcessData {
    pub timestamp_micros: i64,
    pub active_process: String,
    pub active_window_title: String,
    pub process_count: u64,
}

/// Input activity counts and idle duration.
#[derive(Debug, Clone, PartialEq)]
pub struct InputMetrics {
    pub timestamp_micros: i64,
    pub mouse_clicks: u32,
    pub keyboard_events: u32,
    pub idle_duration_seconds: u32,
}

/// Byte and connection counts of the basic network probe.
#[derive(Debug, Clone, PartialEq)]
pub struct NetworkMetrics {
    pub timestamp_micros: i64,
    pub bytes_sent: u64,
    pub bytes_received: u64,
    pub active_connections: u64,
}

/// Focus level (unit interval, thousandths) and context-switch count.
#[derive(Debug, Clone, PartialEq)]
pub struct FocusMetrics {
    pub timestamp_micros: i64,
    pub focus_level: i64,
    pub context_switches: u32,
    pub productive_app_time: u32,
}

/// Voice sentiment and emotion; collected only with consent (`enabled`).
#[derive(Debug, Clone, PartialEq)]
pub struct VoiceData {
    pub timestamp_micros: i64,
    pub vocal_tone_score: i64,
    pub sentiment_score: i64,
    pub emotion_detected: String,
    pub speaking_duration_ms: u64,
    pub silence_duration_ms: u64,
    pub volume_level: i64,
    pub enabled: bool,
}

/// Camera posture and gaze; collected only with consent (`enabled`).
#[derive(Debug, Clone, PartialEq)]
pub struct CameraData {
    pub timestamp_micros: i64,
    pub facial_emotions: Vec<String>,
    pub dominant_emotion: String,
    pub emotion_confidence: i64,
    pub gaze_direction: String,
    pub face_detected: bool,
    pub posture_score: i64,
    pub enabled: bool,
}

/// Keystroke timing, stress and fatigue; collected only with consent.
#[derive(Debug, Clone, PartialEq)]
pub struct KeystrokeDynamics {
    pub timestamp_micros: i64,
    pub typing_speed_wpm: i64,
    pub avg_key_hold_time_ms: i64,
    pub avg_key_interval_ms: i64,
    pub key_press_variance: i64,
    pub error_correction_rate: i64,
    pub stress_indicator: i64,
    pub fatigue_indicator: i64,
    pub total_keystrokes: u32,
    pub enabled: bool,
}

/// Screen and UI interaction friction.
#[derive(Debug, Clone, PartialEq)]
pub struct ScreenInteractions {
    pub timestamp_micros: i64,
    pub click_count: u32,
    pub double_click_count: u32,
    pub right_click_count: u32,
    pub scroll_events: u32,
    pub ui_element_types: Vec<String>,
    pub interaction_speed: i64,
    pub workflow_friction_score: i64,
    pub mouse_travel_distance_px: u64,
    pub screen_region_heatmap: Vec<(u32, u32, u32)>,
}

/// File-access metadata; collected only with consent (`enabled`).
#[derive(Debug, Clone, PartialEq)]
pub struct FileMetadata {
    pub timestamp_micros: i64,
    pub file_types_accessed: Vec<String>,
    pub file_sizes_bytes: Vec<u64>,
    pub modification_events: u32,
    pub file_open_events: u32,
    pub file_close_events: u32,
    pub work_type_inferred: String,
    pub project_switch_count: u32,
    pub avg_file_size_bytes: u64,
    pub enabled: bool,
}

/// Power and session events of the operating system.
#[derive(Debug, Clone, PartialEq)]
pub struct SystemEvents {
    pub timestamp_micros: i64,
    pub event_type: String,
    pub event_subtype: String,
    pub session_start_micros: Option<i64>,
    pub session_end_micros: Option<i64>,
    pub break_duration_seconds: u64,
    pub active_session_duration_seconds: u64,
    pub daily_rhythm_score: i64,
}

/// Mouse movement dynamics.
#[derive(Debug, Clone, PartialEq)]
pub struct MouseDynamics {
    pub timestamp_micros: i64,
    pub movement_speed_avg: i64,
    pub movement_speed_variance: i64,
    pub path_smoothness: i64,
    pub click_pattern_regularity: i64,
    pub hesitation_count: u32,
    pub acceleration_avg: i64,
    pub fatigue_indicator: i64,
    pub focus_indicator: i64,
    pub total_distance_px: u64,
}

/// Enriched network activity.
#[derive(Debug, Clone, PartialEq)]
pub struct NetworkActivityMetadata {
    pub timestamp_micros: i64,
    pub bytes_sent: u64,
    pub bytes_received: u64,
    pub active_connections: u64,
    pub traffic_type: String,
    pub activity_context: String,
    pub bandwidth_usage_mbps: i64,
    pub latency_avg_ms: i64,
    pub packet_loss_rate: i64,
    pub connection_stability: i64,
}

/// One parsed telemetry snapshot: five mandatory sub-records and eight
/// optional ones, where absence means "not collected", never "zero".
/// Never mutated after parsing; consumed exactly once by detection.
#[derive(Debug, Clone, PartialEq)]
pub struct EyeCoreData {
    pub session_id: String,
    pub timestamp_micros: i64,
    pub system_metrics: SystemMetrics,
    pub process_data: ProcessData,
    pub input_metrics: InputMetrics,
    pub network_metrics: NetworkMetrics,
    pub focus_metrics: FocusMetrics,
    pub voice_data: Option<VoiceData>,
    pub camera_data: Option<CameraData>,
    pub keystroke_dynamics: Option<KeystrokeDynamics>,
    pub screen_interactions: Option<ScreenInteractions>,
    pub file_metadata: Option<FileMetadata>,
    pub system_events: Option<SystemEvents>,
    pub mouse_dynamics: Option<MouseDynamics>,
    pub network_activity_metadata: Option<NetworkActivityMetadata>,
}

} // verus!
