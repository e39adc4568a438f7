use flag_detection::detector::FlagDetector;
use flag_detection::models::{
    EyeCoreData, FlagType, FocusMetrics, InputMetrics, KeystrokeDynamics, MouseDynamics,
    NetworkActivityMetadata, ScreenInteractions, Severity, SystemMetrics, VoiceData, CameraData,
    NetworkMetrics, ProcessData,
};
use flag_detection::models::severity_le;
use flag_detection::models::MetricValue;

fn base_snapshot() -> EyeCoreData {
    EyeCoreData {
        session_id: String::from("session-1"),
        timestamp_micros: 1_700_000_000_000_000,
        system_metrics: SystemMetrics {
            timestamp_micros: 0,
            cpu_usage: 10_000,
            memory_usage: 50_000,
            disk_usage: 40_000,
        },
        process_data: ProcessData {
            timestamp_micros: 0,
            active_process: String::from("editor"),
            active_window_title: String::from("notes"),
            process_count: 42,
        },
        input_metrics: InputMetrics {
            timestamp_micros: 0,
            mouse_clicks: 3,
            keyboard_events: 5,
            idle_duration_seconds: 10,
        },
        network_metrics: NetworkMetrics {
            timestamp_micros: 0,
            bytes_sent: 100,
            bytes_received: 200,
            active_connections: 4,
        },
        focus_metrics: FocusMetrics {
            timestamp_micros: 0,
            focus_level: 500,
            context_switches: 2,
            productive_app_time: 1000,
        },
        voice_data: None,
        camera_data: None,
        keystroke_dynamics: None,
        screen_interactions: None,
        file_metadata: None,
        system_events: None,
        mouse_dynamics: None,
        network_activity_metadata: None,
    }
}

#[test]
fn critical_cpu_scenario() {
    // cpu 97.0%, memory 50.0%, idle 10 s, 3 clicks, 5 key events,
    // focus 0.5, 2 context switches, all optional sub-records absent:
    // exactly one flag, a critical performance issue from the system
    // metrics at confidence 0.95.
    let detector = FlagDetector::new();
    let mut data = base_snapshot();
    data.system_metrics.cpu_usage = 97_000;
    let flags = detector.analyze_data(&data).unwrap();
    assert_eq!(flags.len(), 1);
    let f = &flags[0];
    assert_eq!(f.flag_type, FlagType::PerformanceIssue);
    assert_eq!(f.severity, Severity::Critical);
    assert_eq!(f.data_source, "system_metrics");
    assert_eq!(f.confidence, 950);
    assert_eq!(f.session_id, "session-1");
    assert_eq!(f.title, "High CPU Usage");
    assert_eq!(
        f.description,
        "CPU usage at 97.000% exceeds threshold of 90.000%"
    );
}

#[test]
fn cpu_severity_boundaries() {
    let detector = FlagDetector::new();
    let mut data = base_snapshot();

    data.system_metrics.cpu_usage = 90_000;
    assert_eq!(detector.analyze_data(&data).unwrap().len(), 0);

    data.system_metrics.cpu_usage = 93_000;
    let flags = detector.analyze_data(&data).unwrap();
    assert_eq!(flags.len(), 1);
    assert_eq!(flags[0].severity, Severity::High);

    data.system_metrics.cpu_usage = 95_000;
    let flags = detector.analyze_data(&data).unwrap();
    assert_eq!(flags.len(), 1);
    assert_eq!(flags[0].severity, Severity::High);

    data.system_metrics.cpu_usage = 95_001;
    let flags = detector.analyze_data(&data).unwrap();
    assert_eq!(flags.len(), 1);
    assert_eq!(flags[0].severity, Severity::Critical);
}

#[test]
fn no_input_fires_alone() {
    // 0 clicks, 0 key events, 5 s idle (under the idle threshold):
    // exactly one behavior anomaly and no idle productivity alert.
    let detector = FlagDetector::new();
    let mut data = base_snapshot();
    data.input_metrics.mouse_clicks = 0;
    data.input_metrics.keyboard_events = 0;
    data.input_metrics.idle_duration_seconds = 5;
    let flags = detector.analyze_data(&data).unwrap();
    assert_eq!(flags.len(), 1);
    assert_eq!(flags[0].flag_type, FlagType::BehaviorAnomaly);
    assert_eq!(flags[0].title, "No User Input Detected");
}

#[test]
fn idle_alert_without_no_input() {
    let detector = FlagDetector::new();
    let mut data = base_snapshot();
    data.input_metrics.idle_duration_seconds = 301;
    let flags = detector.analyze_data(&data).unwrap();
    assert_eq!(flags.len(), 1);
    assert_eq!(flags[0].flag_type, FlagType::ProductivityAlert);
    assert_eq!(flags[0].title, "Prolonged Idle Time");
    assert_eq!(flags[0].description, "User idle for 301 seconds (>300 seconds)");
}

#[test]
fn absent_optionals_quiet_snapshot() {
    // Every optional sub-record absent, nothing over a threshold:
    // analysis succeeds and raises nothing.
    let detector = FlagDetector::new();
    let data = base_snapshot();
    let flags = detector.analyze_data(&data).expect("analysis never fails");
    assert!(flags.is_empty());
}

#[test]
fn every_rule_fires_in_order() {
    let detector = FlagDetector::new();
    let mut data = base_snapshot();
    data.system_metrics.cpu_usage = 96_000;
    data.system_metrics.memory_usage = 99_000;
    data.input_metrics.idle_duration_seconds = 400;
    data.focus_metrics.focus_level = 100;
    data.focus_metrics.context_switches = 60;
    data.keystroke_dynamics = Some(KeystrokeDynamics {
        timestamp_micros: 0,
        typing_speed_wpm: 52_000,
        avg_key_hold_time_ms: 80_000,
        avg_key_interval_ms: 120_000,
        key_press_variance: 3_000,
        error_correction_rate: 200,
        stress_indicator: 800,
        fatigue_indicator: 900,
        total_keystrokes: 1234,
        enabled: true,
    });
    data.mouse_dynamics = Some(MouseDynamics {
        timestamp_micros: 0,
        movement_speed_avg: 1_000,
        movement_speed_variance: 2_000,
        path_smoothness: 200,
        click_pattern_regularity: 500,
        hesitation_count: 20,
        acceleration_avg: 300,
        fatigue_indicator: 900,
        focus_indicator: 400,
        total_distance_px: 10_000,
    });
    data.voice_data = Some(VoiceData {
        timestamp_micros: 0,
        vocal_tone_score: 100,
        sentiment_score: -700,
        emotion_detected: String::from("stressed"),
        speaking_duration_ms: 1000,
        silence_duration_ms: 2000,
        volume_level: 500,
        enabled: true,
    });
    data.camera_data = Some(CameraData {
        timestamp_micros: 0,
        facial_emotions: vec![String::from("neutral")],
        dominant_emotion: String::from("neutral"),
        emotion_confidence: 800,
        gaze_direction: String::from("away"),
        face_detected: true,
        posture_score: 300,
        enabled: true,
    });
    data.network_activity_metadata = Some(NetworkActivityMetadata {
        timestamp_micros: 0,
        bytes_sent: 1,
        bytes_received: 2,
        active_connections: 3,
        traffic_type: String::from("bulk"),
        activity_context: String::from("sync"),
        bandwidth_usage_mbps: 600_000,
        latency_avg_ms: 20_000,
        packet_loss_rate: 100,
        connection_stability: 900,
    });
    data.screen_interactions = Some(ScreenInteractions {
        timestamp_micros: 0,
        click_count: 10,
        double_click_count: 1,
        right_click_count: 2,
        scroll_events: 3,
        ui_element_types: vec![String::from("button")],
        interaction_speed: 700,
        workflow_friction_score: 800,
        mouse_travel_distance_px: 999,
        screen_region_heatmap: vec![(1, 2, 3)],
    });
    let flags = detector.analyze_data(&data).unwrap();
    let titles: Vec<&str> = flags.iter().map(|f| f.title.as_str()).collect();
    assert_eq!(
        titles,
        vec![
            "High CPU Usage",
            "High Memory Usage",
            "Prolonged Idle Time",
            "Low Focus Level",
            "Excessive Context Switching",
            "High Stress Detected",
            "Fatigue Detected",
            "High Typing Error Rate",
            "Mouse Movement Fatigue",
            "Erratic Mouse Movement",
            "Negative Emotional State",
            "Stress Detected in Voice",
            "Poor Posture Detected",
            "User Not Looking at Screen",
            "High Bandwidth Usage",
            "High Network Packet Loss",
            "High Workflow Friction",
        ]
    );
    // percentage renderings go through the fixed-point text
    let err_rate = flags.iter().find(|f| f.title == "High Typing Error Rate").unwrap();
    assert_eq!(
        err_rate.description,
        "Error correction rate at 20.000% suggests possible fatigue or distraction"
    );
}

#[test]
fn every_threshold_rule_audits_its_threshold() {
    let detector = FlagDetector::new();
    let mut data = base_snapshot();
    data.system_metrics.cpu_usage = 96_000;
    data.system_metrics.memory_usage = 99_000;
    data.input_metrics.idle_duration_seconds = 400;
    data.focus_metrics.focus_level = 100;
    data.focus_metrics.context_switches = 60;
    data.keystroke_dynamics = Some(KeystrokeDynamics {
        timestamp_micros: 0,
        typing_speed_wpm: 52_000,
        avg_key_hold_time_ms: 80_000,
        avg_key_interval_ms: 120_000,
        key_press_variance: 3_000,
        error_correction_rate: 200,
        stress_indicator: 800,
        fatigue_indicator: 900,
        total_keystrokes: 1234,
        enabled: true,
    });
    data.mouse_dynamics = Some(MouseDynamics {
        timestamp_micros: 0,
        movement_speed_avg: 1_000,
        movement_speed_variance: 2_000,
        path_smoothness: 200,
        click_pattern_regularity: 500,
        hesitation_count: 20,
        acceleration_avg: 300,
        fatigue_indicator: 900,
        focus_indicator: 400,
        total_distance_px: 10_000,
    });
    data.voice_data = Some(VoiceData {
        timestamp_micros: 0,
        vocal_tone_score: 100,
        sentiment_score: -700,
        emotion_detected: String::from("stressed"),
        speaking_duration_ms: 1000,
        silence_duration_ms: 2000,
        volume_level: 500,
        enabled: true,
    });
    data.camera_data = Some(CameraData {
        timestamp_micros: 0,
        facial_emotions: vec![String::from("neutral")],
        dominant_emotion: String::from("neutral"),
        emotion_confidence: 800,
        gaze_direction: String::from("away"),
        face_detected: true,
        posture_score: 300,
        enabled: true,
    });
    data.network_activity_metadata = Some(NetworkActivityMetadata {
        timestamp_micros: 0,
        bytes_sent: 1,
        bytes_received: 2,
        active_connections: 3,
        traffic_type: String::from("bulk"),
        activity_context: String::from("sync"),
        bandwidth_usage_mbps: 600_000,
        latency_avg_ms: 20_000,
        packet_loss_rate: 100,
        connection_stability: 900,
    });
    data.screen_interactions = Some(ScreenInteractions {
        timestamp_micros: 0,
        click_count: 10,
        double_click_count: 1,
        right_click_count: 2,
        scroll_events: 3,
        ui_element_types: vec![String::from("button")],
        interaction_speed: 700,
        workflow_friction_score: 800,
        mouse_travel_distance_px: 999,
        screen_region_heatmap: vec![(1, 2, 3)],
    });
    let flags = detector.analyze_data(&data).unwrap();
    assert_eq!(flags.len(), 17);
    let threshold_of = |title: &str| -> Option<MetricValue> {
        let f = flags.iter().find(|f| f.title == title).unwrap();
        f.metrics
            .iter()
            .find(|(k, _)| k == "threshold")
            .map(|(_, v)| v.clone())
    };
    // the two pattern rules have no numeric threshold; every other rule
    // must audit the bound it compared against
    for f in &flags {
        let has_threshold = f.metrics.iter().any(|(k, _)| k == "threshold");
        if f.title == "Stress Detected in Voice" || f.title == "User Not Looking at Screen" {
            assert!(!has_threshold, "{}", f.title);
        } else {
            assert!(has_threshold, "{}", f.title);
        }
    }
    assert_eq!(threshold_of("High CPU Usage"), Some(MetricValue::Fixed(90_000)));
    assert_eq!(threshold_of("High Memory Usage"), Some(MetricValue::Fixed(85_000)));
    assert_eq!(threshold_of("Prolonged Idle Time"), Some(MetricValue::Count(300)));
    assert_eq!(threshold_of("Low Focus Level"), Some(MetricValue::Fixed(300)));
    assert_eq!(threshold_of("Excessive Context Switching"), Some(MetricValue::Count(50)));
    assert_eq!(threshold_of("High Stress Detected"), Some(MetricValue::Fixed(700)));
    assert_eq!(threshold_of("Fatigue Detected"), Some(MetricValue::Fixed(800)));
    assert_eq!(threshold_of("High Typing Error Rate"), Some(MetricValue::Fixed(150)));
    assert_eq!(threshold_of("Mouse Movement Fatigue"), Some(MetricValue::Fixed(800)));
    assert_eq!(threshold_of("Erratic Mouse Movement"), Some(MetricValue::Fixed(300)));
    assert_eq!(threshold_of("Negative Emotional State"), Some(MetricValue::Fixed(-500)));
    assert_eq!(threshold_of("Poor Posture Detected"), Some(MetricValue::Fixed(400)));
    assert_eq!(threshold_of("High Bandwidth Usage"), Some(MetricValue::Fixed(500_000)));
    assert_eq!(threshold_of("High Network Packet Loss"), Some(MetricValue::Fixed(50)));
    assert_eq!(threshold_of("High Workflow Friction"), Some(MetricValue::Fixed(700)));
    // the compound mouse rule audits both of its bounds
    let erratic = flags.iter().find(|f| f.title == "Erratic Mouse Movement").unwrap();
    assert!(erratic
        .metrics
        .iter()
        .any(|(k, v)| k == "hesitation_threshold" && *v == MetricValue::Count(15)));
}

#[test]
fn emotion_frustrated_fires() {
    let detector = FlagDetector::new();
    let mut data = base_snapshot();
    data.voice_data = Some(VoiceData {
        timestamp_micros: 0,
        vocal_tone_score: 100,
        sentiment_score: 0,
        emotion_detected: String::from("frustrated"),
        speaking_duration_ms: 1000,
        silence_duration_ms: 2000,
        volume_level: 500,
        enabled: true,
    });
    let flags = detector.analyze_data(&data).unwrap();
    assert_eq!(flags.len(), 1);
    assert_eq!(flags[0].title, "Stress Detected in Voice");
    assert_eq!(flags[0].description, "Voice analysis detected emotion: frustrated");
}

#[test]
fn custom_thresholds_override_defaults() {
    let detector = FlagDetector::with_thresholds(10_000, 85_000, 300, 300, 700, 800);
    let mut data = base_snapshot();
    data.system_metrics.cpu_usage = 20_000;
    let flags = detector.analyze_data(&data).unwrap();
    assert_eq!(flags.len(), 1);
    assert_eq!(flags[0].title, "High CPU Usage");
    assert_eq!(flags[0].severity, Severity::High);
}

#[test]
fn reanalysis_appends_fresh_flags() {
    // Re-delivering an identical snapshot re-runs detection with no
    // suppression: the same findings come back under fresh identifiers.
    let detector = FlagDetector::new();
    let mut data = base_snapshot();
    data.system_metrics.cpu_usage = 97_000;
    let first = detector.analyze_data(&data).unwrap();
    let second = detector.analyze_data(&data).unwrap();
    assert_eq!(first.len(), 1);
    assert_eq!(second.len(), 1);
    assert_eq!(first[0].title, second[0].title);
    assert_eq!(first[0].description, second[0].description);
    assert_eq!(first[0].metrics, second[0].metrics);
    assert_ne!(first[0].id, second[0].id);
}

#[test]
fn fresh_ids_are_well_formed() {
    let detector = FlagDetector::new();
    let mut data = base_snapshot();
    data.system_metrics.cpu_usage = 97_000;
    let flags = detector.analyze_data(&data).unwrap();
    let id = &flags[0].id;
    assert_eq!(id.len(), 36);
    assert!(id.is_ascii());
}

#[test]
fn severity_total_order() {
    assert!(severity_le(Severity::Low, Severity::Medium));
    assert!(severity_le(Severity::Medium, Severity::High));
    assert!(severity_le(Severity::High, Severity::Critical));
    assert!(severity_le(Severity::Critical, Severity::Critical));
    assert!(!severity_le(Severity::Critical, Severity::High));
    assert!(!severity_le(Severity::Medium, Severity::Low));
}
