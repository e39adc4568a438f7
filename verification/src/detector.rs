//! The detection engine: a pure, stateless rule evaluator that turns one
//! telemetry snapshot into zero or more flags. Each rule is written down
//! as a spec function; the executable checkers are proved to produce
//! exactly the findings those rules describe, stamped with a fresh
//! identifier and the detection time.

use vstd::prelude::*;
use crate::codec::{chars_to_string, str_equal};
use crate::models::{
    metrics_view, CameraData, EyeCoreData, Flag, FlagType, FlagView, FindingView, FocusMetrics,
    InputMetrics, KeystrokeDynamics, MetricValue, MetricValueView, MouseDynamics,
    NetworkActivityMetadata, ScreenInteractions, Severity, SystemMetrics, VoiceData, flag_wf,
};
use crate::numtext::{dec_chars, milli_chars, push_dec_chars, push_milli_chars};
use crate::codec::push_lit;
use vstd::string::StringExecFns;

verus! {

/// The stateless rule engine and its six thresholds. Fractional
/// thresholds count thousandths; the idle threshold counts seconds.
pub struct FlagDetector {
    pub cpu_threshold: i64,
    pub memory_threshold: i64,
    pub idle_threshold: u32,
    pub focus_threshold: i64,
    pub stress_threshold: i64,
    pub fatigue_threshold: i64,
}

impl FlagDetector {
    /// The documented default thresholds: CPU 90%, memory 85%, idle
    /// 300 s, focus 0.3, stress 0.7, fatigue 0.8.
    pub fn new() -> (r: FlagDetector)
        ensures
            r.cpu_threshold == 90_000,
            r.memory_threshold == 85_000,
            r.idle_threshold == 300,
            r.focus_threshold == 300,
            r.stress_threshold == 700,
            r.fatigue_threshold == 800,
    {
        FlagDetector {
            cpu_threshold: 90_000,
            memory_threshold: 85_000,
            idle_threshold: 300,
            focus_threshold: 300,
            stress_threshold: 700,
            fatigue_threshold: 800,
        }
    }

    /// A detector with every threshold overridden at construction.
    pub fn with_thresholds(
        cpu_threshold: i64,
        memory_threshold: i64,
        idle_threshold: u32,
        focus_threshold: i64,
        stress_threshold: i64,
        fatigue_threshold: i64,
    ) -> (r: FlagDetector)
        ensures
            r.cpu_threshold == cpu_threshold,
            r.memory_threshold == memory_threshold,
            r.idle_threshold == idle_threshold,
            r.focus_threshold == focus_threshold,
            r.stress_threshold == stress_threshold,
            r.fatigue_threshold == fatigue_threshold,
    {
        FlagDetector {
            cpu_threshold,
            memory_threshold,
            idle_threshold,
            focus_threshold,
            stress_threshold,
            fatigue_threshold,
        }
    }
}

/// Relies on `uuid::Uuid::new_v4` and its `Display` form: a fresh
/// version-4 identifier printed hyphenated, 36 ASCII characters
/// (lowercase hexadecimal digits and hyphens). Nothing is promised of
/// which identifier comes back.
#[verifier::external_body]
fn fresh_flag_id() -> (r: String)
    ensures
        r@.len() == 36,
        vstd::utf8::is_ascii_chars(r@),
{
    uuid::Uuid::new_v4().to_string()
}

/// Relies on `chrono::Utc::now` and `DateTime::to_rfc3339` for the
/// detection timestamp. Nothing is promised of the clock's value.
#[verifier::external_body]
fn now_rfc3339() -> (r: String) {
    chrono::Utc::now().to_rfc3339()
}

/// Text around one fixed-point value.
fn text_m(a: &str, v: i64, b: &str) -> (r: String)
    ensures
        r@ == a@ + milli_chars(v as int) + b@,
{
    let mut out: Vec<char> = Vec::new();
    push_lit(&mut out, a);
    push_milli_chars(&mut out, v);
    push_lit(&mut out, b);
    proof {
        assert(out@ =~= a@ + milli_chars(v as int) + b@);
    }
    chars_to_string(&out)
}

/// Text around two fixed-point values.
fn text_mm(a: &str, v: i64, b: &str, w: i64, c: &str) -> (r: String)
    ensures
        r@ == a@ + milli_chars(v as int) + b@ + milli_chars(w as int) + c@,
{
    let mut out: Vec<char> = Vec::new();
    push_lit(&mut out, a);
    push_milli_chars(&mut out, v);
    push_lit(&mut out, b);
    push_milli_chars(&mut out, w);
    push_lit(&mut out, c);
    proof {
        assert(out@ =~= a@ + milli_chars(v as int) + b@ + milli_chars(w as int) + c@);
    }
    chars_to_string(&out)
}

/// Text around one count.
fn text_c(a: &str, n: u64, b: &str) -> (r: String)
    ensures
        r@ == a@ + dec_chars(n as nat) + b@,
{
    let mut out: Vec<char> = Vec::new();
    push_lit(&mut out, a);
    push_dec_chars(&mut out, n);
    push_lit(&mut out, b);
    proof {
        assert(out@ =~= a@ + dec_chars(n as nat) + b@);
    }
    chars_to_string(&out)
}

/// Text around two counts.
fn text_cc(a: &str, n: u64, b: &str, m: u64, c: &str) -> (r: String)
    ensures
        r@ == a@ + dec_chars(n as nat) + b@ + dec_chars(m as nat) + c@,
{
    let mut out: Vec<char> = Vec::new();
    push_lit(&mut out, a);
    push_dec_chars(&mut out, n);
    push_lit(&mut out, b);
    push_dec_chars(&mut out, m);
    push_lit(&mut out, c);
    proof {
        assert(out@ =~= a@ + dec_chars(n as nat) + b@ + dec_chars(m as nat) + c@);
    }
    chars_to_string(&out)
}

/// Two literals joined.
fn text_t(a: &str, b: &str) -> (r: String)
    ensures
        r@ == a@ + b@,
{
    let mut out: Vec<char> = Vec::new();
    push_lit(&mut out, a);
    push_lit(&mut out, b);
    proof {
        assert(out@ =~= a@ + b@);
    }
    chars_to_string(&out)
}

/// One metrics entry holding a fixed-point value.
fn kv_fixed(k: &str, v: i64) -> (r: (String, MetricValue))
    ensures
        r.0@ == k@,
        r.1@ == MetricValueView::Fixed(v as int),
{
    (String::from_str(k), MetricValue::Fixed(v))
}

/// One metrics entry holding a count.
fn kv_count(k: &str, n: u64) -> (r: (String, MetricValue))
    ensures
        r.0@ == k@,
        r.1@ == MetricValueView::Count(n as int),
{
    (String::from_str(k), MetricValue::Count(n))
}

/// One metrics entry holding text.
fn kv_text(k: &str, t: &str) -> (r: (String, MetricValue))
    ensures
        r.0@ == k@,
        r.1@ == MetricValueView::Text(t@),
{
    (String::from_str(k), MetricValue::Text(String::from_str(t)))
}

/// The flag carries this finding for this session, stamped with a fresh
/// 36-character identifier and fit to persist.
pub open spec fn stamped(f: FlagView, fv: FindingView, sid: Seq<char>) -> bool {
    &&& f.finding() == fv
    &&& f.session_id == sid
    &&& f.id.len() == 36
    &&& flag_wf(f)
}

/// The flags carry exactly these findings for this session, in order.
pub open spec fn findings_match(flags: Seq<Flag>, fvs: Seq<FindingView>, sid: Seq<char>) -> bool {
    &&& flags.len() == fvs.len()
    &&& forall|i: int| 0 <= i < flags.len() ==> stamped((#[trigger] flags[i])@, fvs[i], sid)
}

/// Matching is preserved by concatenation.
pub proof fn lemma_findings_match_concat(
    a: Seq<Flag>,
    af: Seq<FindingView>,
    b: Seq<Flag>,
    bf: Seq<FindingView>,
    sid: Seq<char>,
)
    requires
        findings_match(a, af, sid),
        findings_match(b, bf, sid),
    ensures
        findings_match(a + b, af + bf, sid),
{
    assert(forall|i: int| 0 <= i < a.len() ==> (a + b)[i] == a[i] && (af + bf)[i] == af[i]);
    assert(forall|i: int| a.len() <= i < a.len() + b.len() ==> (a + b)[i] == b[i - a.len()] && (
    af + bf)[i] == bf[i - a.len()]);
}

/// A finding as one flag, stamped with a fresh identifier and the
/// detection time, appended to the batch.
fn push_rule_flag(
    flags: &mut Vec<Flag>,
    session_id: &str,
    flag_type: FlagType,
    severity: Severity,
    title: &str,
    description: String,
    data_source: &str,
    metrics: Vec<(String, MetricValue)>,
    confidence: u32,
)
    requires
        confidence <= 1000,
    ensures
        final(flags)@.len() == old(flags)@.len() + 1,
        final(flags)@.take(old(flags)@.len() as int) == old(flags)@,
        stamped(
            final(flags)@.last()@,
            FindingView {
                flag_type: flag_type,
                severity: severity,
                title: title@,
                description: description@,
                data_source: data_source@,
                metrics: metrics_view(metrics@),
                confidence: confidence as int,
            },
            session_id@,
        ),
{
    let f = Flag {
        id: fresh_flag_id(),
        timestamp: now_rfc3339(),
        session_id: String::from_str(session_id),
        flag_type: flag_type,
        severity: severity,
        title: String::from_str(title),
        description: description,
        data_source: String::from_str(data_source),
        metrics: metrics,
        confidence: confidence,
    };
    flags.push(f);
    proof {
        assert(final(flags)@.take(old(flags)@.len() as int) =~= old(flags)@);
    }
}

/// The findings of an optional rule: one when it fired, none otherwise.
pub open spec fn opt_seq(o: Option<FindingView>) -> Seq<FindingView> {
    match o {
        Some(f) => seq![f],
        None => Seq::empty(),
    }
}

/// CPU rule: usage above the threshold raises a performance issue,
/// critical above 95%.
pub open spec fn cpu_finding(cfg: FlagDetector, m: SystemMetrics) -> Option<FindingView> {
    if m.cpu_usage > cfg.cpu_threshold {
        Some(
            FindingView {
                flag_type: FlagType::PerformanceIssue,
                severity: if m.cpu_usage > 95_000 {
                    Severity::Critical
                } else {
                    Severity::High
                },
                title: "High CPU Usage"@,
                description: "CPU usage at "@ + milli_chars(m.cpu_usage as int)
                    + "% exceeds threshold of "@ + milli_chars(cfg.cpu_threshold as int) + "%"@,
                data_source: "system_metrics"@,
                metrics: seq![
                    ("cpu_usage"@, MetricValueView::Fixed(m.cpu_usage as int)),
                    ("threshold"@, MetricValueView::Fixed(cfg.cpu_threshold as int)),
                ],
                confidence: 950,
            },
        )
    } else {
        None
    }
}

/// Memory rule: usage above the threshold raises a performance issue,
/// critical above 95%.
pub open spec fn memory_finding(cfg: FlagDetector, m: SystemMetrics) -> Option<FindingView> {
    if m.memory_usage > cfg.memory_threshold {
        Some(
            FindingView {
                flag_type: FlagType::PerformanceIssue,
                severity: if m.memory_usage > 95_000 {
                    Severity::Critical
                } else {
                    Severity::High
                },
                title: "High Memory Usage"@,
                description: "Memory usage at "@ + milli_chars(m.memory_usage as int)
                    + "% exceeds threshold of "@ + milli_chars(cfg.memory_threshold as int)
                    + "%"@,
                data_source: "system_metrics"@,
                metrics: seq![
                    ("memory_usage"@, MetricValueView::Fixed(m.memory_usage as int)),
                    ("threshold"@, MetricValueView::Fixed(cfg.memory_threshold as int)),
                ],
                confidence: 950,
            },
        )
    } else {
        None
    }
}

/// The findings of the system-resource rules, CPU first.
pub open spec fn spec_check_system(cfg: FlagDetector, m: SystemMetrics) -> Seq<FindingView> {
    opt_seq(cpu_finding(cfg, m)) + opt_seq(memory_finding(cfg, m))
}

/// Idle rule: idling longer than the threshold raises a productivity
/// alert.
pub open spec fn idle_finding(cfg: FlagDetector, m: InputMetrics) -> Option<FindingView> {
    if m.idle_duration_seconds > cfg.idle_threshold {
        Some(
            FindingView {
                flag_type: FlagType::ProductivityAlert,
                severity: Severity::Low,
                title: "Prolonged Idle Time"@,
                description: "User idle for "@ + dec_chars(m.idle_duration_seconds as nat)
                    + " seconds (>"@ + dec_chars(cfg.idle_threshold as nat) + " seconds)"@,
                data_source: "input_metrics"@,
                metrics: seq![
                    (
                        "idle_duration_seconds"@,
                        MetricValueView::Count(m.idle_duration_seconds as int),
                    ),
                    ("threshold"@, MetricValueView::Count(cfg.idle_threshold as int)),
                ],
                confidence: 850,
            },
        )
    } else {
        None
    }
}

/// No-input rule: no clicks and no key events within the first ten
/// seconds of activity raises a behavior anomaly.
pub open spec fn no_input_finding(m: InputMetrics) -> Option<FindingView> {
    if m.mouse_clicks == 0 && m.keyboard_events == 0 && m.idle_duration_seconds < 10 {
        Some(
            FindingView {
                flag_type: FlagType::BehaviorAnomaly,
                severity: Severity::Low,
                title: "No User Input Detected"@,
                description: "System active but no mouse/keyboard activity detected"@,
                data_source: "input_metrics"@,
                metrics: seq![
                    ("mouse_clicks"@, MetricValueView::Count(m.mouse_clicks as int)),
                    ("keyboard_events"@, MetricValueView::Count(m.keyboard_events as int)),
                    (
                        "idle_duration_seconds"@,
                        MetricValueView::Count(m.idle_duration_seconds as int),
                    ),
                ],
                confidence: 700,
            },
        )
    } else {
        None
    }
}

/// The findings of the input rules, idle first.
pub open spec fn spec_check_input(cfg: FlagDetector, m: InputMetrics) -> Seq<FindingView> {
    opt_seq(idle_finding(cfg, m)) + opt_seq(no_input_finding(m))
}

/// Low-focus rule: a focus level under the threshold raises a
/// productivity alert.
pub open spec fn low_focus_finding(cfg: FlagDetector, m: FocusMetrics) -> Option<FindingView> {
    if m.focus_level < cfg.focus_threshold {
        Some(
            FindingView {
                flag_type: FlagType::ProductivityAlert,
                severity: Severity::Medium,
                title: "Low Focus Level"@,
                description: "Focus level at "@ + milli_chars(m.focus_level as int)
                    + " is below threshold of "@ + milli_chars(cfg.focus_threshold as int),
                data_source: "focus_metrics"@,
                metrics: seq![
                    ("focus_level"@, MetricValueView::Fixed(m.focus_level as int)),
                    ("context_switches"@, MetricValueView::Count(m.context_switches as int)),
                    ("threshold"@, MetricValueView::Fixed(cfg.focus_threshold as int)),
                ],
                confidence: 800,
            },
        )
    } else {
        None
    }
}

/// Context-switch rule: more than fifty switches raise a productivity
/// alert.
pub open spec fn context_switch_finding(m: FocusMetrics) -> Option<FindingView> {
    if m.context_switches > 50 {
        Some(
            FindingView {
                flag_type: FlagType::ProductivityAlert,
                severity: Severity::Medium,
                title: "Excessive Context Switching"@,
                description: "Detected "@ + dec_chars(m.context_switches as nat)
                    + " context switches, indicating possible distraction"@,
                data_source: "focus_metrics"@,
                metrics: seq![
                    ("context_switches"@, MetricValueView::Count(m.context_switches as int)),
                    ("threshold"@, MetricValueView::Count(50)),
                ],
                confidence: 750,
            },
        )
    } else {
        None
    }
}

/// The findings of the focus rules, low focus first.
pub open spec fn spec_check_focus(cfg: FlagDetector, m: FocusMetrics) -> Seq<FindingView> {
    opt_seq(low_focus_finding(cfg, m)) + opt_seq(context_switch_finding(m))
}

impl FlagDetector {
    /// Evaluates the system-resource rules.
    pub fn check_system_metrics(&self, m: &SystemMetrics, session_id: &str) -> (r: Vec<Flag>)
        ensures
            findings_match(r@, spec_check_system(*self, *m), session_id@),
    {
        let mut flags: Vec<Flag> = Vec::new();
        if m.cpu_usage > self.cpu_threshold {
            let severity = if m.cpu_usage > 95_000 {
                Severity::Critical
            } else {
                Severity::High
            };
            let description = text_mm(
                "CPU usage at ",
                m.cpu_usage,
                "% exceeds threshold of ",
                self.cpu_threshold,
                "%",
            );
            let mut metrics: Vec<(String, MetricValue)> = Vec::new();
            metrics.push(kv_fixed("cpu_usage", m.cpu_usage));
            metrics.push(kv_fixed("threshold", self.cpu_threshold));
            proof {
                assert(metrics_view(metrics@) =~= cpu_finding(*self, *m)->0.metrics);
            }
            push_rule_flag(
                &mut flags,
                session_id,
                FlagType::PerformanceIssue,
                severity,
                "High CPU Usage",
                description,
                "system_metrics",
                metrics,
                950,
            );
            proof {
                assert(flags@ =~= Seq::<Flag>::empty().push(flags@.last()));
            }
        }
        let ghost first = flags@;
        let ghost first_f = opt_seq(cpu_finding(*self, *m));
        assert(findings_match(first, first_f, session_id@));
        if m.memory_usage > self.memory_threshold {
            let severity = if m.memory_usage > 95_000 {
                Severity::Critical
            } else {
                Severity::High
            };
            let description = text_mm(
                "Memory usage at ",
                m.memory_usage,
                "% exceeds threshold of ",
                self.memory_threshold,
                "%",
            );
            let mut metrics: Vec<(String, MetricValue)> = Vec::new();
            metrics.push(kv_fixed("memory_usage", m.memory_usage));
            metrics.push(kv_fixed("threshold", self.memory_threshold));
            proof {
                assert(metrics_view(metrics@) =~= memory_finding(*self, *m)->0.metrics);
            }
            push_rule_flag(
                &mut flags,
                session_id,
                FlagType::PerformanceIssue,
                severity,
                "High Memory Usage",
                description,
                "system_metrics",
                metrics,
                950,
            );
            proof {
                assert(flags@ =~= first.push(flags@.last()));
                assert(flags@ =~= first + seq![flags@.last()]);
            }
        }
        proof {
            assert(findings_match(flags@, spec_check_system(*self, *m), session_id@)) by {
                if memory_finding(*self, *m) is Some {
                    assert(spec_check_system(*self, *m) =~= first_f + seq![
                        memory_finding(*self, *m)->0,
                    ]);
                } else {
                    assert(spec_check_system(*self, *m) =~= first_f);
                }
            }
        }
        flags
    }

    /// Evaluates the input-activity rules.
    pub fn check_input_metrics(&self, m: &InputMetrics, session_id: &str) -> (r: Vec<Flag>)
        ensures
            findings_match(r@, spec_check_input(*self, *m), session_id@),
    {
        let mut flags: Vec<Flag> = Vec::new();
        if m.idle_duration_seconds > self.idle_threshold {
            let description = text_cc(
                "User idle for ",
                m.idle_duration_seconds as u64,
                " seconds (>",
                self.idle_threshold as u64,
                " seconds)",
            );
            let mut metrics: Vec<(String, MetricValue)> = Vec::new();
            metrics.push(kv_count("idle_duration_seconds", m.idle_duration_seconds as u64));
            metrics.push(kv_count("threshold", self.idle_threshold as u64));
            proof {
                assert(metrics_view(metrics@) =~= idle_finding(*self, *m)->0.metrics);
            }
            push_rule_flag(
                &mut flags,
                session_id,
                FlagType::ProductivityAlert,
                Severity::Low,
                "Prolonged Idle Time",
                description,
                "input_metrics",
                metrics,
                850,
            );
            proof {
                assert(flags@ =~= Seq::<Flag>::empty().push(flags@.last()));
            }
        }
        let ghost first = flags@;
        let ghost first_f = opt_seq(idle_finding(*self, *m));
        assert(findings_match(first, first_f, session_id@));
        if m.mouse_clicks == 0 && m.keyboard_events == 0 && m.idle_duration_seconds < 10 {
            let description = text_t(
                "System active but no mouse/keyboard activity detected",
                "",
            );
            let mut metrics: Vec<(String, MetricValue)> = Vec::new();
            metrics.push(kv_count("mouse_clicks", m.mouse_clicks as u64));
            metrics.push(kv_count("keyboard_events", m.keyboard_events as u64));
            metrics.push(kv_count("idle_duration_seconds", m.idle_duration_seconds as u64));
            proof {
                assert(metrics_view(metrics@) =~= no_input_finding(*m)->0.metrics);
                reveal_strlit("");
                assert("System active but no mouse/keyboard activity detected"@ + ""@
                    =~= "System active but no mouse/keyboard activity detected"@);
            }
            push_rule_flag(
                &mut flags,
                session_id,
                FlagType::BehaviorAnomaly,
                Severity::Low,
                "No User Input Detected",
                description,
                "input_metrics",
                metrics,
                700,
            );
            proof {
                assert(flags@ =~= first + seq![flags@.last()]);
            }
        }
        proof {
            assert(findings_match(flags@, spec_check_input(*self, *m), session_id@)) by {
                if no_input_finding(*m) is Some {
                    assert(spec_check_input(*self, *m) =~= first_f + seq![no_input_finding(*m)->0]);
                } else {
                    assert(spec_check_input(*self, *m) =~= first_f);
                }
            }
        }
        flags
    }

    /// Evaluates the focus rules.
    pub fn check_focus_metrics(&self, m: &FocusMetrics, session_id: &str) -> (r: Vec<Flag>)
        ensures
            findings_match(r@, spec_check_focus(*self, *m), session_id@),
    {
        let mut flags: Vec<Flag> = Vec::new();
        if m.focus_level < self.focus_threshold {
            let description = text_mm(
                "Focus level at ",
                m.focus_level,
                " is below threshold of ",
                self.focus_threshold,
                "",
            );
            let mut metrics: Vec<(String, MetricValue)> = Vec::new();
            metrics.push(kv_fixed("focus_level", m.focus_level));
            metrics.push(kv_count("context_switches", m.context_switches as u64));
            metrics.push(kv_fixed("threshold", self.focus_threshold));
            proof {
                assert(metrics_view(metrics@) =~= low_focus_finding(*self, *m)->0.metrics);
                reveal_strlit("");
                assert("Focus level at "@ + milli_chars(m.focus_level as int)
                    + " is below threshold of "@ + milli_chars(self.focus_threshold as int) + ""@
                    =~= low_focus_finding(*self, *m)->0.description);
            }
            push_rule_flag(
                &mut flags,
                session_id,
                FlagType::ProductivityAlert,
                Severity::Medium,
                "Low Focus Level",
                description,
                "focus_metrics",
                metrics,
                800,
            );
            proof {
                assert(flags@ =~= Seq::<Flag>::empty().push(flags@.last()));
            }
        }
        let ghost first = flags@;
        let ghost first_f = opt_seq(low_focus_finding(*self, *m));
        assert(findings_match(first, first_f, session_id@));
        if m.context_switches > 50 {
            let description = text_c(
                "Detected ",
                m.context_switches as u64,
                " context switches, indicating possible distraction",
            );
            let mut metrics: Vec<(String, MetricValue)> = Vec::new();
            metrics.push(kv_count("context_switches", m.context_switches as u64));
            metrics.push(kv_count("threshold", 50));
            proof {
                assert(metrics_view(metrics@) =~= context_switch_finding(*m)->0.metrics);
            }
            push_rule_flag(
                &mut flags,
                session_id,
                FlagType::ProductivityAlert,
                Severity::Medium,
                "Excessive Context Switching",
                description,
                "focus_metrics",
                metrics,
                750,
            );
            proof {
                assert(flags@ =~= first + seq![flags@.last()]);
            }
        }
        proof {
            assert(findings_match(flags@, spec_check_focus(*self, *m), session_id@)) by {
                if context_switch_finding(*m) is Some {
                    assert(spec_check_focus(*self, *m) =~= first_f + seq![
                        context_switch_finding(*m)->0,
                    ]);
                } else {
                    assert(spec_check_focus(*self, *m) =~= first_f);
                }
            }
        }
        flags
    }
}

/// A rate in thousandths as a percentage in thousandths, saturating at
/// the 64-bit bounds.
pub open spec fn times100_sat(v: i64) -> int {
    if v > 92_233_720_368_547_758 {
        0x7fff_ffff_ffff_ffff
    } else if v < -92_233_720_368_547_758 {
        -0x8000_0000_0000_0000
    } else {
        v * 100
    }
}

/// A rate in thousandths as a percentage in thousandths, saturating at
/// the 64-bit bounds.
fn rate_as_percent(v: i64) -> (r: i64)
    ensures
        r as int == times100_sat(v),
{
    if v > 92_233_720_368_547_758 {
        i64::MAX
    } else if v < -92_233_720_368_547_758 {
        i64::MIN
    } else {
        v * 100
    }
}

/// Keystroke stress rule: a stress indicator above the threshold raises
/// a health concern.
pub open spec fn stress_finding(cfg: FlagDetector, k: KeystrokeDynamics) -> Option<FindingView> {
    if k.stress_indicator > cfg.stress_threshold {
        Some(
            FindingView {
                flag_type: FlagType::HealthConcern,
                severity: Severity::Medium,
                title: "High Stress Detected"@,
                description: "Keystroke patterns indicate stress level of "@ + milli_chars(
                    k.stress_indicator as int,
                ),
                data_source: "keystroke_dynamics"@,
                metrics: seq![
                    ("stress_indicator"@, MetricValueView::Fixed(k.stress_indicator as int)),
                    ("typing_speed_wpm"@, MetricValueView::Fixed(k.typing_speed_wpm as int)),
                    (
                        "error_correction_rate"@,
                        MetricValueView::Fixed(k.error_correction_rate as int),
                    ),
                    ("threshold"@, MetricValueView::Fixed(cfg.stress_threshold as int)),
                ],
                confidence: 750,
            },
        )
    } else {
        None
    }
}

/// Keystroke fatigue rule: a fatigue indicator above the threshold
/// raises a health concern.
pub open spec fn keystroke_fatigue_finding(cfg: FlagDetector, k: KeystrokeDynamics) -> Option<
    FindingView,
> {
    if k.fatigue_indicator > cfg.fatigue_threshold {
        Some(
            FindingView {
                flag_type: FlagType::HealthConcern,
                severity: Severity::Medium,
                title: "Fatigue Detected"@,
                description: "Keystroke patterns indicate fatigue level of "@ + milli_chars(
                    k.fatigue_indicator as int,
                ),
                data_source: "keystroke_dynamics"@,
                metrics: seq![
                    ("fatigue_indicator"@, MetricValueView::Fixed(k.fatigue_indicator as int)),
                    ("typing_speed_wpm"@, MetricValueView::Fixed(k.typing_speed_wpm as int)),
                    ("key_press_variance"@, MetricValueView::Fixed(k.key_press_variance as int)),
                    ("threshold"@, MetricValueView::Fixed(cfg.fatigue_threshold as int)),
                ],
                confidence: 750,
            },
        )
    } else {
        None
    }
}

/// Error-rate rule: a correction rate above 0.15 raises a health
/// concern.
pub open spec fn error_rate_finding(k: KeystrokeDynamics) -> Option<FindingView> {
    if k.error_correction_rate > 150 {
        Some(
            FindingView {
                flag_type: FlagType::HealthConcern,
                severity: Severity::Low,
                title: "High Typing Error Rate"@,
                description: "Error correction rate at "@ + milli_chars(
                    times100_sat(k.error_correction_rate),
                ) + "% suggests possible fatigue or distraction"@,
                data_source: "keystroke_dynamics"@,
                metrics: seq![
                    (
                        "error_correction_rate"@,
                        MetricValueView::Fixed(k.error_correction_rate as int),
                    ),
                    ("threshold"@, MetricValueView::Fixed(150)),
                ],
                confidence: 700,
            },
        )
    } else {
        None
    }
}

/// The findings of the keystroke rules: stress, fatigue, error rate.
pub open spec fn spec_check_keystroke(cfg: FlagDetector, k: KeystrokeDynamics) -> Seq<
    FindingView,
> {
    opt_seq(stress_finding(cfg, k)) + opt_seq(keystroke_fatigue_finding(cfg, k)) + opt_seq(
        error_rate_finding(k),
    )
}

/// Mouse fatigue rule: a fatigue indicator above the threshold raises a
/// health concern.
pub open spec fn mouse_fatigue_finding(cfg: FlagDetector, m: MouseDynamics) -> Option<
    FindingView,
> {
    if m.fatigue_indicator > cfg.fatigue_threshold {
        Some(
            FindingView {
                flag_type: FlagType::HealthConcern,
                severity: Severity::Medium,
                title: "Mouse Movement Fatigue"@,
                description: "Mouse patterns indicate fatigue level of "@ + milli_chars(
                    m.fatigue_indicator as int,
                ),
                data_source: "mouse_dynamics"@,
                metrics: seq![
                    ("fatigue_indicator"@, MetricValueView::Fixed(m.fatigue_indicator as int)),
                    ("path_smoothness"@, MetricValueView::Fixed(m.path_smoothness as int)),
                    ("hesitation_count"@, MetricValueView::Count(m.hesitation_count as int)),
                    ("threshold"@, MetricValueView::Fixed(cfg.fatigue_threshold as int)),
                ],
                confidence: 700,
            },
        )
    } else {
        None
    }
}

/// Erratic-mouse rule: low path smoothness with many hesitations raises
/// a behavior anomaly.
pub open spec fn erratic_mouse_finding(m: MouseDynamics) -> Option<FindingView> {
    if m.path_smoothness < 300 && m.hesitation_count > 15 {
        Some(
            FindingView {
                flag_type: FlagType::BehaviorAnomaly,
                severity: Severity::Low,
                title: "Erratic Mouse Movement"@,
                description: "Mouse movement patterns are irregular with many hesitations"@,
                data_source: "mouse_dynamics"@,
                metrics: seq![
                    ("path_smoothness"@, MetricValueView::Fixed(m.path_smoothness as int)),
                    ("hesitation_count"@, MetricValueView::Count(m.hesitation_count as int)),
                    ("threshold"@, MetricValueView::Fixed(300)),
                    ("hesitation_threshold"@, MetricValueView::Count(15)),
                ],
                confidence: 650,
            },
        )
    } else {
        None
    }
}

/// The findings of the mouse rules, fatigue first.
pub open spec fn spec_check_mouse(cfg: FlagDetector, m: MouseDynamics) -> Seq<FindingView> {
    opt_seq(mouse_fatigue_finding(cfg, m)) + opt_seq(erratic_mouse_finding(m))
}

/// Sentiment rule: a sentiment score under -0.5 raises a health concern.
pub open spec fn sentiment_finding(v: VoiceData) -> Option<FindingView> {
    if v.sentiment_score < -500 {
        Some(
            FindingView {
                flag_type: FlagType::HealthConcern,
                severity: Severity::Medium,
                title: "Negative Emotional State"@,
                description: "Voice sentiment at "@ + milli_chars(v.sentiment_score as int)
                    + " indicates negative emotional state"@,
                data_source: "voice_data"@,
                metrics: seq![
                    ("sentiment_score"@, MetricValueView::Fixed(v.sentiment_score as int)),
                    ("emotion_detected"@, MetricValueView::Text(v.emotion_detected@)),
                    ("vocal_tone_score"@, MetricValueView::Fixed(v.vocal_tone_score as int)),
                    ("threshold"@, MetricValueView::Fixed(-500)),
                ],
                confidence: 750,
            },
        )
    } else {
        None
    }
}

/// Emotion rule: a stressed or frustrated voice raises a health concern.
pub open spec fn emotion_finding(v: VoiceData) -> Option<FindingView> {
    if v.emotion_detected@ == "stressed"@ || v.emotion_detected@ == "frustrated"@ {
        Some(
            FindingView {
                flag_type: FlagType::HealthConcern,
                severity: Severity::Medium,
                title: "Stress Detected in Voice"@,
                description: "Voice analysis detected emotion: "@ + v.emotion_detected@,
                data_source: "voice_data"@,
                metrics: seq![
                    ("emotion_detected"@, MetricValueView::Text(v.emotion_detected@)),
                    ("vocal_tone_score"@, MetricValueView::Fixed(v.vocal_tone_score as int)),
                ],
                confidence: 800,
            },
        )
    } else {
        None
    }
}

/// The findings of the voice rules, sentiment first.
pub open spec fn spec_check_voice(v: VoiceData) -> Seq<FindingView> {
    opt_seq(sentiment_finding(v)) + opt_seq(emotion_finding(v))
}

/// Posture rule: a posture score under 0.4 raises a health concern.
pub open spec fn posture_finding(c: CameraData) -> Option<FindingView> {
    if c.posture_score < 400 {
        Some(
            FindingView {
                flag_type: FlagType::HealthConcern,
                severity: Severity::Low,
                title: "Poor Posture Detected"@,
                description: "Posture score of "@ + milli_chars(c.posture_score as int)
                    + " suggests poor ergonomics"@,
                data_source: "camera_data"@,
                metrics: seq![
                    ("posture_score"@, MetricValueView::Fixed(c.posture_score as int)),
                    ("threshold"@, MetricValueView::Fixed(400)),
                ],
                confidence: 700,
            },
        )
    } else {
        None
    }
}

/// Gaze rule: a gaze away from the screen raises a productivity alert.
pub open spec fn gaze_finding(c: CameraData) -> Option<FindingView> {
    if c.gaze_direction@ == "away"@ {
        Some(
            FindingView {
                flag_type: FlagType::ProductivityAlert,
                severity: Severity::Low,
                title: "User Not Looking at Screen"@,
                description: "Camera detected user gaze is away from screen"@,
                data_source: "camera_data"@,
                metrics: seq![
                    ("gaze_direction"@, MetricValueView::Text(c.gaze_direction@)),
                ],
                confidence: 750,
            },
        )
    } else {
        None
    }
}

/// The findings of the camera rules, posture first.
pub open spec fn spec_check_camera(c: CameraData) -> Seq<FindingView> {
    opt_seq(posture_finding(c)) + opt_seq(gaze_finding(c))
}

/// Bandwidth rule: more than 500 Mbps raises a system anomaly.
pub open spec fn bandwidth_finding(n: NetworkActivityMetadata) -> Option<FindingView> {
    if n.bandwidth_usage_mbps > 500_000 {
        Some(
            FindingView {
                flag_type: FlagType::SystemAnomaly,
                severity: Severity::Medium,
                title: "High Bandwidth Usage"@,
                description: "Bandwidth usage at "@ + milli_chars(n.bandwidth_usage_mbps as int)
                    + " Mbps is unusually high"@,
                data_source: "network_activity_metadata"@,
                metrics: seq![
                    (
                        "bandwidth_usage_mbps"@,
                        MetricValueView::Fixed(n.bandwidth_usage_mbps as int),
                    ),
                    ("traffic_type"@, MetricValueView::Text(n.traffic_type@)),
                    ("threshold"@, MetricValueView::Fixed(500_000)),
                ],
                confidence: 800,
            },
        )
    } else {
        None
    }
}

/// Packet-loss rule: a loss rate above 0.05 raises a performance issue.
pub open spec fn packet_loss_finding(n: NetworkActivityMetadata) -> Option<FindingView> {
    if n.packet_loss_rate > 50 {
        Some(
            FindingView {
                flag_type: FlagType::PerformanceIssue,
                severity: Severity::Medium,
                title: "High Network Packet Loss"@,
                description: "Packet loss rate at "@ + milli_chars(
                    times100_sat(n.packet_loss_rate),
                ) + "% indicates network issues"@,
                data_source: "network_activity_metadata"@,
                metrics: seq![
                    ("packet_loss_rate"@, MetricValueView::Fixed(n.packet_loss_rate as int)),
                    (
                        "connection_stability"@,
                        MetricValueView::Fixed(n.connection_stability as int),
                    ),
                    ("threshold"@, MetricValueView::Fixed(50)),
                ],
                confidence: 850,
            },
        )
    } else {
        None
    }
}

/// The findings of the network rules, bandwidth first.
pub open spec fn spec_check_network(n: NetworkActivityMetadata) -> Seq<FindingView> {
    opt_seq(bandwidth_finding(n)) + opt_seq(packet_loss_finding(n))
}

/// Friction rule: a workflow friction score above 0.7 raises a
/// productivity alert.
pub open spec fn friction_finding(s: ScreenInteractions) -> Option<FindingView> {
    if s.workflow_friction_score > 700 {
        Some(
            FindingView {
                flag_type: FlagType::ProductivityAlert,
                severity: Severity::Medium,
                title: "High Workflow Friction"@,
                description: "Workflow friction score of "@ + milli_chars(
                    s.workflow_friction_score as int,
                ) + " indicates UI/UX issues"@,
                data_source: "screen_interactions"@,
                metrics: seq![
                    (
                        "workflow_friction_score"@,
                        MetricValueView::Fixed(s.workflow_friction_score as int),
                    ),
                    ("click_count"@, MetricValueView::Count(s.click_count as int)),
                    ("threshold"@, MetricValueView::Fixed(700)),
                ],
                confidence: 700,
            },
        )
    } else {
        None
    }
}

/// The findings of the screen rules.
pub open spec fn spec_check_screen(s: ScreenInteractions) -> Seq<FindingView> {
    opt_seq(friction_finding(s))
}

/// The keystroke findings of a snapshot; none when the record is absent.
pub open spec fn keystroke_part(cfg: FlagDetector, d: EyeCoreData) -> Seq<FindingView> {
    match d.keystroke_dynamics {
        Some(k) => spec_check_keystroke(cfg, k),
        None => Seq::empty(),
    }
}

/// The mouse findings of a snapshot; none when the record is absent.
pub open spec fn mouse_part(cfg: FlagDetector, d: EyeCoreData) -> Seq<FindingView> {
    match d.mouse_dynamics {
        Some(m) => spec_check_mouse(cfg, m),
        None => Seq::empty(),
    }
}

/// The voice findings of a snapshot; none when the record is absent.
pub open spec fn voice_part(d: EyeCoreData) -> Seq<FindingView> {
    match d.voice_data {
        Some(v) => spec_check_voice(v),
        None => Seq::empty(),
    }
}

/// The camera findings of a snapshot; none when the record is absent.
pub open spec fn camera_part(d: EyeCoreData) -> Seq<FindingView> {
    match d.camera_data {
        Some(c) => spec_check_camera(c),
        None => Seq::empty(),
    }
}

/// The network findings of a snapshot; none when the record is absent.
pub open spec fn network_part(d: EyeCoreData) -> Seq<FindingView> {
    match d.network_activity_metadata {
        Some(n) => spec_check_network(n),
        None => Seq::empty(),
    }
}

/// The screen findings of a snapshot; none when the record is absent.
pub open spec fn screen_part(d: EyeCoreData) -> Seq<FindingView> {
    match d.screen_interactions {
        Some(s) => spec_check_screen(s),
        None => Seq::empty(),
    }
}

/// Everything the engine finds in one snapshot: the union of all rule
/// checks in a fixed order, where a rule on an absent optional
/// sub-record is a silent no-op.
pub open spec fn spec_findings(cfg: FlagDetector, d: EyeCoreData) -> Seq<FindingView> {
    spec_check_system(cfg, d.system_metrics) + spec_check_input(cfg, d.input_metrics)
        + spec_check_focus(cfg, d.focus_metrics) + keystroke_part(cfg, d) + mouse_part(cfg, d)
        + voice_part(d) + camera_part(d) + network_part(d) + screen_part(d)
}

impl FlagDetector {
    /// Evaluates the keystroke rules.
    pub fn check_keystroke_dynamics(&self, k: &KeystrokeDynamics, session_id: &str) -> (r: Vec<Flag>)
        ensures
            findings_match(r@, spec_check_keystroke(*self, *k), session_id@),
    {
        let mut flags: Vec<Flag> = Vec::new();
        if k.stress_indicator > self.stress_threshold {
            let description = text_m(
                "Keystroke patterns indicate stress level of ",
                k.stress_indicator,
                "",
            );
            let mut metrics: Vec<(String, MetricValue)> = Vec::new();
            metrics.push(kv_fixed("stress_indicator", k.stress_indicator));
            metrics.push(kv_fixed("typing_speed_wpm", k.typing_speed_wpm));
            metrics.push(kv_fixed("error_correction_rate", k.error_correction_rate));
            metrics.push(kv_fixed("threshold", self.stress_threshold));
            proof {
                assert(metrics_view(metrics@) =~= stress_finding(*self, *k)->0.metrics);
                reveal_strlit("");
                assert("Keystroke patterns indicate stress level of "@ + milli_chars(
                    k.stress_indicator as int,
                ) + ""@ =~= stress_finding(*self, *k)->0.description);
            }
            push_rule_flag(
                &mut flags,
                session_id,
                FlagType::HealthConcern,
                Severity::Medium,
                "High Stress Detected",
                description,
                "keystroke_dynamics",
                metrics,
                750,
            );
            proof {
                assert(flags@ =~= Seq::<Flag>::empty().push(flags@.last()));
            }
        }
        let ghost part1 = flags@;
        let ghost part1_f = opt_seq(stress_finding(*self, *k));
        assert(findings_match(part1, part1_f, session_id@));
        if k.fatigue_indicator > self.fatigue_threshold {
            let description = text_m(
                "Keystroke patterns indicate fatigue level of ",
                k.fatigue_indicator,
                "",
            );
            let mut metrics: Vec<(String, MetricValue)> = Vec::new();
            metrics.push(kv_fixed("fatigue_indicator", k.fatigue_indicator));
            metrics.push(kv_fixed("typing_speed_wpm", k.typing_speed_wpm));
            metrics.push(kv_fixed("key_press_variance", k.key_press_variance));
            metrics.push(kv_fixed("threshold", self.fatigue_threshold));
            proof {
                assert(metrics_view(metrics@) =~= keystroke_fatigue_finding(*self, *k)->0.metrics);
                reveal_strlit("");
                assert("Keystroke patterns indicate fatigue level of "@ + milli_chars(
                    k.fatigue_indicator as int,
                ) + ""@ =~= keystroke_fatigue_finding(*self, *k)->0.description);
            }
            push_rule_flag(
                &mut flags,
                session_id,
                FlagType::HealthConcern,
                Severity::Medium,
                "Fatigue Detected",
                description,
                "keystroke_dynamics",
                metrics,
                750,
            );
            proof {
                assert(flags@ =~= part1 + seq![flags@.last()]);
            }
        }
        let ghost part2 = flags@;
        let ghost part2_f = part1_f + opt_seq(keystroke_fatigue_finding(*self, *k));
        proof {
            assert(findings_match(part2, part2_f, session_id@)) by {
                if keystroke_fatigue_finding(*self, *k) is Some {
                    assert(part2_f =~= part1_f + seq![keystroke_fatigue_finding(*self, *k)->0]);
                } else {
                    assert(part2_f =~= part1_f);
                }
            }
        }
        if k.error_correction_rate > 150 {
            let description = text_m(
                "Error correction rate at ",
                rate_as_percent(k.error_correction_rate),
                "% suggests possible fatigue or distraction",
            );
            let mut metrics: Vec<(String, MetricValue)> = Vec::new();
            metrics.push(kv_fixed("error_correction_rate", k.error_correction_rate));
            metrics.push(kv_fixed("threshold", 150));
            proof {
                assert(metrics_view(metrics@) =~= error_rate_finding(*k)->0.metrics);
            }
            push_rule_flag(
                &mut flags,
                session_id,
                FlagType::HealthConcern,
                Severity::Low,
                "High Typing Error Rate",
                description,
                "keystroke_dynamics",
                metrics,
                700,
            );
            proof {
                assert(flags@ =~= part2 + seq![flags@.last()]);
            }
        }
        proof {
            assert(findings_match(flags@, spec_check_keystroke(*self, *k), session_id@)) by {
                if error_rate_finding(*k) is Some {
                    assert(spec_check_keystroke(*self, *k) =~= part2_f + seq![
                        error_rate_finding(*k)->0,
                    ]);
                } else {
                    assert(spec_check_keystroke(*self, *k) =~= part2_f);
                }
            }
        }
        flags
    }

    /// Evaluates the mouse rules.
    pub fn check_mouse_dynamics(&self, m: &MouseDynamics, session_id: &str) -> (r: Vec<Flag>)
        ensures
            findings_match(r@, spec_check_mouse(*self, *m), session_id@),
    {
        let mut flags: Vec<Flag> = Vec::new();
        if m.fatigue_indicator > self.fatigue_threshold {
            let description = text_m(
                "Mouse patterns indicate fatigue level of ",
                m.fatigue_indicator,
                "",
            );
            let mut metrics: Vec<(String, MetricValue)> = Vec::new();
            metrics.push(kv_fixed("fatigue_indicator", m.fatigue_indicator));
            metrics.push(kv_fixed("path_smoothness", m.path_smoothness));
            metrics.push(kv_count("hesitation_count", m.hesitation_count as u64));
            metrics.push(kv_fixed("threshold", self.fatigue_threshold));
            proof {
                assert(metrics_view(metrics@) =~= mouse_fatigue_finding(*self, *m)->0.metrics);
                reveal_strlit("");
                assert("Mouse patterns indicate fatigue level of "@ + milli_chars(
                    m.fatigue_indicator as int,
                ) + ""@ =~= mouse_fatigue_finding(*self, *m)->0.description);
            }
            push_rule_flag(
                &mut flags,
                session_id,
                FlagType::HealthConcern,
                Severity::Medium,
                "Mouse Movement Fatigue",
                description,
                "mouse_dynamics",
                metrics,
                700,
            );
            proof {
                assert(flags@ =~= Seq::<Flag>::empty().push(flags@.last()));
            }
        }
        let ghost part1 = flags@;
        let ghost part1_f = opt_seq(mouse_fatigue_finding(*self, *m));
        assert(findings_match(part1, part1_f, session_id@));
        if m.path_smoothness < 300 && m.hesitation_count > 15 {
            let description = text_t(
                "Mouse movement patterns are irregular with many hesitations",
                "",
            );
            let mut metrics: Vec<(String, MetricValue)> = Vec::new();
            metrics.push(kv_fixed("path_smoothness", m.path_smoothness));
            metrics.push(kv_count("hesitation_count", m.hesitation_count as u64));
            metrics.push(kv_fixed("threshold", 300));
            metrics.push(kv_count("hesitation_threshold", 15));
            proof {
                assert(metrics_view(metrics@) =~= erratic_mouse_finding(*m)->0.metrics);
                reveal_strlit("");
                assert("Mouse movement patterns are irregular with many hesitations"@ + ""@
                    =~= erratic_mouse_finding(*m)->0.description);
            }
            push_rule_flag(
                &mut flags,
                session_id,
                FlagType::BehaviorAnomaly,
                Severity::Low,
                "Erratic Mouse Movement",
                description,
                "mouse_dynamics",
                metrics,
                650,
            );
            proof {
                assert(flags@ =~= part1 + seq![flags@.last()]);
            }
        }
        proof {
            assert(findings_match(flags@, spec_check_mouse(*self, *m), session_id@)) by {
                if erratic_mouse_finding(*m) is Some {
                    assert(spec_check_mouse(*self, *m) =~= part1_f + seq![
                        erratic_mouse_finding(*m)->0,
                    ]);
                } else {
                    assert(spec_check_mouse(*self, *m) =~= part1_f);
                }
            }
        }
        flags
    }

    /// Evaluates the voice rules.
    pub fn check_voice_data(&self, v: &VoiceData, session_id: &str) -> (r: Vec<Flag>)
        ensures
            findings_match(r@, spec_check_voice(*v), session_id@),
    {
        let mut flags: Vec<Flag> = Vec::new();
        if v.sentiment_score < -500 {
            let description = text_m(
                "Voice sentiment at ",
                v.sentiment_score,
                " indicates negative emotional state",
            );
            let mut metrics: Vec<(String, MetricValue)> = Vec::new();
            metrics.push(kv_fixed("sentiment_score", v.sentiment_score));
            metrics.push(kv_text("emotion_detected", v.emotion_detected.as_str()));
            metrics.push(kv_fixed("vocal_tone_score", v.vocal_tone_score));
            metrics.push(kv_fixed("threshold", -500));
            proof {
                assert(metrics_view(metrics@) =~= sentiment_finding(*v)->0.metrics);
            }
            push_rule_flag(
                &mut flags,
                session_id,
                FlagType::HealthConcern,
                Severity::Medium,
                "Negative Emotional State",
                description,
                "voice_data",
                metrics,
                750,
            );
            proof {
                assert(flags@ =~= Seq::<Flag>::empty().push(flags@.last()));
            }
        }
        let ghost part1 = flags@;
        let ghost part1_f = opt_seq(sentiment_finding(*v));
        assert(findings_match(part1, part1_f, session_id@));
        if str_equal(v.emotion_detected.as_str(), "stressed") || str_equal(
            v.emotion_detected.as_str(),
            "frustrated",
        ) {
            let description = text_t(
                "Voice analysis detected emotion: ",
                v.emotion_detected.as_str(),
            );
            let mut metrics: Vec<(String, MetricValue)> = Vec::new();
            metrics.push(kv_text("emotion_detected", v.emotion_detected.as_str()));
            metrics.push(kv_fixed("vocal_tone_score", v.vocal_tone_score));
            proof {
                assert(metrics_view(metrics@) =~= emotion_finding(*v)->0.metrics);
            }
            push_rule_flag(
                &mut flags,
                session_id,
                FlagType::HealthConcern,
                Severity::Medium,
                "Stress Detected in Voice",
                description,
                "voice_data",
                metrics,
                800,
            );
            proof {
                assert(flags@ =~= part1 + seq![flags@.last()]);
            }
        }
        proof {
            assert(findings_match(flags@, spec_check_voice(*v), session_id@)) by {
                if emotion_finding(*v) is Some {
                    assert(spec_check_voice(*v) =~= part1_f + seq![emotion_finding(*v)->0]);
                } else {
                    assert(spec_check_voice(*v) =~= part1_f);
                }
            }
        }
        flags
    }

    /// Evaluates the camera rules.
    pub fn check_camera_data(&self, c: &CameraData, session_id: &str) -> (r: Vec<Flag>)
        ensures
            findings_match(r@, spec_check_camera(*c), session_id@),
    {
        let mut flags: Vec<Flag> = Vec::new();
        if c.posture_score < 400 {
            let description = text_m(
                "Posture score of ",
                c.posture_score,
                " suggests poor ergonomics",
            );
            let mut metrics: Vec<(String, MetricValue)> = Vec::new();
            metrics.push(kv_fixed("posture_score", c.posture_score));
            metrics.push(kv_fixed("threshold", 400));
            proof {
                assert(metrics_view(metrics@) =~= posture_finding(*c)->0.metrics);
            }
            push_rule_flag(
                &mut flags,
                session_id,
                FlagType::HealthConcern,
                Severity::Low,
                "Poor Posture Detected",
                description,
                "camera_data",
                metrics,
                700,
            );
            proof {
                assert(flags@ =~= Seq::<Flag>::empty().push(flags@.last()));
            }
        }
        let ghost part1 = flags@;
        let ghost part1_f = opt_seq(posture_finding(*c));
        assert(findings_match(part1, part1_f, session_id@));
        if str_equal(c.gaze_direction.as_str(), "away") {
            let description = text_t("Camera detected user gaze is away from screen", "");
            let mut metrics: Vec<(String, MetricValue)> = Vec::new();
            metrics.push(kv_text("gaze_direction", c.gaze_direction.as_str()));
            proof {
                assert(metrics_view(metrics@) =~= gaze_finding(*c)->0.metrics);
                reveal_strlit("");
                assert("Camera detected user gaze is away from screen"@ + ""@ =~= gaze_finding(
                    *c,
                )->0.description);
            }
            push_rule_flag(
                &mut flags,
                session_id,
                FlagType::ProductivityAlert,
                Severity::Low,
                "User Not Looking at Screen",
                description,
                "camera_data",
                metrics,
                750,
            );
            proof {
                assert(flags@ =~= part1 + seq![flags@.last()]);
            }
        }
        proof {
            assert(findings_match(flags@, spec_check_camera(*c), session_id@)) by {
                if gaze_finding(*c) is Some {
                    assert(spec_check_camera(*c) =~= part1_f + seq![gaze_finding(*c)->0]);
                } else {
                    assert(spec_check_camera(*c) =~= part1_f);
                }
            }
        }
        flags
    }

    /// Evaluates the network rules.
    pub fn check_network_activity(&self, n: &NetworkActivityMetadata, session_id: &str) -> (r: Vec<
        Flag,
    >)
        ensures
            findings_match(r@, spec_check_network(*n), session_id@),
    {
        let mut flags: Vec<Flag> = Vec::new();
        if n.bandwidth_usage_mbps > 500_000 {
            let description = text_m(
                "Bandwidth usage at ",
                n.bandwidth_usage_mbps,
                " Mbps is unusually high",
            );
            let mut metrics: Vec<(String, MetricValue)> = Vec::new();
            metrics.push(kv_fixed("bandwidth_usage_mbps", n.bandwidth_usage_mbps));
            metrics.push(kv_text("traffic_type", n.traffic_type.as_str()));
            metrics.push(kv_fixed("threshold", 500_000));
            proof {
                assert(metrics_view(metrics@) =~= bandwidth_finding(*n)->0.metrics);
            }
            push_rule_flag(
                &mut flags,
                session_id,
                FlagType::SystemAnomaly,
                Severity::Medium,
                "High Bandwidth Usage",
                description,
                "network_activity_metadata",
                metrics,
                800,
            );
            proof {
                assert(flags@ =~= Seq::<Flag>::empty().push(flags@.last()));
            }
        }
        let ghost part1 = flags@;
        let ghost part1_f = opt_seq(bandwidth_finding(*n));
        assert(findings_match(part1, part1_f, session_id@));
        if n.packet_loss_rate > 50 {
            let description = text_m(
                "Packet loss rate at ",
                rate_as_percent(n.packet_loss_rate),
                "% indicates network issues",
            );
            let mut metrics: Vec<(String, MetricValue)> = Vec::new();
            metrics.push(kv_fixed("packet_loss_rate", n.packet_loss_rate));
            metrics.push(kv_fixed("connection_stability", n.connection_stability));
            metrics.push(kv_fixed("threshold", 50));
            proof {
                assert(metrics_view(metrics@) =~= packet_loss_finding(*n)->0.metrics);
            }
            push_rule_flag(
                &mut flags,
                session_id,
                FlagType::PerformanceIssue,
                Severity::Medium,
                "High Network Packet Loss",
                description,
                "network_activity_metadata",
                metrics,
                850,
            );
            proof {
                assert(flags@ =~= part1 + seq![flags@.last()]);
            }
        }
        proof {
            assert(findings_match(flags@, spec_check_network(*n), session_id@)) by {
                if packet_loss_finding(*n) is Some {
                    assert(spec_check_network(*n) =~= part1_f + seq![packet_loss_finding(*n)->0]);
                } else {
                    assert(spec_check_network(*n) =~= part1_f);
                }
            }
        }
        flags
    }

    /// Evaluates the screen rules.
    pub fn check_screen_interactions(&self, s: &ScreenInteractions, session_id: &str) -> (r: Vec<Flag>)
        ensures
            findings_match(r@, spec_check_screen(*s), session_id@),
    {
        let mut flags: Vec<Flag> = Vec::new();
        if s.workflow_friction_score > 700 {
            let description = text_m(
                "Workflow friction score of ",
                s.workflow_friction_score,
                " indicates UI/UX issues",
            );
            let mut metrics: Vec<(String, MetricValue)> = Vec::new();
            metrics.push(kv_fixed("workflow_friction_score", s.workflow_friction_score));
            metrics.push(kv_count("click_count", s.click_count as u64));
            metrics.push(kv_fixed("threshold", 700));
            proof {
                assert(metrics_view(metrics@) =~= friction_finding(*s)->0.metrics);
            }
            push_rule_flag(
                &mut flags,
                session_id,
                FlagType::ProductivityAlert,
                Severity::Medium,
                "High Workflow Friction",
                description,
                "screen_interactions",
                metrics,
                700,
            );
            proof {
                assert(flags@ =~= Seq::<Flag>::empty().push(flags@.last()));
            }
        }
        proof {
            assert(findings_match(flags@, spec_check_screen(*s), session_id@)) by {
                if friction_finding(*s) is Some {
                    assert(spec_check_screen(*s) =~= seq![friction_finding(*s)->0]);
                } else {
                    assert(spec_check_screen(*s) =~= Seq::<FindingView>::empty());
                }
            }
        }
        flags
    }

    /// Analyzes one snapshot: evaluates every rule, in a fixed order,
    /// and returns one freshly stamped flag per rule match. Pure in the
    /// snapshot: the findings are a function of the thresholds and the
    /// snapshot alone, and analysis never fails.
    pub fn analyze_data(&self, data: &EyeCoreData) -> (r: Result<Vec<Flag>, String>)
        ensures
            r is Ok,
            findings_match(r->Ok_0@, spec_findings(*self, *data), data.session_id@),
    {
        let sid = data.session_id.as_str();
        let ghost sv = data.session_id@;
        let mut flags = self.check_system_metrics(&data.system_metrics, sid);
        let ghost f1 = spec_check_system(*self, data.system_metrics);
        let mut more = self.check_input_metrics(&data.input_metrics, sid);
        proof {
            lemma_findings_match_concat(
                flags@,
                f1,
                more@,
                spec_check_input(*self, data.input_metrics),
                sv,
            );
        }
        flags.append(&mut more);
        let ghost f2 = f1 + spec_check_input(*self, data.input_metrics);
        let mut more = self.check_focus_metrics(&data.focus_metrics, sid);
        proof {
            lemma_findings_match_concat(
                flags@,
                f2,
                more@,
                spec_check_focus(*self, data.focus_metrics),
                sv,
            );
        }
        flags.append(&mut more);
        let ghost f3 = f2 + spec_check_focus(*self, data.focus_metrics);
        let ghost ks = keystroke_part(*self, *data);
        match &data.keystroke_dynamics {
            Some(k) => {
                let mut more = self.check_keystroke_dynamics(k, sid);
                proof {
                    lemma_findings_match_concat(flags@, f3, more@, ks, sv);
                }
                flags.append(&mut more);
            },
            None => {
                proof {
                    assert(f3 + ks =~= f3);
                }
            },
        }
        let ghost f4 = f3 + ks;
        let ghost ms = mouse_part(*self, *data);
        match &data.mouse_dynamics {
            Some(m) => {
                let mut more = self.check_mouse_dynamics(m, sid);
                proof {
                    lemma_findings_match_concat(flags@, f4, more@, ms, sv);
                }
                flags.append(&mut more);
            },
            None => {
                proof {
                    assert(f4 + ms =~= f4);
                }
            },
        }
        let ghost f5 = f4 + ms;
        let ghost vs = voice_part(*data);
        match &data.voice_data {
            Some(v) => {
                let mut more = self.check_voice_data(v, sid);
                proof {
                    lemma_findings_match_concat(flags@, f5, more@, vs, sv);
                }
                flags.append(&mut more);
            },
            None => {
                proof {
                    assert(f5 + vs =~= f5);
                }
            },
        }
        let ghost f6 = f5 + vs;
        let ghost cs = camera_part(*data);
        match &data.camera_data {
            Some(c) => {
                let mut more = self.check_camera_data(c, sid);
                proof {
                    lemma_findings_match_concat(flags@, f6, more@, cs, sv);
                }
                flags.append(&mut more);
            },
            None => {
                proof {
                    assert(f6 + cs =~= f6);
                }
            },
        }
        let ghost f7 = f6 + cs;
        let ghost ns = network_part(*data);
        match &data.network_activity_metadata {
            Some(n) => {
                let mut more = self.check_network_activity(n, sid);
                proof {
                    lemma_findings_match_concat(flags@, f7, more@, ns, sv);
                }
                flags.append(&mut more);
            },
            None => {
                proof {
                    assert(f7 + ns =~= f7);
                }
            },
        }
        let ghost f8 = f7 + ns;
        let ghost ss = screen_part(*data);
        match &data.screen_interactions {
            Some(s) => {
                let mut more = self.check_screen_interactions(s, sid);
                proof {
                    lemma_findings_match_concat(flags@, f8, more@, ss, sv);
                }
                flags.append(&mut more);
            },
            None => {
                proof {
                    assert(f8 + ss =~= f8);
                }
            },
        }
        proof {
            assert(f8 + ss == spec_findings(*self, *data));
        }
        Ok(flags)
    }
}


/// The system-resource CPU rule, over the whole severity range: usage at
/// or under the threshold raises nothing; above it, a performance issue
/// whose severity is High up to 95% and Critical beyond, at confidence
/// 0.95.
pub proof fn lemma_cpu_rule_severity(cfg: FlagDetector, m: SystemMetrics)
    ensures
        m.cpu_usage <= cfg.cpu_threshold ==> cpu_finding(cfg, m) is None,
        m.cpu_usage > cfg.cpu_threshold ==> {
            &&& cpu_finding(cfg, m) is Some
            &&& cpu_finding(cfg, m)->0.flag_type == FlagType::PerformanceIssue
            &&& cpu_finding(cfg, m)->0.severity == (if m.cpu_usage > 95_000 {
                Severity::Critical
            } else {
                Severity::High
            })
            &&& cpu_finding(cfg, m)->0.confidence == 950
        },
{
}

/// The system-resource rules stay silent whenever both usages are at or
/// under their thresholds.
pub proof fn lemma_system_rules_silent(cfg: FlagDetector, m: SystemMetrics)
    requires
        m.cpu_usage <= cfg.cpu_threshold,
        m.memory_usage <= cfg.memory_threshold,
    ensures
        spec_check_system(cfg, m) == Seq::<FindingView>::empty(),
{
    assert(spec_check_system(cfg, m) =~= Seq::<FindingView>::empty());
}

/// Rule independence at the idle boundary: with no clicks, no key events
/// and an idle time under ten seconds that does not exceed the idle
/// threshold, the input rules raise exactly one finding, the no-input
/// behavior anomaly, and no productivity alert.
pub proof fn lemma_no_input_rule(cfg: FlagDetector, m: InputMetrics)
    requires
        m.mouse_clicks == 0,
        m.keyboard_events == 0,
        m.idle_duration_seconds < 10,
        m.idle_duration_seconds <= cfg.idle_threshold,
    ensures
        spec_check_input(cfg, m).len() == 1,
        spec_check_input(cfg, m)[0].flag_type == FlagType::BehaviorAnomaly,
        spec_check_input(cfg, m)[0].title == "No User Input Detected"@,
        forall|i: int|
            0 <= i < spec_check_input(cfg, m).len() ==> (#[trigger] spec_check_input(cfg, m)[i])
                .flag_type != FlagType::ProductivityAlert,
{
    assert(idle_finding(cfg, m) is None);
    assert(spec_check_input(cfg, m) =~= seq![no_input_finding(m)->0]);
}

/// Detection is stateless: the findings are a function of the
/// thresholds and the snapshot alone, with no memory of earlier
/// snapshots, so re-delivering an identical snapshot re-raises exactly
/// the same findings. Only the stamp of each raised flag — its fresh
/// identifier and its detection time — differs between deliveries.
pub proof fn lemma_detection_stateless(cfg: FlagDetector, d1: EyeCoreData, d2: EyeCoreData)
    requires
        d1 == d2,
    ensures
        spec_findings(cfg, d1) == spec_findings(cfg, d2),
{
}

/// On a snapshot with every optional sub-record absent, detection is
/// exactly the three mandatory checks; no optional rule contributes.
pub proof fn lemma_mandatory_rules_only(cfg: FlagDetector, d: EyeCoreData)
    requires
        d.keystroke_dynamics is None,
        d.mouse_dynamics is None,
        d.voice_data is None,
        d.camera_data is None,
        d.network_activity_metadata is None,
        d.screen_interactions is None,
    ensures
        spec_findings(cfg, d) == spec_check_system(cfg, d.system_metrics) + spec_check_input(
            cfg,
            d.input_metrics,
        ) + spec_check_focus(cfg, d.focus_metrics),
{
    assert(spec_findings(cfg, d) =~= spec_check_system(cfg, d.system_metrics) + spec_check_input(
        cfg,
        d.input_metrics,
    ) + spec_check_focus(cfg, d.focus_metrics));
}

} // verus!
