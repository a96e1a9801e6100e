use pcbbench::quantity::Quantity;
use pcbbench::runner::{RunResult, StageRun};
use pcbbench::scorer::{
    score, score_min_confidence, score_spice_clips, score_stages_pass, Artifacts, Confidence,
    TraceRecord, Verdict,
};
use pcbbench::task::{Check, Criterion, Task};
use serde_json::Value;

fn q(x: f64) -> Quantity {
    Quantity { bits: x.to_bits(), shown: format!("{x:.2}") }
}

fn stage(name: &str, ok: bool) -> StageRun {
    StageRun {
        stage: name.to_string(),
        command: name.to_string(),
        exit_code: Some(if ok { 0 } else { 1 }),
        stdout: String::new(),
        stderr: String::new(),
    }
}

/// Decodes a decision trace the way the command-line program does.
fn decode_trace(text: &str) -> Result<Vec<TraceRecord>, String> {
    let records: Vec<Value> = serde_json::from_str(text).map_err(|e| e.to_string())?;
    Ok(records
        .iter()
        .map(|r| TraceRecord {
            key: r.get("key").and_then(Value::as_str).map(String::from),
            kind: r.get("kind").and_then(Value::as_str).map(String::from),
            confidence: r.get("confidence").and_then(Value::as_f64).map(|c| Confidence {
                value: q(c),
                complement: q(1.0 - c),
            }),
        })
        .collect())
}

/// Decodes a scope-probe report the way the command-line program does.
fn decode_flat_top(text: &str) -> Result<Option<Quantity>, String> {
    let report: Value = serde_json::from_str(text).map_err(|e| e.to_string())?;
    Ok(report.get("flat_top_at_max").and_then(Value::as_f64).map(q))
}

#[test]
fn stages_pass_fails_loud_on_any_failed_stage() {
    let run = RunResult {
        stages: vec![stage("spec", true), stage("schematic", false)],
        ..Default::default()
    };
    let (verdict, detail) = score_stages_pass(&run);
    assert_eq!(verdict, Verdict::Fail);
    assert!(detail.contains("schematic"));
}

#[test]
fn stages_pass_with_no_stages_is_a_failure_not_a_vacuous_pass() {
    let run = RunResult::default();
    let (verdict, _) = score_stages_pass(&run);
    assert_eq!(verdict, Verdict::Fail);
}

#[test]
fn min_confidence_reads_a_real_trace_file() {
    let text = r#"[{"key":"a","kind":"choice","chosen":"x","confidence":0.9,"timestamp_unix":0},
            {"key":"b","kind":"noul","chosen":"0.400","confidence":0.4,"timestamp_unix":0},
            {"key":"c","kind":"noul","chosen":"0.020","confidence":0.02,"timestamp_unix":0}]"#;
    let run = RunResult {
        decision_trace: Some("trace.json".into()),
        ..Default::default()
    };
    let trace = decode_trace(text);
    let (verdict, detail) = score_min_confidence(&run, &trace, &q(0.7));
    assert_eq!(verdict, Verdict::Fail);
    // A hedged yes/no (p = 0.4) is 0.6 sure; a firm no (p = 0.02) is 0.98.
    assert!(detail.contains("b=0.60"), "{detail}");
    assert!(!detail.contains("c="), "{detail}");
}

#[test]
fn min_confidence_missing_trace_fails_not_panics() {
    let run = RunResult::default();
    let (verdict, detail) = score_min_confidence(&run, &Ok(vec![]), &q(0.7));
    assert_eq!(verdict, Verdict::Fail);
    assert!(detail.contains("no decision trace"));
}

#[test]
fn spice_clips_passes_when_flat_top_clears_the_threshold() {
    let text = r#"{"flat_top_at_max":0.91}"#;
    let run = RunResult {
        scope_probe_json: Some("scope-probe.json".into()),
        ..Default::default()
    };
    let (verdict, detail) = score_spice_clips(&run, &decode_flat_top(text), &q(0.8));
    assert_eq!(verdict, Verdict::Pass);
    assert!(detail.contains("0.91"));
}

#[test]
fn spice_clips_fails_when_flat_top_misses_the_threshold() {
    let text = r#"{"flat_top_at_max":0.42}"#;
    let run = RunResult {
        scope_probe_json: Some("scope-probe.json".into()),
        ..Default::default()
    };
    let (verdict, _) = score_spice_clips(&run, &decode_flat_top(text), &q(0.8));
    assert_eq!(verdict, Verdict::Fail);
}

#[test]
fn spice_clips_missing_report_fails_not_panics() {
    let (verdict, detail) = score_spice_clips(&RunResult::default(), &Ok(None), &q(0.8));
    assert_eq!(verdict, Verdict::Fail);
    assert!(detail.contains("did not produce a report"));
}

#[test]
fn subjective_criterion_has_no_pass_fail() {
    let task = Task {
        id: "t".into(),
        family: "fuzz-pedal".into(),
        brief: "b".into(),
        input: None,
        rubric: vec![Criterion {
            id: "vibe".into(),
            description: "d".into(),
            check: Check::Subjective,
        }],
    };
    let report = score(&task, &RunResult::default(), &Artifacts::none());
    assert_eq!(report.results[0].verdict, Verdict::NeedsHuman);
    assert!(report.all_automated_pass());
    assert_eq!(report.needs_human(), vec!["vibe"]);
}

#[test]
fn a_real_fail_shows_up_in_all_automated_pass() {
    let task = Task {
        id: "t".into(),
        family: "fuzz-pedal".into(),
        brief: "b".into(),
        input: None,
        rubric: vec![Criterion {
            id: "stages".into(),
            description: "d".into(),
            check: Check::StagesPass,
        }],
    };
    let report = score(&task, &RunResult::default(), &Artifacts::none());
    assert!(!report.all_automated_pass());
}
