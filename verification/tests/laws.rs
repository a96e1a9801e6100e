//! Concrete instances of the library's laws.

use pcbbench::quantity::Quantity;
use pcbbench::runner::{Event, Pipeline, RunResult, StageOutput, StageRun, Step};
use pcbbench::scorer::{score_min_confidence, score_spice_clips, score_stages_pass, Confidence, TraceRecord, Verdict};
use pcbbench::scorer::{score, Artifacts};
use pcbbench::task::{Check, Criterion, Task};

fn q(x: f64) -> Quantity {
    Quantity { bits: x.to_bits(), shown: format!("{x:.2}") }
}

fn rec(key: &str, c: f64) -> TraceRecord {
    TraceRecord {
        key: Some(key.into()),
        kind: None,
        confidence: Some(Confidence { value: q(c), complement: q(1.0 - c) }),
    }
}

#[test]
fn lowering_the_confidence_threshold_keeps_a_pass() {
    let run = RunResult { decision_trace: Some("t".into()), ..Default::default() };
    let trace = Ok(vec![rec("a", 0.72), rec("b", 0.9)]);
    assert_eq!(score_min_confidence(&run, &trace, &q(0.7)).0, Verdict::Pass);
    assert_eq!(score_min_confidence(&run, &trace, &q(0.5)).0, Verdict::Pass);
    assert_eq!(score_min_confidence(&run, &trace, &q(-1.0)).0, Verdict::Pass);
    assert_eq!(score_min_confidence(&run, &trace, &q(0.8)).0, Verdict::Fail);
}

#[test]
fn lowering_the_flat_top_bar_keeps_a_pass() {
    let run = RunResult { scope_probe_json: Some("p".into()), ..Default::default() };
    let report = Ok(Some(q(0.81)));
    assert_eq!(score_spice_clips(&run, &report, &q(0.8)).0, Verdict::Pass);
    assert_eq!(score_spice_clips(&run, &report, &q(0.0)).0, Verdict::Pass);
    assert_eq!(score_spice_clips(&run, &report, &q(0.9)).0, Verdict::Fail);
}

fn finish(code_of: &dyn Fn(&str) -> i32) -> RunResult {
    let t = Task { id: "t".into(), family: "fuzz-pedal".into(), brief: "b".into(), input: None, rubric: vec![] };
    let (mut p, mut step) = Pipeline::start("lob".into(), &t, "w".into(), None);
    loop {
        let event = match &step {
            Step::PrepareWorkDir { .. } | Step::CopySpec { .. } => Event::Done,
            Step::Probe { .. } => Event::Found(true),
            Step::Invoke { stage, .. } => Event::Exited(StageOutput {
                command: stage.clone(),
                exit_code: Some(code_of(stage)),
                stdout: String::new(),
                stderr: String::new(),
            }),
            Step::Finish => break,
        };
        assert!(p.accepts(&event));
        step = p.resume(event);
    }
    p.into_result()
}

fn names(stages: &[StageRun]) -> Vec<&str> {
    stages.iter().map(|s| s.stage.as_str()).collect()
}

#[test]
fn no_stage_runs_after_a_failed_one() {
    let r = finish(&|s| if s == "schematic" { 1 } else { 0 });
    assert_eq!(names(&r.stages), vec!["spec", "schematic"]);
    assert!(r.schematic_py.is_none());
    assert_eq!(score_stages_pass(&r).0, Verdict::Fail);

    let r = finish(&|s| if s == "spec" { 1 } else { 0 });
    assert_eq!(names(&r.stages), vec!["spec"]);
    assert!(r.spec_json.is_none());
}

#[test]
fn a_run_that_passes_stages_pass_went_through_its_whole_plan() {
    let r = finish(&|_| 0);
    assert_eq!(score_stages_pass(&r).0, Verdict::Pass);
    assert_eq!(names(&r.stages), vec!["spec", "schematic", "run", "board", "drc"]);
    assert!(r.spec_json.is_some() && r.schematic_py.is_some());
}

#[test]
fn a_subjective_criterion_never_fails_a_report() {
    let t = Task {
        id: "t".into(),
        family: "f".into(),
        brief: "b".into(),
        input: None,
        rubric: vec![
            Criterion { id: "a".into(), description: "a".into(), check: Check::Subjective },
            Criterion { id: "b".into(), description: "b".into(), check: Check::StagesPass },
        ],
    };
    let passing = finish(&|_| 0);
    assert!(score(&t, &passing, &Artifacts::none()).all_automated_pass());
    let failing = finish(&|s| if s == "run" { 1 } else { 0 });
    assert!(!score(&t, &failing, &Artifacts::none()).all_automated_pass());
}

#[test]
fn a_full_run_ends_with_drc_whose_output_drc_clean_reads() {
    let t = Task {
        id: "t".into(),
        family: "fuzz-pedal".into(),
        brief: "b".into(),
        input: None,
        rubric: vec![Criterion { id: "drc".into(), description: "drc".into(), check: Check::DrcClean }],
    };
    let (mut p, mut step) = Pipeline::start("lob".into(), &t, "w".into(), None);
    loop {
        let event = match &step {
            Step::PrepareWorkDir { .. } | Step::CopySpec { .. } => Event::Done,
            Step::Probe { .. } => Event::Found(false),
            Step::Invoke { stage, .. } => Event::Exited(StageOutput {
                command: stage.clone(),
                exit_code: Some(0),
                stdout: if stage == "drc" { "w/board.kicad_pcb: 0 error(s)\n".into() } else { String::new() },
                stderr: String::new(),
            }),
            Step::Finish => break,
        };
        step = p.resume(event);
    }
    let r = p.into_result();
    let report = score(&t, &r, &Artifacts::none());
    assert_eq!(report.results[0].verdict, Verdict::Pass);
    assert_eq!(report.results[0].detail, "w/board.kicad_pcb: 0 error(s)");
    assert!(report.all_automated_pass());
}
