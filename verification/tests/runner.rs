use pcbbench::runner::{Arg, Event, Phase, Pipeline, RunResult, StageOutput, StageRun, Step};
use pcbbench::task::{Check, Criterion, Task};
use pcbbench::quantity::Quantity;

#[test]
fn stage_run_passed_requires_exit_code_zero() {
    let ok = StageRun {
        stage: "x".into(),
        command: "x".into(),
        exit_code: Some(0),
        stdout: String::new(),
        stderr: String::new(),
    };
    assert!(ok.passed());

    let failed = StageRun {
        exit_code: Some(1),
        ..ok.clone()
    };
    assert!(!failed.passed());

    let killed = StageRun {
        exit_code: None,
        ..ok
    };
    assert!(!killed.passed());
}

fn q(x: f64) -> Quantity {
    Quantity { bits: x.to_bits(), shown: format!("{x:.2}") }
}

fn task(rubric: Vec<Criterion>) -> Task {
    Task {
        id: "fuzz-pedal-v1".into(),
        family: "fuzz-pedal".into(),
        brief: "vintage silicon fuzz, 9V, true bypass".into(),
        input: None,
        rubric,
    }
}

fn criterion(id: &str, check: Check) -> Criterion {
    Criterion { id: id.into(), description: id.into(), check }
}

fn exited(code: i32) -> Event {
    Event::Exited(StageOutput {
        command: "lob".into(),
        exit_code: Some(code),
        stdout: format!("out {code}"),
        stderr: String::new(),
    })
}

fn texts(args: &[Arg]) -> Vec<String> {
    args.iter()
        .map(|a| match a {
            Arg::Text(t) => t.clone(),
            Arg::Number(b) => f64::from_bits(*b).to_string(),
        })
        .collect()
}

fn invoked(step: &Step) -> (String, Vec<String>) {
    match step {
        Step::Invoke { stage, args } => (stage.clone(), texts(args)),
        other => panic!("expected an invocation, got {other:?}"),
    }
}

fn probed(step: &Step) -> String {
    match step {
        Step::Probe { path } => path.clone(),
        other => panic!("expected a probe, got {other:?}"),
    }
}

fn answer(p: &mut Pipeline, e: Event) -> Step {
    assert!(p.accepts(&e));
    p.resume(e)
}

#[test]
fn default_run_result_is_empty() {
    let r = RunResult::default();
    assert!(r.stages.is_empty());
    assert!(r.backend.is_empty());
    assert!(r.spec_json.is_none() && r.schematic_py.is_none());
    assert!(r.decision_trace.is_none() && r.scope_probe_json.is_none());
}

#[test]
fn pipeline_runs_spec_schematic_run_in_order() {
    let t = task(vec![criterion("stages", Check::StagesPass)]);
    let (mut p, step) = Pipeline::start("lob".into(), &t, "out".into(), None);
    match &step {
        Step::PrepareWorkDir { dir } => assert_eq!(dir, "out"),
        other => panic!("{other:?}"),
    }
    assert_eq!(p.plan.spec_json, "out/design.json");
    assert_eq!(p.plan.trace_json, "out/design.trace.json");
    assert_eq!(p.plan.schematic_py, "out/circuit.py");

    let step = answer(&mut p, Event::Done);
    let (stage, args) = invoked(&step);
    assert_eq!(stage, "spec");
    assert_eq!(
        args,
        vec![
            "spec",
            "fuzz-pedal",
            "--brief",
            "vintage silicon fuzz, 9V, true bypass",
            "--out",
            "out/design",
            "--trace",
            "out/design.trace.json"
        ]
    );

    let step = answer(&mut p, exited(0));
    assert_eq!(probed(&step), "out/design.trace.json");
    let step = answer(&mut p, Event::Found(true));
    let (stage, args) = invoked(&step);
    assert_eq!(stage, "schematic");
    assert_eq!(args, vec!["schematic", "out/design.json", "--out", "out/circuit.py"]);

    let step = answer(&mut p, exited(0));
    let (stage, args) = invoked(&step);
    assert_eq!(stage, "run");
    assert_eq!(args, vec!["run", "out/circuit.py"]);

    let step = answer(&mut p, exited(0));
    let (stage, args) = invoked(&step);
    assert_eq!(stage, "board");
    assert_eq!(
        args,
        vec!["board", "out/circuit.py", "--spec", "out/design.json", "--out", "out/board.kicad_pcb"]
    );

    let step = answer(&mut p, exited(0));
    let (stage, args) = invoked(&step);
    assert_eq!(stage, "drc");
    assert_eq!(args, vec!["drc", "out/board.kicad_pcb"]);

    let step = answer(&mut p, exited(0));
    assert!(matches!(step, Step::Finish));
    assert_eq!(p.phase, Phase::Finished);
    let r = p.into_result();
    assert_eq!(r.backend, "lob");
    let names: Vec<&str> = r.stages.iter().map(|s| s.stage.as_str()).collect();
    assert_eq!(names, vec!["spec", "schematic", "run", "board", "drc"]);
    assert_eq!(r.stages[0].stdout, "out 0");
    assert_eq!(r.spec_json.as_deref(), Some("out/design.json"));
    assert_eq!(r.decision_trace.as_deref(), Some("out/design.trace.json"));
    assert_eq!(r.schematic_py.as_deref(), Some("out/circuit.py"));
    assert!(r.scope_probe_json.is_none());
}

#[test]
fn failed_spec_stage_ends_the_run() {
    let t = task(vec![]);
    let (mut p, _) = Pipeline::start("lob".into(), &t, "w".into(), None);
    answer(&mut p, Event::Done);
    let step = answer(&mut p, exited(2));
    assert!(matches!(step, Step::Finish));
    let r = p.into_result();
    assert_eq!(r.stages.len(), 1);
    assert!(!r.stages[0].passed());
    assert!(r.spec_json.is_none());
    assert!(r.decision_trace.is_none());
}

#[test]
fn existing_spec_skips_the_spec_stage() {
    let t = task(vec![]);
    let (mut p, _) = Pipeline::start("lob".into(), &t, "w".into(), Some("given.json".into()));
    let step = answer(&mut p, Event::Done);
    match &step {
        Step::CopySpec { from, to } => {
            assert_eq!(from, "given.json");
            assert_eq!(to, "w/design.json");
        }
        other => panic!("{other:?}"),
    }
    let step = answer(&mut p, Event::Done);
    assert_eq!(probed(&step), "w/design.trace.json");
    let step = answer(&mut p, Event::Found(false));
    assert_eq!(invoked(&step).0, "schematic");
    let step = answer(&mut p, exited(1));
    assert!(matches!(step, Step::Finish));
    let r = p.into_result();
    let names: Vec<&str> = r.stages.iter().map(|s| s.stage.as_str()).collect();
    assert_eq!(names, vec!["schematic"]);
    assert_eq!(r.spec_json.as_deref(), Some("w/design.json"));
    assert!(r.decision_trace.is_none());
    assert!(r.schematic_py.is_none());
}

fn clips(hint: Option<&str>) -> Check {
    Check::SpiceClips {
        input_net_hint: hint.map(String::from),
        freq_hz: Some(q(1000.0)),
        min_amplitude_v: Some(q(0.005)),
        max_amplitude_v: None,
        steps: Some(8),
        min_flat_top_at_max: q(0.6),
    }
}

#[test]
fn scope_probe_runs_only_when_the_rubric_asks_for_it() {
    let t = task(vec![criterion("stages", Check::StagesPass), criterion("clips", clips(Some("IN")))]);
    let (mut p, _) = Pipeline::start("lob".into(), &t, "w".into(), None);
    answer(&mut p, Event::Done);
    answer(&mut p, exited(0));
    answer(&mut p, Event::Found(false));
    let step = answer(&mut p, exited(0));
    let (stage, args) = invoked(&step);
    assert_eq!(stage, "scope-probe");
    assert_eq!(
        args,
        vec![
            "scope-probe",
            "w/circuit.py",
            "--input-net-hint",
            "IN",
            "--freq",
            "1000",
            "--min-amplitude",
            "0.005",
            "--steps",
            "8",
            "--out",
            "w/scope-probe.json"
        ]
    );
    let step = answer(&mut p, exited(0));
    assert_eq!(probed(&step), "w/scope-probe.json");
    let step = answer(&mut p, Event::Found(true));
    assert_eq!(invoked(&step).0, "run");
    let step = answer(&mut p, exited(0));
    assert_eq!(invoked(&step).0, "board");
    let step = answer(&mut p, exited(0));
    assert_eq!(invoked(&step).0, "drc");
    let step = answer(&mut p, exited(0));
    assert!(matches!(step, Step::Finish));
    let r = p.into_result();
    let names: Vec<&str> = r.stages.iter().map(|s| s.stage.as_str()).collect();
    assert_eq!(names, vec!["spec", "schematic", "scope-probe", "run", "board", "drc"]);
    assert_eq!(r.scope_probe_json.as_deref(), Some("w/scope-probe.json"));
}

#[test]
fn failed_scope_probe_does_not_stop_the_run() {
    let t = task(vec![criterion("clips", clips(None))]);
    let (mut p, _) = Pipeline::start("lob".into(), &t, "w".into(), Some("s.json".into()));
    answer(&mut p, Event::Done);
    answer(&mut p, Event::Done);
    answer(&mut p, Event::Found(false));
    let step = answer(&mut p, exited(0));
    let (stage, args) = invoked(&step);
    assert_eq!(stage, "scope-probe");
    assert!(!args.contains(&"--input-net-hint".to_string()));
    let step = answer(&mut p, exited(3));
    assert_eq!(invoked(&step).0, "run");
    let step = answer(&mut p, exited(0));
    assert_eq!(invoked(&step).0, "board");
    let step = answer(&mut p, exited(0));
    assert_eq!(invoked(&step).0, "drc");
    let step = answer(&mut p, exited(0));
    assert!(matches!(step, Step::Finish));
    let r = p.into_result();
    let names: Vec<&str> = r.stages.iter().map(|s| s.stage.as_str()).collect();
    assert_eq!(names, vec!["schematic", "scope-probe", "run", "board", "drc"]);
    assert_eq!(r.spec_json.as_deref(), Some("w/design.json"));
    assert!(r.scope_probe_json.is_none());
}

#[test]
fn pipeline_refuses_an_answer_that_does_not_fit() {
    let t = task(vec![]);
    let (mut p, _) = Pipeline::start("lob".into(), &t, "w".into(), None);
    assert!(!p.accepts(&Event::Found(true)));
    assert!(!p.accepts(&exited(0)));
    assert!(p.accepts(&Event::Done));
    p.resume(Event::Done);
    assert!(!p.accepts(&Event::Done));
    assert!(p.accepts(&exited(0)));
}

#[test]
fn failed_run_or_board_ends_the_run() {
    let t = task(vec![]);
    for (failing, expected) in [("run", vec!["spec", "schematic", "run"]), ("board", vec!["spec", "schematic", "run", "board"])] {
        let (mut p, mut step) = Pipeline::start("lob".into(), &t, "w".into(), None);
        loop {
            let event = match &step {
                Step::PrepareWorkDir { .. } | Step::CopySpec { .. } => Event::Done,
                Step::Probe { .. } => Event::Found(false),
                Step::Invoke { stage, .. } => exited(if stage == failing { 1 } else { 0 }),
                Step::Finish => break,
            };
            step = answer(&mut p, event);
        }
        let r = p.into_result();
        let names: Vec<&str> = r.stages.iter().map(|s| s.stage.as_str()).collect();
        assert_eq!(names, expected);
        assert!(!r.stages.last().unwrap().passed());
    }
}
