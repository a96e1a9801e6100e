use pcbbench::console::{banner, report_text, stage_report};
use pcbbench::quantity::Quantity;
use pcbbench::runner::{RunResult, StageRun};
use pcbbench::scorer::{CriterionResult, ScoreReport, Verdict};
use pcbbench::task::Task;
use pcbbench::text::{contains_str, decimal_string, first_line_of, join, last_line_of};

fn q(x: f64) -> Quantity {
    Quantity { bits: x.to_bits(), shown: format!("{x:.2}") }
}

#[test]
fn quantities_compare_as_the_numbers_they_stand_for() {
    let cases = [0.0, -0.0, 0.5, 0.7, -0.7, 1.0, 1e300, -1e300, f64::INFINITY, f64::NEG_INFINITY, 5e-324, f64::NAN];
    for a in cases {
        for b in cases {
            assert_eq!(q(a).is_below(&q(b)), a < b, "{a} < {b}");
            assert_eq!(q(a).is_at_least(&q(b)), a >= b, "{a} >= {b}");
        }
    }
}

#[test]
fn larger_keeps_the_larger_and_skips_nan() {
    assert_eq!(Quantity::larger(&q(0.4), &q(0.6)).shown, "0.60");
    assert_eq!(Quantity::larger(&q(0.9), &q(0.1)).shown, "0.90");
    assert_eq!(f64::from_bits(Quantity::larger(&q(f64::NAN), &q(0.3)).bits), 0.3);
    assert_eq!(f64::from_bits(Quantity::larger(&q(0.3), &q(f64::NAN)).bits), 0.3);
}

#[test]
fn decimal_numerals() {
    assert_eq!(decimal_string(0), "0");
    assert_eq!(decimal_string(7), "7");
    assert_eq!(decimal_string(10), "10");
    assert_eq!(decimal_string(12345), "12345");
    assert_eq!(decimal_string(u64::MAX), u64::MAX.to_string());
}

#[test]
fn join_puts_the_separator_between_items() {
    assert_eq!(join(&vec![], ", "), "");
    assert_eq!(join(&vec!["a".to_string()], ", "), "a");
    assert_eq!(join(&vec!["a".to_string(), "b".to_string(), "c".to_string()], ", "), "a, b, c");
}

#[test]
fn first_and_last_lines_follow_str_lines() {
    for s in ["", "abc", "abc\r\ndef", "x\r", "\n", "a\nb\n", "a\n\n", "a\r\n", "a\rb", "é\nü", "one\ntwo\r\n"] {
        assert_eq!(first_line_of(s), s.lines().next().unwrap_or(""), "{s:?}");
        assert_eq!(last_line_of(s).as_deref(), s.lines().next_back(), "{s:?}");
    }
}

#[test]
fn substring_search() {
    assert!(contains_str("board: 0 error(s)", ": 0 error(s)"));
    assert!(!contains_str("board: 10 error(s)", ": 0 error(s)"));
    assert!(contains_str("abc", ""));
    assert!(!contains_str("ab", "abc"));
    assert!(contains_str("äbc", "bc"));
}

#[test]
fn console_lines() {
    let t = Task { id: "fuzz-pedal-v1".into(), family: "fuzz-pedal".into(), brief: "b".into(), input: None, rubric: vec![] };
    assert_eq!(banner(&t), "pcbbench run: fuzz-pedal-v1 (fuzz-pedal)");
    let run = RunResult {
        stages: vec![
            StageRun { stage: "spec".into(), command: "c".into(), exit_code: Some(0), stdout: String::new(), stderr: "noise\n".into() },
            StageRun { stage: "schematic".into(), command: "c".into(), exit_code: Some(1), stdout: String::new(), stderr: "warning\nerror: no such topology\n".into() },
            StageRun { stage: "run".into(), command: "c".into(), exit_code: None, stdout: String::new(), stderr: String::new() },
        ],
        ..Default::default()
    };
    assert_eq!(
        stage_report(&run),
        vec!["  [spec] ok", "  [schematic] FAILED", "    error: no such topology", "  [run] FAILED"]
    );
    let report = ScoreReport {
        task_id: "t".into(),
        backend: "lob".into(),
        results: vec![
            CriterionResult { id: "s".into(), description: "stages".into(), verdict: Verdict::Pass, detail: "all 2 stage(s) exited 0".into() },
            CriterionResult { id: "v".into(), description: "vibe".into(), verdict: Verdict::NeedsHuman, detail: "needs human review".into() },
            CriterionResult { id: "d".into(), description: "drc".into(), verdict: Verdict::Fail, detail: "x".into() },
        ],
    };
    assert_eq!(
        report_text(&report),
        vec![
            "",
            "Score report for t:",
            "  [PASS] stages -- all 2 stage(s) exited 0",
            "  [?   ] vibe -- needs human review",
            "  [FAIL] drc -- x",
            "",
            "note: criteria still need a human: v",
        ]
    );
}
